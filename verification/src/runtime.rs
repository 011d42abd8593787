//! The environment a wrapper drives: it runs the wrapped operation, runs the
//! callbacks that were registered at composition time, and sleeps between
//! retry attempts.  Implementations are supplied by the caller; the library
//! ships [`crate::recorder::Recorder`], which records every step.

use vstd::prelude::*;

use crate::event::{attempts_in, CallbackKind, Event};

verus! {

/// The execution environment of one composed operation.
///
/// `history()` is the sequence of observable steps taken so far, and
/// `outcomes()` gives, for every attempt index, the outcome the operation
/// produces on that attempt.  Attempt indices count from zero over the whole
/// life of the runtime, so `attempts_in(history())` is the index of the next
/// attempt.  Running a callback or sleeping never changes what the operation
/// will do.
pub trait Runtime<T, E>: Sized {
    /// The implementation's own well-formedness condition.
    spec fn inv(&self) -> bool;

    /// The observable steps taken so far.
    spec fn history(&self) -> Seq<Event>;

    /// The outcome the operation produces on each attempt, by attempt index.
    spec fn outcomes(&self) -> spec_fn(nat) -> Result<T, E>;

    /// Run the wrapped operation once and record the attempt.
    fn run_operation(&mut self) -> (r: Result<T, E>)
        requires
            old(self).inv(),
        ensures
            final(self).inv(),
            final(self).outcomes() == old(self).outcomes(),
            r == (old(self).outcomes())(attempts_in(old(self).history())),
            final(self).history() == old(self).history().push(Event::Attempt(r is Ok)),
    ;

    /// Run the registered callback of the given kind and record it.
    fn run_callback(&mut self, kind: CallbackKind)
        requires
            old(self).inv(),
        ensures
            final(self).inv(),
            final(self).outcomes() == old(self).outcomes(),
            final(self).history() == old(self).history().push(Event::Callback(kind)),
    ;

    /// Sleep for `delay_ms` milliseconds and record it.
    fn sleep(&mut self, delay_ms: u64)
        requires
            old(self).inv(),
        ensures
            final(self).inv(),
            final(self).outcomes() == old(self).outcomes(),
            final(self).history() == old(self).history().push(Event::Sleep(delay_ms)),
    ;
}

} // verus!
