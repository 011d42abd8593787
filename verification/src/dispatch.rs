//! The outcome dispatcher: run the operation once, then run the success
//! callback or the failure callback — never both — depending on the outcome,
//! and hand the outcome back unchanged.

use vstd::prelude::*;

use crate::event::{
    attempts_in, callbacks_in, lemma_callbacks_in_concat, lemma_singleton_counts, CallbackKind,
    Event,
};
use crate::runtime::Runtime;

verus! {

/// The callback one dispatch runs, if any: the success callback after a
/// successful attempt, the failure callback after a failed one, and none
/// when the matching callback was not registered.
pub open spec fn spec_dispatch_choice(
    succeeded: bool,
    has_on_ok: bool,
    has_on_err: bool,
) -> Option<CallbackKind> {
    if succeeded && has_on_ok {
        Some(CallbackKind::Success)
    } else if !succeeded && has_on_err {
        Some(CallbackKind::Failure)
    } else {
        None
    }
}

/// The events one dispatcher invocation appends to the history: the attempt,
/// then the chosen callback, if there is one.
pub open spec fn dispatch_events(succeeded: bool, has_on_ok: bool, has_on_err: bool) -> Seq<
    Event,
> {
    match spec_dispatch_choice(succeeded, has_on_ok, has_on_err) {
        Some(kind) => seq![Event::Attempt(succeeded), Event::Callback(kind)],
        None => seq![Event::Attempt(succeeded)],
    }
}

/// Decide which callback to run after an attempt with the given outcome.
/// Shared by [`on_result`] here and by any driver that runs the operation on
/// its own unit of execution.
pub fn dispatch_choice(succeeded: bool, has_on_ok: bool, has_on_err: bool) -> (c: Option<
    CallbackKind,
>)
    ensures
        c == spec_dispatch_choice(succeeded, has_on_ok, has_on_err),
{
    if succeeded && has_on_ok {
        Some(CallbackKind::Success)
    } else if !succeeded && has_on_err {
        Some(CallbackKind::Failure)
    } else {
        None
    }
}

/// Run the operation once, then the success callback if the outcome is a
/// success and one is registered, else the failure callback if the outcome is
/// a failure and one is registered.  The outcome is returned unchanged.
pub fn on_result<T, E, R: Runtime<T, E>>(rt: &mut R, has_on_ok: bool, has_on_err: bool) -> (r:
    Result<T, E>)
    requires
        old(rt).inv(),
    ensures
        final(rt).inv(),
        final(rt).outcomes() == old(rt).outcomes(),
        r == (old(rt).outcomes())(attempts_in(old(rt).history())),
        final(rt).history() == old(rt).history() + dispatch_events(
            r is Ok,
            has_on_ok,
            has_on_err,
        ),
{
    let r = rt.run_operation();
    let succeeded = r.is_ok();
    match dispatch_choice(succeeded, has_on_ok, has_on_err) {
        Some(kind) => {
            rt.run_callback(kind);
            proof {
                assert(rt.history() =~= old(rt).history() + dispatch_events(
                    succeeded,
                    has_on_ok,
                    has_on_err,
                ));
            }
        },
        None => {
            proof {
                assert(rt.history() =~= old(rt).history() + dispatch_events(
                    succeeded,
                    has_on_ok,
                    has_on_err,
                ));
            }
        },
    }
    r
}

/// Run the operation once and, on success only, the success callback, which
/// must have been registered.  The outcome is returned unchanged.
pub fn on_ok<T, E, R: Runtime<T, E>>(rt: &mut R) -> (r: Result<T, E>)
    requires
        old(rt).inv(),
    ensures
        final(rt).inv(),
        final(rt).outcomes() == old(rt).outcomes(),
        r == (old(rt).outcomes())(attempts_in(old(rt).history())),
        final(rt).history() == old(rt).history() + dispatch_events(r is Ok, true, false),
{
    on_result(rt, true, false)
}

/// Dispatcher law: one invocation runs the operation exactly once; after a
/// success the success callback runs exactly once when registered and the
/// failure callback never; after a failure the reverse.  (That the returned
/// outcome is the operation's own is stated by the `ensures` of [`on_result`]
/// and [`on_ok`].)
pub proof fn lemma_dispatch_callback_counts(succeeded: bool, has_on_ok: bool, has_on_err: bool)
    ensures
        attempts_in(dispatch_events(succeeded, has_on_ok, has_on_err)) == 1,
        callbacks_in(dispatch_events(succeeded, has_on_ok, has_on_err), CallbackKind::Success) == (
        if succeeded && has_on_ok {
            1nat
        } else {
            0nat
        }),
        callbacks_in(dispatch_events(succeeded, has_on_ok, has_on_err), CallbackKind::Failure) == (
        if !succeeded && has_on_err {
            1nat
        } else {
            0nat
        }),
{
    let ev = dispatch_events(succeeded, has_on_ok, has_on_err);
    match spec_dispatch_choice(succeeded, has_on_ok, has_on_err) {
        Some(kind) => {
            assert(ev =~= seq![Event::Attempt(succeeded)] + seq![Event::Callback(kind)]);
            lemma_singleton_counts(Event::Attempt(succeeded));
            lemma_singleton_counts(Event::Callback(kind));
            crate::event::lemma_attempts_in_concat(
                seq![Event::Attempt(succeeded)],
                seq![Event::Callback(kind)],
            );
            lemma_callbacks_in_concat(
                seq![Event::Attempt(succeeded)],
                seq![Event::Callback(kind)],
                CallbackKind::Success,
            );
            lemma_callbacks_in_concat(
                seq![Event::Attempt(succeeded)],
                seq![Event::Callback(kind)],
                CallbackKind::Failure,
            );
        },
        None => {
            lemma_singleton_counts(Event::Attempt(succeeded));
        },
    }
}

} // verus!
