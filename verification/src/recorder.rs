//! A runtime that records every step.  It stands in for the ambient flags a
//! caller would otherwise use to observe a wrapper: the operation's outcomes
//! are planned up front, and the full event history can be read back.

use vstd::prelude::*;

use crate::event::{
    attempts_in, callbacks_in, lemma_attempts_in_le_len, lemma_attempts_in_push, CallbackKind,
    Event,
};
use crate::runtime::Runtime;

verus! {

/// The outcome pattern described by a plan: attempt `n` succeeds exactly when
/// the plan holds `true` at position `n`, and every attempt past the end of
/// the plan fails.
pub open spec fn plan_outcomes(plan: Seq<bool>) -> spec_fn(nat) -> Result<(), ()> {
    |n: nat|
        if n < plan.len() && plan[n as int] {
            Ok(())
        } else {
            Err(())
        }
}

/// A [`Runtime`] whose operation follows a fixed plan of outcomes and which
/// keeps a readable log of every attempt, callback run and sleep.
pub struct Recorder {
    plan: Vec<bool>,
    events: Vec<Event>,
    attempts: usize,
}

impl Recorder {
    /// A fresh recorder with an empty history; attempt `n` will succeed
    /// exactly when `plan[n]` is `true`, and attempts past the end of the
    /// plan will fail.
    pub fn new(plan: Vec<bool>) -> (r: Recorder)
        ensures
            r.inv(),
            r.history() == Seq::<Event>::empty(),
            r.outcomes() == plan_outcomes(plan@),
    {
        Recorder { plan, events: Vec::new(), attempts: 0 }
    }

    /// The log of every step taken so far, oldest first.
    pub fn events(&self) -> (r: &Vec<Event>)
        ensures
            r@ == self.history(),
    {
        &self.events
    }

    /// How many times the operation has run.
    pub fn attempt_count(&self) -> (r: usize)
        requires
            self.inv(),
        ensures
            r == attempts_in(self.history()),
    {
        self.attempts
    }

    /// Whether the callback of the given kind has run at least once.
    pub fn callback_was_run(&self, kind: CallbackKind) -> (r: bool)
        ensures
            r == (callbacks_in(self.history(), kind) > 0),
    {
        let n = self.events.len();
        let mut i: usize = 0;
        let mut found = false;
        while i < n
            invariant
                n == self.events.len(),
                i <= n,
                found == (callbacks_in(self.events@.take(i as int), kind) > 0),
            decreases n - i,
        {
            if self.events[i] == Event::Callback(kind) {
                found = true;
            }
            proof {
                assert(self.events@.take(i + 1).drop_last() =~= self.events@.take(i as int));
                assert(self.events@.take(i + 1).last() == self.events@[i as int]);
            }
            i = i + 1;
        }
        proof {
            assert(self.events@.take(n as int) =~= self.events@);
        }
        found
    }
}

impl Runtime<(), ()> for Recorder {
    closed spec fn inv(&self) -> bool {
        self.attempts == attempts_in(self.events@)
    }

    closed spec fn history(&self) -> Seq<Event> {
        self.events@
    }

    closed spec fn outcomes(&self) -> spec_fn(nat) -> Result<(), ()> {
        plan_outcomes(self.plan@)
    }

    fn run_operation(&mut self) -> (r: Result<(), ()>) {
        let n = self.attempts;
        let ok = n < self.plan.len() && self.plan[n];
        proof {
            lemma_attempts_in_le_len(self.events@);
            lemma_attempts_in_push(self.events@, Event::Attempt(ok));
        }
        self.events.push(Event::Attempt(ok));
        let new_len = self.events.len();
        proof {
            assert(self.attempts < new_len);
        }
        self.attempts = self.attempts + 1;
        proof {
            assert((plan_outcomes(old(self).plan@))(n as nat) == (if ok {
                Ok::<(), ()>(())
            } else {
                Err::<(), ()>(())
            }));
        }
        if ok {
            Ok(())
        } else {
            Err(())
        }
    }

    fn run_callback(&mut self, kind: CallbackKind) {
        proof {
            lemma_attempts_in_push(self.events@, Event::Callback(kind));
        }
        self.events.push(Event::Callback(kind));
    }

    fn sleep(&mut self, delay_ms: u64) {
        proof {
            lemma_attempts_in_push(self.events@, Event::Sleep(delay_ms));
        }
        self.events.push(Event::Sleep(delay_ms));
    }
}

} // verus!
