//! The observable steps that a wrapper drives: operation attempts, callback
//! runs and inter-attempt sleeps.  Every wrapper's contract states exactly
//! which events it appends to the runtime's history.

use vstd::prelude::*;

verus! {

/// Which registered callback a wrapper ran.
#[derive(Clone, Copy, PartialEq, Eq, Structural, Debug)]
pub enum CallbackKind {
    /// The callback run after a successful attempt.
    Success,
    /// The callback run after a failed attempt.
    Failure,
    /// The callback run before the operation starts.
    Pre,
    /// The callback run after the operation completes.
    Post,
}

/// One observable step taken by a wrapper.
#[derive(Clone, Copy, PartialEq, Eq, Structural, Debug)]
pub enum Event {
    /// The operation ran once; the flag records whether it succeeded.
    Attempt(bool),
    /// A registered callback ran.
    Callback(CallbackKind),
    /// The caller slept for the given number of milliseconds.
    Sleep(u64),
}

/// How many times the operation has run in the history `h`.
pub open spec fn attempts_in(h: Seq<Event>) -> nat
    decreases h.len(),
{
    if h.len() == 0 {
        0
    } else {
        attempts_in(h.drop_last()) + (if h.last() matches Event::Attempt(_) {
            1nat
        } else {
            0nat
        })
    }
}

/// How many times the callback of kind `kind` has run in the history `h`.
pub open spec fn callbacks_in(h: Seq<Event>, kind: CallbackKind) -> nat
    decreases h.len(),
{
    if h.len() == 0 {
        0
    } else {
        callbacks_in(h.drop_last(), kind) + (if h.last() == Event::Callback(kind) {
            1nat
        } else {
            0nat
        })
    }
}

/// How many sleeps the history `h` holds.
pub open spec fn sleeps_in(h: Seq<Event>) -> nat
    decreases h.len(),
{
    if h.len() == 0 {
        0
    } else {
        sleeps_in(h.drop_last()) + (if h.last() matches Event::Sleep(_) {
            1nat
        } else {
            0nat
        })
    }
}

/// The total time slept over the history `h`, in milliseconds.
pub open spec fn sleep_total(h: Seq<Event>) -> nat
    decreases h.len(),
{
    if h.len() == 0 {
        0
    } else {
        sleep_total(h.drop_last()) + (if h.last() matches Event::Sleep(_) {
            h.last()->Sleep_0 as nat
        } else {
            0nat
        })
    }
}

pub proof fn lemma_attempts_in_concat(a: Seq<Event>, b: Seq<Event>)
    ensures
        attempts_in(a + b) == attempts_in(a) + attempts_in(b),
    decreases b.len(),
{
    if b.len() == 0 {
        assert(a + b =~= a);
    } else {
        lemma_attempts_in_concat(a, b.drop_last());
        assert((a + b).drop_last() =~= a + b.drop_last());
    }
}

pub proof fn lemma_callbacks_in_concat(a: Seq<Event>, b: Seq<Event>, kind: CallbackKind)
    ensures
        callbacks_in(a + b, kind) == callbacks_in(a, kind) + callbacks_in(b, kind),
    decreases b.len(),
{
    if b.len() == 0 {
        assert(a + b =~= a);
    } else {
        lemma_callbacks_in_concat(a, b.drop_last(), kind);
        assert((a + b).drop_last() =~= a + b.drop_last());
    }
}

pub proof fn lemma_sleeps_in_concat(a: Seq<Event>, b: Seq<Event>)
    ensures
        sleeps_in(a + b) == sleeps_in(a) + sleeps_in(b),
    decreases b.len(),
{
    if b.len() == 0 {
        assert(a + b =~= a);
    } else {
        lemma_sleeps_in_concat(a, b.drop_last());
        assert((a + b).drop_last() =~= a + b.drop_last());
    }
}

pub proof fn lemma_sleep_total_concat(a: Seq<Event>, b: Seq<Event>)
    ensures
        sleep_total(a + b) == sleep_total(a) + sleep_total(b),
    decreases b.len(),
{
    if b.len() == 0 {
        assert(a + b =~= a);
    } else {
        lemma_sleep_total_concat(a, b.drop_last());
        assert((a + b).drop_last() =~= a + b.drop_last());
    }
}

pub proof fn lemma_singleton_counts(e: Event)
    ensures
        attempts_in(seq![e]) == (if e matches Event::Attempt(_) {
            1nat
        } else {
            0nat
        }),
        forall|kind: CallbackKind| #[trigger] callbacks_in(seq![e], kind) == (if e
            == Event::Callback(kind) {
            1nat
        } else {
            0nat
        }),
        sleeps_in(seq![e]) == (if e matches Event::Sleep(_) {
            1nat
        } else {
            0nat
        }),
        sleep_total(seq![e]) == (if e matches Event::Sleep(_) {
            e->Sleep_0 as nat
        } else {
            0nat
        }),
{
    assert(seq![e].drop_last() =~= Seq::<Event>::empty());
    assert(seq![e].last() == e);
    assert(seq![e].len() == 1);
    assert(attempts_in(Seq::<Event>::empty()) == 0);
    assert(sleeps_in(Seq::<Event>::empty()) == 0);
    assert(sleep_total(Seq::<Event>::empty()) == 0);
    assert forall|kind: CallbackKind| #[trigger] callbacks_in(seq![e], kind) == (if e
        == Event::Callback(kind) {
        1nat
    } else {
        0nat
    }) by {
        assert(callbacks_in(Seq::<Event>::empty(), kind) == 0);
    }
}

pub proof fn lemma_attempts_in_le_len(h: Seq<Event>)
    ensures
        attempts_in(h) <= h.len(),
    decreases h.len(),
{
    if h.len() > 0 {
        lemma_attempts_in_le_len(h.drop_last());
    }
}

pub proof fn lemma_attempts_in_push(h: Seq<Event>, e: Event)
    ensures
        attempts_in(h.push(e)) == attempts_in(h) + (if e matches Event::Attempt(_) {
            1nat
        } else {
            0nat
        }),
{
    assert(h.push(e).drop_last() =~= h);
    assert(h.push(e).last() == e);
}

} // verus!
