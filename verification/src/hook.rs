//! The hook controller: run the pre callback, then the operation, then the
//! post callback, each callback only when registered, the post callback
//! whatever the outcome, and hand the outcome back unchanged.

use vstd::prelude::*;

use crate::event::{
    attempts_in, callbacks_in, lemma_attempts_in_push, lemma_callbacks_in_concat,
    lemma_singleton_counts, CallbackKind, Event,
};
use crate::runtime::Runtime;

verus! {

/// The events one hook invocation appends to the history: the pre callback
/// when registered, then the attempt, then the post callback when registered.
pub open spec fn hook_events(has_pre: bool, has_post: bool, succeeded: bool) -> Seq<Event> {
    (if has_pre {
        seq![Event::Callback(CallbackKind::Pre)]
    } else {
        Seq::<Event>::empty()
    }) + seq![Event::Attempt(succeeded)] + (if has_post {
        seq![Event::Callback(CallbackKind::Post)]
    } else {
        Seq::<Event>::empty()
    })
}

/// Run the pre callback if one is registered, then the operation exactly
/// once, then the post callback if one is registered, success or failure.
/// The outcome is returned unchanged.
pub fn hook<T, E, R: Runtime<T, E>>(rt: &mut R, has_pre: bool, has_post: bool) -> (r: Result<
    T,
    E,
>)
    requires
        old(rt).inv(),
    ensures
        final(rt).inv(),
        final(rt).outcomes() == old(rt).outcomes(),
        r == (old(rt).outcomes())(attempts_in(old(rt).history())),
        final(rt).history() == old(rt).history() + hook_events(has_pre, has_post, r is Ok),
{
    if has_pre {
        rt.run_callback(CallbackKind::Pre);
        proof {
            lemma_attempts_in_push(old(rt).history(), Event::Callback(CallbackKind::Pre));
        }
    }
    let r = rt.run_operation();
    let succeeded = r.is_ok();
    if has_post {
        rt.run_callback(CallbackKind::Post);
    }
    proof {
        assert(rt.history() =~= old(rt).history() + hook_events(has_pre, has_post, succeeded));
    }
    r
}

/// Hook ordering law: in each of the four combinations of present callbacks,
/// the operation runs exactly once, every pre callback stands before the
/// attempt and every post callback after it, and each callback runs exactly
/// once when registered and never otherwise.
pub proof fn lemma_hook_ordering(has_pre: bool, has_post: bool, succeeded: bool)
    ensures
        attempts_in(hook_events(has_pre, has_post, succeeded)) == 1,
        callbacks_in(hook_events(has_pre, has_post, succeeded), CallbackKind::Pre) == (if has_pre {
            1nat
        } else {
            0nat
        }),
        callbacks_in(hook_events(has_pre, has_post, succeeded), CallbackKind::Post) == (
        if has_post {
            1nat
        } else {
            0nat
        }),
        ({
            let ev = hook_events(has_pre, has_post, succeeded);
            let ai: int = if has_pre {
                1
            } else {
                0
            };
            &&& ev[ai] == Event::Attempt(succeeded)
            &&& forall|i: int|
                0 <= i < ev.len() && ev[i] == Event::Callback(CallbackKind::Pre) ==> i < ai
            &&& forall|i: int|
                0 <= i < ev.len() && ev[i] == Event::Callback(CallbackKind::Post) ==> i > ai
        }),
{
    let ev = hook_events(has_pre, has_post, succeeded);
    let pre_part = if has_pre {
        seq![Event::Callback(CallbackKind::Pre)]
    } else {
        Seq::<Event>::empty()
    };
    let post_part = if has_post {
        seq![Event::Callback(CallbackKind::Post)]
    } else {
        Seq::<Event>::empty()
    };
    let mid = pre_part + seq![Event::Attempt(succeeded)];
    assert(ev =~= mid + post_part);
    lemma_singleton_counts(Event::Attempt(succeeded));
    if has_pre {
        lemma_singleton_counts(Event::Callback(CallbackKind::Pre));
    }
    if has_post {
        lemma_singleton_counts(Event::Callback(CallbackKind::Post));
    }
    crate::event::lemma_attempts_in_concat(pre_part, seq![Event::Attempt(succeeded)]);
    crate::event::lemma_attempts_in_concat(mid, post_part);
    lemma_callbacks_in_concat(pre_part, seq![Event::Attempt(succeeded)], CallbackKind::Pre);
    lemma_callbacks_in_concat(mid, post_part, CallbackKind::Pre);
    lemma_callbacks_in_concat(pre_part, seq![Event::Attempt(succeeded)], CallbackKind::Post);
    lemma_callbacks_in_concat(mid, post_part, CallbackKind::Post);
}

} // verus!
