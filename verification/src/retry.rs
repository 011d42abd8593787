//! The retry controller: run the operation, and after a failure run it again,
//! up to `times` additional attempts, sleeping a fixed delay between attempts
//! and never after the last one.  The last outcome observed is returned,
//! success or failure; nothing is synthesized.

use vstd::prelude::*;

use crate::event::{
    attempts_in, lemma_attempts_in_concat, lemma_attempts_in_push, lemma_singleton_counts,
    lemma_sleep_total_concat, lemma_sleeps_in_concat, sleep_total, sleeps_in, Event,
};
use crate::runtime::Runtime;

verus! {

/// The events one retry run appends to the history when the operation's
/// outcomes follow `o`, the first attempt has index `base`, and `remaining`
/// additional attempts are allowed: each failed attempt that still has a
/// retry left is followed by a sleep (none when the delay is zero), and the
/// run ends on the first success or when the attempts are exhausted.
pub open spec fn retry_events<T, E>(
    o: spec_fn(nat) -> Result<T, E>,
    base: nat,
    remaining: nat,
    delay_ms: u64,
) -> Seq<Event>
    decreases remaining,
{
    if o(base) is Ok || remaining == 0 {
        seq![Event::Attempt(o(base) is Ok)]
    } else if delay_ms == 0 {
        seq![Event::Attempt(false)] + retry_events(o, base + 1, (remaining - 1) as nat, delay_ms)
    } else {
        seq![Event::Attempt(false), Event::Sleep(delay_ms)] + retry_events(
            o,
            base + 1,
            (remaining - 1) as nat,
            delay_ms,
        )
    }
}

/// The outcome one retry run returns: the first success, or the outcome of
/// the last attempt once the `remaining` additional attempts are exhausted.
pub open spec fn retry_result<T, E>(
    o: spec_fn(nat) -> Result<T, E>,
    base: nat,
    remaining: nat,
) -> Result<T, E>
    decreases remaining,
{
    if o(base) is Ok || remaining == 0 {
        o(base)
    } else {
        retry_result(o, base + 1, (remaining - 1) as nat)
    }
}

/// What a retry driver does after one attempt: stop, or sleep for the given
/// delay and try again.
#[derive(Clone, Copy, PartialEq, Eq, Structural, Debug)]
pub enum RetryDecision {
    /// Return the outcome just observed.
    Finish,
    /// Sleep for the given number of milliseconds (zero: not at all), then
    /// run the operation again.
    RetryAfter(u64),
}

/// The decision after one attempt: stop on a success or once no additional
/// attempts remain, retry after the configured delay otherwise.
pub open spec fn spec_retry_decision(
    succeeded: bool,
    remaining: u64,
    delay_ms: u64,
) -> RetryDecision {
    if succeeded || remaining == 0 {
        RetryDecision::Finish
    } else {
        RetryDecision::RetryAfter(delay_ms)
    }
}

/// Decide what to do after an attempt with the given outcome when `remaining`
/// additional attempts are allowed.  Shared by [`retry`] here and by any
/// driver that sleeps on its own unit of execution.
pub fn retry_decision(succeeded: bool, remaining: u64, delay_ms: u64) -> (d: RetryDecision)
    ensures
        d == spec_retry_decision(succeeded, remaining, delay_ms),
{
    if succeeded || remaining == 0 {
        RetryDecision::Finish
    } else {
        RetryDecision::RetryAfter(delay_ms)
    }
}

/// Run the operation up to `times + 1` times, sleeping `delay_ms`
/// milliseconds after each failed attempt that still has a retry left, and
/// return the last outcome observed.
pub fn retry<T, E, R: Runtime<T, E>>(rt: &mut R, times: u64, delay_ms: u64) -> (r: Result<T, E>)
    requires
        old(rt).inv(),
    ensures
        final(rt).inv(),
        final(rt).outcomes() == old(rt).outcomes(),
        r == retry_result(old(rt).outcomes(), attempts_in(old(rt).history()), times as nat),
        final(rt).history() == old(rt).history() + retry_events(
            old(rt).outcomes(),
            attempts_in(old(rt).history()),
            times as nat,
            delay_ms,
        ),
{
    let ghost o = old(rt).outcomes();
    let ghost h0 = old(rt).history();
    let ghost b0 = attempts_in(h0);
    let mut remaining = times;
    loop
        invariant
            o == old(rt).outcomes(),
            h0 == old(rt).history(),
            b0 == attempts_in(h0),
            rt.inv(),
            rt.outcomes() == o,
            remaining <= times,
            attempts_in(rt.history()) == b0 + times - remaining,
            retry_result(o, b0, times as nat) == retry_result(
                o,
                (b0 + times - remaining) as nat,
                remaining as nat,
            ),
            h0 + retry_events(o, b0, times as nat, delay_ms) == rt.history() + retry_events(
                o,
                (b0 + times - remaining) as nat,
                remaining as nat,
                delay_ms,
            ),
        decreases remaining,
    {
        let ghost b = (b0 + times - remaining) as nat;
        let ghost h_pre = rt.history();
        let r = rt.run_operation();
        let succeeded = r.is_ok();
        proof {
            lemma_attempts_in_push(h_pre, Event::Attempt(succeeded));
        }
        match retry_decision(succeeded, remaining, delay_ms) {
            RetryDecision::Finish => {
                proof {
                    assert(retry_events(o, b, remaining as nat, delay_ms) =~= seq![
                        Event::Attempt(succeeded),
                    ]);
                    assert(rt.history() =~= h_pre + seq![Event::Attempt(succeeded)]);
                }
                return r;
            },
            RetryDecision::RetryAfter(d) => {
                if d > 0 {
                    rt.sleep(d);
                    proof {
                        lemma_attempts_in_push(
                            h_pre.push(Event::Attempt(false)),
                            Event::Sleep(d),
                        );
                        assert(rt.history() =~= h_pre + seq![
                            Event::Attempt(false),
                            Event::Sleep(d),
                        ]);
                        assert(h_pre + (seq![Event::Attempt(false), Event::Sleep(d)]
                            + retry_events(o, b + 1, (remaining - 1) as nat, delay_ms)) =~= (h_pre
                            + seq![Event::Attempt(false), Event::Sleep(d)]) + retry_events(
                            o,
                            b + 1,
                            (remaining - 1) as nat,
                            delay_ms,
                        ));
                    }
                } else {
                    proof {
                        assert(rt.history() =~= h_pre + seq![Event::Attempt(false)]);
                        assert(h_pre + (seq![Event::Attempt(false)] + retry_events(
                            o,
                            b + 1,
                            (remaining - 1) as nat,
                            delay_ms,
                        )) =~= (h_pre + seq![Event::Attempt(false)]) + retry_events(
                            o,
                            b + 1,
                            (remaining - 1) as nat,
                            delay_ms,
                        ));
                    }
                }
                remaining = remaining - 1;
            },
        }
    }
}

/// Retry law — eventual success: when the operation fails on the `k - 1`
/// attempts before attempt `base + k - 1` and succeeds there, and `k` is
/// within the allowed `times + 1` attempts, a retry run from attempt `base`
/// performs exactly `k` attempts and returns that success.
pub proof fn lemma_retry_eventual_success<T, E>(
    o: spec_fn(nat) -> Result<T, E>,
    base: nat,
    times: nat,
    delay_ms: u64,
    k: nat,
)
    requires
        1 <= k <= times + 1,
        forall|i: nat| i < k - 1 ==> (#[trigger] o(base + i)) is Err,
        o((base + k - 1) as nat) is Ok,
    ensures
        retry_result(o, base, times) == o((base + k - 1) as nat),
        retry_result(o, base, times) is Ok,
        attempts_in(retry_events(o, base, times, delay_ms)) == k,
    decreases k,
{
    if k == 1 {
        assert(o(base) is Ok);
        lemma_singleton_counts(Event::Attempt(true));
    } else {
        assert(o(base + 0) is Err);
        assert forall|i: nat| i < k - 2 implies (#[trigger] o((base + 1) + i)) is Err by {
            assert(o(base + (i + 1)) is Err);
            assert(base + (i + 1) == (base + 1) + i);
        }
        assert((base + 1) + (k - 1) - 1 == base + k - 1);
        lemma_retry_eventual_success(o, base + 1, (times - 1) as nat, delay_ms, (k - 1) as nat);
        let head = if delay_ms == 0 {
            seq![Event::Attempt(false)]
        } else {
            seq![Event::Attempt(false), Event::Sleep(delay_ms)]
        };
        let tail = retry_events(o, base + 1, (times - 1) as nat, delay_ms);
        assert(retry_events(o, base, times, delay_ms) == head + tail);
        lemma_attempts_in_concat(head, tail);
        if delay_ms == 0 {
            lemma_singleton_counts(Event::Attempt(false));
        } else {
            assert(head =~= seq![Event::Attempt(false)] + seq![Event::Sleep(delay_ms)]);
            lemma_attempts_in_concat(seq![Event::Attempt(false)], seq![Event::Sleep(delay_ms)]);
            lemma_singleton_counts(Event::Attempt(false));
            lemma_singleton_counts(Event::Sleep(delay_ms));
        }
    }
}

/// Retry law — exhaustion: when the operation fails on every one of the
/// `times + 1` allowed attempts, a retry run from attempt `base` performs
/// exactly `times + 1` attempts and returns the last failure; no outcome is
/// synthesized.
pub proof fn lemma_retry_exhaustion<T, E>(
    o: spec_fn(nat) -> Result<T, E>,
    base: nat,
    times: nat,
    delay_ms: u64,
)
    requires
        forall|i: nat| i <= times ==> (#[trigger] o(base + i)) is Err,
    ensures
        retry_result(o, base, times) == o(base + times),
        retry_result(o, base, times) is Err,
        attempts_in(retry_events(o, base, times, delay_ms)) == times + 1,
    decreases times,
{
    assert(o(base + 0) is Err);
    if times == 0 {
        lemma_singleton_counts(Event::Attempt(false));
    } else {
        assert forall|i: nat| i <= times - 1 implies (#[trigger] o((base + 1) + i)) is Err by {
            assert(o(base + (i + 1)) is Err);
            assert(base + (i + 1) == (base + 1) + i);
        }
        lemma_retry_exhaustion(o, base + 1, (times - 1) as nat, delay_ms);
        assert((base + 1) + (times - 1) == base + times);
        let head = if delay_ms == 0 {
            seq![Event::Attempt(false)]
        } else {
            seq![Event::Attempt(false), Event::Sleep(delay_ms)]
        };
        let tail = retry_events(o, base + 1, (times - 1) as nat, delay_ms);
        assert(retry_events(o, base, times, delay_ms) == head + tail);
        lemma_attempts_in_concat(head, tail);
        if delay_ms == 0 {
            lemma_singleton_counts(Event::Attempt(false));
        } else {
            assert(head =~= seq![Event::Attempt(false)] + seq![Event::Sleep(delay_ms)]);
            lemma_attempts_in_concat(seq![Event::Attempt(false)], seq![Event::Sleep(delay_ms)]);
            lemma_singleton_counts(Event::Attempt(false));
            lemma_singleton_counts(Event::Sleep(delay_ms));
        }
    }
}

/// Retry law — no trailing delay: a retry run ends on an attempt, sleeps
/// exactly once per attempt except the last (when the delay is positive), and
/// sleeps `delay_ms` milliseconds in total per sleep: with `a` attempts the
/// total time slept is exactly `(a - 1) * delay_ms`, which for an exhausted
/// run of `times + 1` attempts is `times * delay_ms`, strictly less than
/// `(times + 1) * delay_ms` whenever the delay is positive.
pub proof fn lemma_retry_no_trailing_delay<T, E>(
    o: spec_fn(nat) -> Result<T, E>,
    base: nat,
    times: nat,
    delay_ms: u64,
)
    ensures
        retry_events(o, base, times, delay_ms).last() matches Event::Attempt(_),
        1 <= attempts_in(retry_events(o, base, times, delay_ms)) <= times + 1,
        delay_ms > 0 ==> sleeps_in(retry_events(o, base, times, delay_ms)) == attempts_in(
            retry_events(o, base, times, delay_ms),
        ) - 1,
        sleep_total(retry_events(o, base, times, delay_ms)) == (attempts_in(
            retry_events(o, base, times, delay_ms),
        ) - 1) * delay_ms,
        delay_ms > 0 ==> sleep_total(retry_events(o, base, times, delay_ms)) < (times + 1)
            * delay_ms,
    decreases times,
{
    let ev = retry_events(o, base, times, delay_ms);
    let a = attempts_in(ev);
    if o(base) is Ok || times == 0 {
        lemma_singleton_counts(Event::Attempt(o(base) is Ok));
        assert((1nat - 1) * delay_ms == 0) by (nonlinear_arith);
        assert(delay_ms > 0 ==> 0 < (times + 1) * delay_ms) by (nonlinear_arith);
    } else {
        lemma_retry_no_trailing_delay(o, base + 1, (times - 1) as nat, delay_ms);
        let head = if delay_ms == 0 {
            seq![Event::Attempt(false)]
        } else {
            seq![Event::Attempt(false), Event::Sleep(delay_ms)]
        };
        let tail = retry_events(o, base + 1, (times - 1) as nat, delay_ms);
        assert(ev == head + tail);
        lemma_attempts_in_concat(head, tail);
        lemma_sleeps_in_concat(head, tail);
        lemma_sleep_total_concat(head, tail);
        lemma_singleton_counts(Event::Attempt(false));
        if delay_ms > 0 {
            assert(head =~= seq![Event::Attempt(false)] + seq![Event::Sleep(delay_ms)]);
            lemma_attempts_in_concat(seq![Event::Attempt(false)], seq![Event::Sleep(delay_ms)]);
            lemma_sleeps_in_concat(seq![Event::Attempt(false)], seq![Event::Sleep(delay_ms)]);
            lemma_sleep_total_concat(seq![Event::Attempt(false)], seq![Event::Sleep(delay_ms)]);
            lemma_singleton_counts(Event::Sleep(delay_ms));
        }
        assert(tail.len() > 0);
        assert(ev.last() == tail.last());
        let at = attempts_in(tail);
        assert(a == at + 1);
        assert(sleep_total(tail) == (at - 1) * delay_ms);
        if delay_ms > 0 {
            assert(sleep_total(head) == delay_ms);
            assert(((at - 1) + 1) * delay_ms == (at - 1) * delay_ms + delay_ms)
                by (nonlinear_arith);
            assert(at >= 1);
            assert((at - 1) + 1 == at);
            assert(sleep_total(ev) == at * delay_ms);
        } else {
            assert((at - 1) * 0 == 0) by (nonlinear_arith);
            assert((a - 1) * 0 == 0) by (nonlinear_arith);
        }
        assert(sleep_total(ev) == (a - 1) * delay_ms);
        if delay_ms > 0 {
            assert(at <= times);
            assert((at + 1) - 1 <= times);
            vstd::arithmetic::mul::lemma_mul_inequality((a - 1) as int, times as int, delay_ms as int);
            vstd::arithmetic::mul::lemma_mul_is_distributive_add_other_way(
                delay_ms as int,
                times as int,
                1int,
            );
        }
    }
}

} // verus!
