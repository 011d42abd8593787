//! The deadline controller: the operation runs on its own unit of execution
//! while the caller waits at most the configured duration.  The race itself
//! happens on that unit's side of the handoff; this module decides, from how
//! the race ended, which outcome the caller receives.

use vstd::prelude::*;

use crate::text::{channel_message, spec_channel_message, spec_timeout_message, timeout_message};

verus! {

/// How the race between the operation's unit of execution and the deadline
/// ended, as observed at the caller's end of the handoff.
pub enum RaceOutcome<T, E> {
    /// The operation finished first, with this outcome.
    Completed(Result<T, E>),
    /// The deadline elapsed first.  The operation's unit of execution is
    /// abandoned, not stopped: its side effects may still happen.
    DeadlineElapsed,
    /// The handoff broke down before any outcome arrived; the payload is the
    /// backend's description of the breakdown.
    ChannelBroken(String),
}

/// The outcome the caller receives from a deadline-bounded run that ended as
/// `race` says.  An outcome the operation delivered in time is returned
/// verbatim; an elapsed deadline becomes a failure carrying the timeout
/// message for `duration_ms`; a broken handoff becomes a failure carrying the
/// communication-failure message.  `make_error` turns a message into the
/// operation's own error type.
///
/// A zero `duration_ms` gives no ordering guarantee: whether the race ends in
/// `Completed` or `DeadlineElapsed` is the backend's affair, and this
/// function only reports what happened.
pub fn timeout<T, E, F: Fn(String) -> E>(
    race: RaceOutcome<T, E>,
    duration_ms: u64,
    make_error: F,
) -> (r: Result<T, E>)
    requires
        forall|s: String| call_requires(make_error, (s,)),
    ensures
        (race matches RaceOutcome::Completed(outcome) ==> r == outcome),
        (race is DeadlineElapsed ==> r is Err && exists|s: String|
            s@ == spec_timeout_message(duration_ms as nat) && #[trigger] call_ensures(
                make_error,
                (s,),
                r->Err_0,
            )),
        (race matches RaceOutcome::ChannelBroken(detail) ==> r is Err && exists|s: String|
            s@ == spec_channel_message(detail@) && #[trigger] call_ensures(
                make_error,
                (s,),
                r->Err_0,
            )),
{
    match race {
        RaceOutcome::Completed(outcome) => outcome,
        RaceOutcome::DeadlineElapsed => {
            let msg = timeout_message(duration_ms);
            let ghost witness = msg;
            let e = make_error(msg);
            let result = Err::<T, E>(e);
            proof {
                assert(result->Err_0 == e);
                assert(exists|s: String|
                    s@ == spec_timeout_message(duration_ms as nat) && #[trigger] call_ensures(
                        make_error,
                        (s,),
                        result->Err_0,
                    )) by {
                    assert(witness@ == spec_timeout_message(duration_ms as nat));
                    assert(call_ensures(make_error, (witness,), result->Err_0));
                }
            }
            result
        },
        RaceOutcome::ChannelBroken(detail) => {
            let msg = channel_message(detail.as_str());
            let ghost witness = msg;
            let e = make_error(msg);
            let result = Err::<T, E>(e);
            proof {
                assert(result->Err_0 == e);
                assert(exists|s: String|
                    s@ == spec_channel_message(detail@) && #[trigger] call_ensures(
                        make_error,
                        (s,),
                        result->Err_0,
                    )) by {
                    assert(witness@ == spec_channel_message(detail@));
                    assert(call_ensures(make_error, (witness,), result->Err_0));
                }
            }
            result
        },
    }
}

} // verus!
