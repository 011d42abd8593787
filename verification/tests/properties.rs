//! Concrete checks of the stated behaviors: exact messages, exact event
//! sequences, attempt counts, and the wall-clock shape of delays and
//! deadlines.

use std::cell::Cell;
use std::time::Instant;

use decorator::{
    decimal_string, hook, on_ok, on_result, retry, retry_decision, timeout, timeout_message,
    CallbackKind, Event, RaceOutcome, Recorder, RetryDecision,
};

fn block_on<F: std::future::Future>(fut: F) -> F::Output {
    let runtime = tokio::runtime::Builder::new_current_thread()
        .enable_time()
        .build()
        .unwrap();
    runtime.block_on(fut)
}

#[test]
fn decimal_rendering_is_exact() {
    assert_eq!(decimal_string(0), "0");
    assert_eq!(decimal_string(7), "7");
    assert_eq!(decimal_string(10), "10");
    assert_eq!(decimal_string(1234567890), "1234567890");
    assert_eq!(decimal_string(u64::MAX), "18446744073709551615");
}

#[test]
fn timeout_message_is_exact() {
    assert_eq!(timeout_message(10), "Function timed out after 10ms");
    assert_eq!(timeout_message(0), "Function timed out after 0ms");
    assert_eq!(timeout_message(2500), "Function timed out after 2500ms");
}

#[test]
fn deadline_elapsed_gives_timeout_failure() {
    let result = timeout(
        RaceOutcome::<(), String>::DeadlineElapsed,
        10,
        |message| message,
    );
    assert_eq!(result, Err("Function timed out after 10ms".to_string()));
}

#[test]
fn broken_channel_gives_communication_failure() {
    let result = timeout(
        RaceOutcome::<(), String>::ChannelBroken("the sending half disconnected".to_string()),
        10,
        |message| message,
    );
    assert_eq!(
        result,
        Err("Channel error: the sending half disconnected".to_string())
    );
}

#[test]
fn completed_outcome_is_returned_verbatim() {
    let ok = timeout(
        RaceOutcome::<u64, String>::Completed(Ok(7)),
        10,
        |message| message,
    );
    assert_eq!(ok, Ok(7));
    let err = timeout(
        RaceOutcome::<u64, String>::Completed(Err("boom".to_string())),
        10,
        |message| message,
    );
    assert_eq!(err, Err("boom".to_string()));
}

#[test]
fn retry_with_zero_times_runs_exactly_once() {
    let mut failing = Recorder::new(vec![]);
    let result = retry(&mut failing, 0, 10);
    assert!(result.is_err());
    assert_eq!(failing.attempt_count(), 1);

    let mut succeeding = Recorder::new(vec![true]);
    let result = retry(&mut succeeding, 0, 10);
    assert!(result.is_ok());
    assert_eq!(succeeding.attempt_count(), 1);
}

#[test]
fn retry_sleeps_between_attempts_and_never_after_the_last() {
    let mut recorder = Recorder::new(vec![]);
    let result = retry(&mut recorder, 2, 5);
    assert!(result.is_err());
    assert_eq!(
        recorder.events(),
        &vec![
            Event::Attempt(false),
            Event::Sleep(5),
            Event::Attempt(false),
            Event::Sleep(5),
            Event::Attempt(false),
        ]
    );
}

#[test]
fn retry_with_zero_delay_never_sleeps() {
    let mut recorder = Recorder::new(vec![]);
    let result = retry(&mut recorder, 2, 0);
    assert!(result.is_err());
    assert_eq!(
        recorder.events(),
        &vec![
            Event::Attempt(false),
            Event::Attempt(false),
            Event::Attempt(false),
        ]
    );
}

#[test]
fn dispatcher_runs_the_matching_callback_exactly_once() {
    let mut recorder = Recorder::new(vec![true]);
    let _ = on_result(&mut recorder, true, true);
    assert_eq!(
        recorder.events(),
        &vec![Event::Attempt(true), Event::Callback(CallbackKind::Success)]
    );

    let mut recorder = Recorder::new(vec![false]);
    let _ = on_result(&mut recorder, true, true);
    assert_eq!(
        recorder.events(),
        &vec![Event::Attempt(false), Event::Callback(CallbackKind::Failure)]
    );

    let mut recorder = Recorder::new(vec![true]);
    let _ = on_result(&mut recorder, false, false);
    assert_eq!(recorder.events(), &vec![Event::Attempt(true)]);

    let mut recorder = Recorder::new(vec![false]);
    let _ = on_result(&mut recorder, false, false);
    assert_eq!(recorder.events(), &vec![Event::Attempt(false)]);
}

#[test]
fn dispatcher_returns_the_operations_failure_unchanged() {
    let mut recorder = Recorder::new(vec![false]);
    let result = on_ok(&mut recorder);
    assert!(result.is_err());
    assert_eq!(recorder.events(), &vec![Event::Attempt(false)]);
}

#[test]
fn hook_without_callbacks_is_a_plain_invocation() {
    let mut recorder = Recorder::new(vec![true]);
    let result = hook(&mut recorder, false, false);
    assert!(result.is_ok());
    assert_eq!(recorder.events(), &vec![Event::Attempt(true)]);
}

#[test]
fn retry_scenario_two_failures_then_success() {
    let attempt_count = Cell::new(0u32);
    let start = Instant::now();
    let result = block_on(async {
        let mut remaining: u64 = 3;
        loop {
            let outcome: Result<(), ()> = async {
                attempt_count.set(attempt_count.get() + 1);
                if attempt_count.get() < 3 {
                    Err(())
                } else {
                    Ok(())
                }
            }
            .await;
            match retry_decision(outcome.is_ok(), remaining, 10) {
                RetryDecision::Finish => break outcome,
                RetryDecision::RetryAfter(delay_ms) => {
                    if delay_ms > 0 {
                        tokio::time::sleep(std::time::Duration::from_millis(delay_ms)).await;
                    }
                    remaining -= 1;
                },
            }
        }
    });
    let elapsed = start.elapsed();
    assert!(result.is_ok());
    assert_eq!(attempt_count.get(), 3);
    assert!(elapsed >= std::time::Duration::from_millis(20));
}

#[test]
fn retry_exhaustion_has_no_trailing_delay() {
    let start = Instant::now();
    let result = block_on(async {
        let mut remaining: u64 = 2;
        loop {
            let outcome: Result<(), ()> = async { Err(()) }.await;
            match retry_decision(outcome.is_ok(), remaining, 40) {
                RetryDecision::Finish => break outcome,
                RetryDecision::RetryAfter(delay_ms) => {
                    tokio::time::sleep(std::time::Duration::from_millis(delay_ms)).await;
                    remaining -= 1;
                },
            }
        }
    });
    let elapsed = start.elapsed();
    assert!(result.is_err());
    // Two sleeps of 40ms between the three attempts; a sleep after the last
    // attempt would push the total to 120ms.
    assert!(elapsed >= std::time::Duration::from_millis(80));
    assert!(elapsed < std::time::Duration::from_millis(118));
}

#[test]
fn deadline_scenario_slow_operation_times_out() {
    let start = Instant::now();
    let race = block_on(async {
        let work = async {
            tokio::time::sleep(std::time::Duration::from_millis(300)).await;
            Ok::<(), String>(())
        };
        match tokio::time::timeout(std::time::Duration::from_millis(50), work).await {
            Ok(outcome) => RaceOutcome::Completed(outcome),
            Err(_) => RaceOutcome::DeadlineElapsed,
        }
    });
    let result = timeout(race, 50, |message| message);
    let elapsed = start.elapsed();
    assert_eq!(result, Err("Function timed out after 50ms".to_string()));
    assert!(elapsed >= std::time::Duration::from_millis(50));
    assert!(elapsed < std::time::Duration::from_millis(250));
}

#[test]
fn wrappers_compose_by_nesting() {
    // Retry around a deadline-bounded operation: the first two attempts
    // outlast their 10ms deadline and come back as timeout failures, the
    // third finishes in time.
    let attempt_count = Cell::new(0u32);
    let result = block_on(async {
        let mut remaining: u64 = 3;
        loop {
            attempt_count.set(attempt_count.get() + 1);
            let work = async {
                let sleep_ms: u64 = if attempt_count.get() < 3 { 60 } else { 1 };
                tokio::time::sleep(std::time::Duration::from_millis(sleep_ms)).await;
                Ok::<u32, String>(attempt_count.get())
            };
            let race = match tokio::time::timeout(std::time::Duration::from_millis(10), work)
                .await
            {
                Ok(outcome) => RaceOutcome::Completed(outcome),
                Err(_) => RaceOutcome::DeadlineElapsed,
            };
            let outcome = timeout(race, 10, |message| message);
            match retry_decision(outcome.is_ok(), remaining, 0) {
                RetryDecision::Finish => break outcome,
                RetryDecision::RetryAfter(_) => remaining -= 1,
            }
        }
    });
    assert_eq!(result, Ok(3));
    assert_eq!(attempt_count.get(), 3);
}

#[test]
fn deadline_fast_operation_returns_promptly() {
    let start = Instant::now();
    let race = block_on(async {
        let work = async {
            tokio::time::sleep(std::time::Duration::from_millis(10)).await;
            Ok::<(), String>(())
        };
        match tokio::time::timeout(std::time::Duration::from_millis(500), work).await {
            Ok(outcome) => RaceOutcome::Completed(outcome),
            Err(_) => RaceOutcome::DeadlineElapsed,
        }
    });
    let result = timeout(race, 500, |message| message);
    let elapsed = start.elapsed();
    assert!(result.is_ok());
    assert!(elapsed < std::time::Duration::from_millis(400));
}
