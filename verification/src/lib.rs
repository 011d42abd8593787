//! Composable resilience wrappers around a fallible operation: callback
//! dispatch on success or failure, bounded retry with a fixed inter-attempt
//! delay, deadline enforcement with best-effort cancellation, and pre/post
//! execution hooks.
//!
//! A wrapper drives an operation through a [`Runtime`](runtime::Runtime): the
//! environment that runs the operation, resolves and runs the registered
//! callbacks, and sleeps.  Every step the wrapper takes is recorded in the
//! runtime's event history, and each wrapper's contract states exactly which
//! events one invocation appends and which outcome it returns.

pub mod deadline;
pub mod dispatch;
pub mod event;
pub mod hook;
pub mod recorder;
pub mod retry;
pub mod runtime;
pub mod text;

pub use deadline::{timeout, RaceOutcome};
pub use dispatch::{dispatch_choice, on_ok, on_result};
pub use event::{CallbackKind, Event};
pub use hook::hook;
pub use recorder::Recorder;
pub use retry::{retry, retry_decision, RetryDecision};
pub use runtime::Runtime;
pub use text::{channel_message, decimal_string, timeout_message};
