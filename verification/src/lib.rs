//! A small single-threaded async runtime, built around verified scheduling
//! decisions: per-task wake-up state machines, a ready queue without duplicate
//! entries, task admission and shutdown, join-result hand-off, hand-written
//! futures and timer state.

pub mod executor;
pub mod futures;
pub mod join;
pub mod scheduling;
pub mod task;
pub mod time;

pub use executor::Executor;
pub use futures::{CountDownFut, YieldOnceFut};
pub use join::{JoinError, JoinState};
pub use scheduling::state::{Readiness, ScheduleAction, ScheduleState};
pub use scheduling::{ReadyQueue, TaskPollOutcome, TaskSchedule};
pub use task::Id;
pub use time::{sleep, sleep_from, sleep_until, Sleep, SleepInner, SleepPoll};
