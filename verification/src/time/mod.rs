pub mod sleep;

pub use sleep::{sleep, sleep_from, sleep_until, Sleep, SleepInner, SleepPoll};
