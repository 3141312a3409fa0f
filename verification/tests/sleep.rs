use std::time::{Duration, Instant};

use asyncr::{sleep_until, SleepInner, SleepPoll};

/// Wakers are identified by numbers here: `fire` hands back the waker the
/// background timer wakes.
type Inner = SleepInner<u32>;

#[test]
fn elapsed_deadline_is_ready_on_first_poll() {
    let sleep = sleep_until(Instant::now() - Duration::from_secs(60 * 60));
    let mut inner = Inner::new();

    assert!(sleep.is_elapsed());
    assert_eq!(inner.poll(sleep.is_elapsed(), 1, false), SleepPoll::Ready);
    assert!(inner.waker.is_none());
}

#[test]
fn pending_sleep_wakes_registered_waker_at_deadline() {
    let deadline = Instant::now() + Duration::from_millis(10);
    let sleep = sleep_until(deadline);
    let mut inner = Inner::new();

    assert_eq!(sleep.deadline(), deadline);
    assert_eq!(inner.poll(false, 1, false), SleepPoll::Pending { start_timer: true });

    assert_eq!(inner.fire(), Some(1));

    assert_eq!(inner.poll(false, 1, true), SleepPoll::Ready);
}

#[test]
fn deadline_wakes_most_recent_waker() {
    let mut inner = Inner::new();
    let waker_a = 1;
    let waker_b = 2;

    assert_eq!(inner.poll(false, waker_a, false), SleepPoll::Pending { start_timer: true });
    assert_eq!(inner.poll(false, waker_b, false), SleepPoll::Pending { start_timer: false });

    let woken = inner.fire();

    assert_ne!(woken, Some(waker_a));
    assert_eq!(woken, Some(waker_b));
}

#[test]
fn repeated_polls_produce_one_deadline_wakeup() {
    let mut inner = Inner::new();

    assert_eq!(inner.poll(false, 1, false), SleepPoll::Pending { start_timer: true });
    assert_eq!(inner.poll(false, 1, true), SleepPoll::Pending { start_timer: false });
    assert_eq!(inner.poll(false, 1, true), SleepPoll::Pending { start_timer: false });

    assert_eq!(inner.fire(), Some(1));
    assert_eq!(inner.fire(), None);
}

#[test]
fn dropping_sleep_does_not_cancel_helper() {
    let sleep = sleep_until(Instant::now() + Duration::from_millis(10));
    let mut inner = Inner::new();

    assert_eq!(inner.poll(false, 1, false), SleepPoll::Pending { start_timer: true });

    drop(sleep);

    assert_eq!(inner.fire(), Some(1));
}

#[test]
fn far_deadline_is_not_elapsed() {
    let sleep = sleep_until(Instant::now() + Duration::from_secs(60 * 60));

    assert!(!sleep.is_elapsed());
}

#[test]
fn same_waker_is_kept_and_elapsed_timer_stays_ready() {
    let mut inner = Inner::new();

    inner.poll(false, 4, false);
    inner.poll(false, 5, true);
    assert_eq!(inner.waker, Some(4));

    inner.fire();
    assert!(inner.elapsed);
    assert_eq!(inner.poll(false, 6, false), SleepPoll::Ready);
}

#[test]
fn sleep_from_adds_the_duration() {
    let now = Instant::now();

    let sleep = asyncr::sleep_from(now, Duration::from_millis(10)).unwrap();

    assert_eq!(sleep.deadline(), now + Duration::from_millis(10));
}

#[test]
fn sleep_past_the_representable_range_is_refused() {
    let now = Instant::now();

    assert!(asyncr::sleep_from(now, Duration::MAX).is_none());
    assert!(asyncr::sleep(Duration::MAX).is_none());
}

#[test]
fn sleep_deadline_lies_ahead_of_an_earlier_reading() {
    let before = Instant::now();

    let sleep = asyncr::sleep(Duration::from_secs(60 * 60)).unwrap();

    assert!(sleep.deadline() >= before + Duration::from_secs(60 * 60));
    assert!(!sleep.is_elapsed());
}
