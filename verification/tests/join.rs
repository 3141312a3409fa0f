use asyncr::{JoinError, JoinState};

/// A waker is identified by a number here; publishing hands back the
/// waker to wake, so a wake is counted by looking at what `complete` returns.
type State = JoinState<i32, u32>;

#[test]
fn completed_join_is_immediately_ready() {
    let mut state = State::new();

    assert_eq!(state.complete(Ok(42)), None);

    let result = state.poll(0);

    assert_eq!(result, Some(Ok(42)));
}

#[test]
fn completion_wakes_join_waiter() {
    let mut state = State::new();
    let waker = 7;

    let result = state.poll(waker);

    assert!(result.is_none());

    let woken = state.complete(Ok(42));

    assert_eq!(woken, Some(waker));
    assert_eq!(state.poll(waker), Some(Ok(42)));
}

#[test]
fn dropping_sender_cancels_join() {
    let mut state = State::new();
    let waker = 7;

    let result = state.poll(waker);

    assert!(result.is_none());

    let woken = state.complete(Err(JoinError::Cancelled));

    assert_eq!(woken, Some(waker));
    assert_eq!(state.poll(waker), Some(Err(JoinError::Cancelled)));
}

#[test]
fn latest_join_waker_is_notified() {
    let mut state = State::new();

    let waker_a = 1;
    let waker_b = 2;

    let _ = state.poll(waker_a);
    let _ = state.poll(waker_b);

    let woken = state.complete(Ok(42));

    assert_ne!(woken, Some(waker_a));
    assert_eq!(woken, Some(waker_b));

    assert_eq!(state.poll(waker_b), Some(Ok(42)));
}

#[test]
fn dropping_join_handle_removes_waiter() {
    let mut state = State::new();
    let waker = 7;

    let result = state.poll(waker);
    assert!(result.is_none());

    state.release_waiter();

    assert_eq!(state.complete(Err(JoinError::Cancelled)), None);
}

#[test]
fn join_result_is_published_once_and_taken_once() {
    let mut state = State::new();
    assert!(!state.is_complete());

    state.complete(Err(JoinError::Panic));
    assert!(state.is_complete());

    assert_eq!(state.poll(3), Some(Err(JoinError::Panic)));
    assert!(matches!(state, JoinState::Consumed));
}

#[test]
fn released_handle_after_result_keeps_result() {
    let mut state = State::new();
    state.complete(Ok(5));

    state.release_waiter();

    assert_eq!(state.poll(1), Some(Ok(5)));
}
