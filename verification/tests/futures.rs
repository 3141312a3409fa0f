use asyncr::{CountDownFut, Readiness, YieldOnceFut};

#[test]
fn countdown_is_pending_n_times_before_becoming_ready() {
    let mut fut = CountDownFut::new(3);

    assert_eq!(fut.poll(), Readiness::Pending);
    assert_eq!(fut.poll(), Readiness::Pending);
    assert_eq!(fut.poll(), Readiness::Pending);
    assert_eq!(fut.poll(), Readiness::Ready);
}

#[test]
fn countdown_with_one_remaining_poll_is_pending_then_ready() {
    let mut fut = CountDownFut::new(1);

    assert_eq!(fut.poll(), Readiness::Pending);
    assert_eq!(fut.poll(), Readiness::Ready);
}

#[test]
fn countdown_with_zero_remaining_polls_is_immediately_ready() {
    let mut fut = CountDownFut::new(0);

    assert_eq!(fut.poll(), Readiness::Ready);
}

#[test]
fn yield_once_is_pending_once_then_ready() {
    let mut fut = YieldOnceFut::new();

    assert_eq!(fut.poll(), Readiness::Pending);
    assert_eq!(fut.poll(), Readiness::Ready);
}

#[test]
fn ready_futures_stay_ready() {
    let mut countdown = CountDownFut::new(2);
    let mut yield_once = YieldOnceFut::new();

    for _ in 0..2 {
        assert_eq!(countdown.poll(), Readiness::Pending);
    }
    for _ in 0..5 {
        assert_eq!(countdown.poll(), Readiness::Ready);
    }

    yield_once.poll();
    for _ in 0..5 {
        assert_eq!(yield_once.poll(), Readiness::Ready);
    }
}
