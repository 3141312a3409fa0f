use asyncr::{Executor, Id, Readiness, ReadyQueue, TaskPollOutcome, TaskSchedule};

#[test]
fn new_schedule_is_initially_idle() {
    let mut ready_rx = ReadyQueue::new();
    let task_id = Id::new(1);

    let _schedule = TaskSchedule::new(task_id);

    assert_eq!(ready_rx.try_recv(), None);
}

#[test]
fn request_schedule_enqueues_idle_task_once() {
    let mut ready = ReadyQueue::new();
    let task_id = Id::new(1);

    let mut schedule = TaskSchedule::new(task_id);

    schedule.request_schedule(&mut ready);

    assert_eq!(ready.try_recv(), Some(task_id));

    schedule.request_schedule(&mut ready);
    schedule.request_schedule(&mut ready);
    schedule.request_schedule(&mut ready);

    assert_eq!(ready.try_recv(), None);
}

#[test]
fn wake_requeues_pending_idle_task() {
    let mut ready = ReadyQueue::new();
    let task_id = Id::new(1);

    let mut schedule = TaskSchedule::new(task_id);

    schedule.request_schedule(&mut ready);

    assert_eq!(ready.try_recv(), Some(task_id));

    schedule.begin_poll();
    let outcome = schedule.finish_poll(Readiness::Pending, &mut ready);

    assert_eq!(outcome, TaskPollOutcome::Pending);
    assert_eq!(ready.try_recv(), None);

    schedule.request_schedule(&mut ready);

    assert_eq!(ready.try_recv(), Some(task_id));
}

#[test]
fn wake_during_poll_requeues_pending_task_once() {
    let mut ready = ReadyQueue::new();
    let task_id = Id::new(1);

    let mut schedule = TaskSchedule::new(task_id);

    schedule.request_schedule(&mut ready);

    assert_eq!(ready.try_recv(), Some(task_id));

    schedule.begin_poll();

    schedule.request_schedule(&mut ready);
    schedule.request_schedule(&mut ready);
    schedule.request_schedule(&mut ready);

    assert_eq!(ready.try_recv(), None);

    let outcome = schedule.finish_poll(Readiness::Pending, &mut ready);
    assert_eq!(outcome, TaskPollOutcome::Pending);
    assert_eq!(ready.try_recv(), Some(task_id));
    assert_eq!(ready.try_recv(), None);
}

#[test]
fn completed_task_is_not_requeued() {
    let mut ready = ReadyQueue::new();
    let task_id = Id::new(1);

    let mut schedule = TaskSchedule::new(task_id);

    schedule.request_schedule(&mut ready);

    assert_eq!(ready.try_recv(), Some(task_id));

    schedule.begin_poll();

    schedule.request_schedule(&mut ready);

    let outcome = schedule.finish_poll(Readiness::Ready, &mut ready);

    assert_eq!(outcome, TaskPollOutcome::Complete);
    assert_eq!(ready.try_recv(), None);

    schedule.request_schedule(&mut ready);
    assert_eq!(ready.try_recv(), None);
}

#[test]
fn wake_after_ready_queue_is_dropped_is_harmless() {
    let mut executor = Executor::new();
    let task_id = executor.submit().unwrap();

    executor.shutdown();

    executor.wake(task_id);
    assert_eq!(executor.next_turn(), None);
}

#[test]
fn ready_queue_is_first_in_first_out() {
    let mut ready = ReadyQueue::new();
    ready.send(Id::new(3));
    ready.send(Id::new(1));
    ready.send(Id::new(2));

    assert_eq!(ready.len(), 3);
    assert_eq!(ready.try_recv(), Some(Id::new(3)));
    assert_eq!(ready.try_recv(), Some(Id::new(1)));
    assert_eq!(ready.try_recv(), Some(Id::new(2)));
    assert_eq!(ready.try_recv(), None);

    ready.send(Id::new(4));
    ready.clear();
    assert_eq!(ready.len(), 0);
}

#[test]
fn task_identities_keep_their_value() {
    assert_eq!(Id::new(42).value(), 42);
    assert_eq!(Id::root().value(), 0);
}
