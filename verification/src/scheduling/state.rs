use vstd::prelude::*;

verus! {

/// Where a task stands in its wake-up life cycle.
///
/// A task is `Queued` exactly while one entry for it waits in the ready
/// queue; `Running` remembers whether a wake-up arrived during the poll.
#[derive(Debug, Clone, Copy, PartialEq, Eq, Structural)]
pub enum ScheduleState {
    Idle,
    Queued,
    Running { notified: bool },
    Complete,
}

/// What the owner of a schedule must do after a transition.
#[derive(Debug, Clone, Copy, PartialEq, Eq, Structural)]
pub enum ScheduleAction {
    Nothing,
    Enqueue,
    Complete,
}

/// The outcome of one poll of a future.
#[derive(Debug, Clone, Copy, PartialEq, Eq, Structural)]
pub enum Readiness {
    Pending,
    Ready,
}

/// The wake-up transition: an idle task gets queued, a running task gets
/// marked as notified, every other state is left alone.
pub open spec fn wake_step(s: ScheduleState) -> (ScheduleState, ScheduleAction) {
    match s {
        ScheduleState::Idle => (ScheduleState::Queued, ScheduleAction::Enqueue),
        ScheduleState::Running { notified: false } => (
            ScheduleState::Running { notified: true },
            ScheduleAction::Nothing,
        ),
        _ => (s, ScheduleAction::Nothing),
    }
}

/// The end-of-poll transition of a running task.
pub open spec fn finish_step(s: ScheduleState, result: Readiness) -> (ScheduleState, ScheduleAction)
    recommends
        s is Running,
{
    match result {
        Readiness::Ready => (ScheduleState::Complete, ScheduleAction::Complete),
        Readiness::Pending => match s {
            ScheduleState::Running { notified: true } => (
                ScheduleState::Queued,
                ScheduleAction::Enqueue,
            ),
            _ => (ScheduleState::Idle, ScheduleAction::Nothing),
        },
    }
}

impl ScheduleState {
    /// Records a wake-up and says whether the task must be put on the ready queue.
    pub fn wake(&mut self) -> (action: ScheduleAction)
        ensures
            (*final(self), action) == wake_step(*old(self)),
    {
        match *self {
            ScheduleState::Idle => {
                *self = ScheduleState::Queued;
                ScheduleAction::Enqueue
            },
            ScheduleState::Running { notified: false } => {
                *self = ScheduleState::Running { notified: true };
                ScheduleAction::Nothing
            },
            _ => ScheduleAction::Nothing,
        }
    }

    /// Marks a queued task as being polled.
    pub fn begin_poll(&mut self)
        requires
            *old(self) == ScheduleState::Queued,
        ensures
            *final(self) == (ScheduleState::Running { notified: false }),
    {
        *self = ScheduleState::Running { notified: false };
    }

    /// Records the outcome of a poll and says what the owner must do next.
    pub fn finish_poll(&mut self, result: Readiness) -> (action: ScheduleAction)
        requires
            *old(self) is Running,
        ensures
            (*final(self), action) == finish_step(*old(self), result),
    {
        match result {
            Readiness::Ready => {
                *self = ScheduleState::Complete;
                ScheduleAction::Complete
            },
            Readiness::Pending => {
                if let ScheduleState::Running { notified: true } = *self {
                    *self = ScheduleState::Queued;
                    ScheduleAction::Enqueue
                } else {
                    *self = ScheduleState::Idle;
                    ScheduleAction::Nothing
                }
            },
        }
    }
}

/// Waking twice is the same as waking once: the second wake-up asks for nothing.
pub proof fn lemma_wake_idempotent(s: ScheduleState)
    ensures
        wake_step(wake_step(s).0) == (wake_step(s).0, ScheduleAction::Nothing),
{
}

/// A task is asked onto the ready queue only when it moves into `Queued`
/// from a state that is not `Queued`: so it never has two entries waiting.
pub proof fn lemma_enqueue_only_on_entering_queue(s: ScheduleState, result: Readiness)
    ensures
        (wake_step(s).1 == ScheduleAction::Enqueue) <==> (s != ScheduleState::Queued
            && wake_step(s).0 == ScheduleState::Queued),
        s is Running ==> ((finish_step(s, result).1 == ScheduleAction::Enqueue) <==> (
        finish_step(s, result).0 == ScheduleState::Queued)),
{
}

/// A wake-up that arrives while the task is being polled is never lost:
/// if the poll ends pending, the task is queued again.
pub proof fn lemma_wake_during_poll_requeues(notified: bool)
    ensures
        finish_step(wake_step(ScheduleState::Running { notified }).0, Readiness::Pending) == (
        ScheduleState::Queued, ScheduleAction::Enqueue),
{
}

/// A poll that ends pending without any wake-up leaves the task idle and off
/// the ready queue: it is not polled again until something wakes it.
pub proof fn lemma_unwoken_pending_task_goes_idle()
    ensures
        finish_step(ScheduleState::Running { notified: false }, Readiness::Pending) == (
        ScheduleState::Idle, ScheduleAction::Nothing),
{
}

/// A completed task stays complete and is never queued again, whatever wakes it.
pub proof fn lemma_complete_is_final()
    ensures
        wake_step(ScheduleState::Complete) == (ScheduleState::Complete, ScheduleAction::Nothing),
{
}

} // verus!
