pub mod state;

use std::collections::VecDeque;
use vstd::prelude::*;

use crate::task::Id;
use state::{finish_step, wake_step, Readiness, ScheduleAction, ScheduleState};

verus! {

/// The FIFO queue of tasks that asked to be polled.
pub struct ReadyQueue {
    entries: VecDeque<Id>,
}

impl View for ReadyQueue {
    type V = Seq<Id>;

    closed spec fn view(&self) -> Seq<Id> {
        self.entries@
    }
}

impl ReadyQueue {
    /// An empty queue.
    pub fn new() -> (q: ReadyQueue)
        ensures
            q@ == Seq::<Id>::empty(),
    {
        ReadyQueue { entries: VecDeque::new() }
    }

    /// Puts `id` at the back of the queue.
    pub fn send(&mut self, id: Id)
        ensures
            final(self)@ == old(self)@.push(id),
    {
        self.entries.push_back(id);
    }

    /// Takes the entry at the front of the queue, if there is one.
    pub fn try_recv(&mut self) -> (r: Option<Id>)
        ensures
            old(self)@.len() == 0 ==> r is None && final(self)@ == old(self)@,
            old(self)@.len() > 0 ==> r == Some(old(self)@[0]) && final(self)@ == old(
                self,
            )@.drop_first(),
    {
        self.entries.pop_front()
    }

    /// The number of waiting entries.
    pub fn len(&self) -> (n: usize)
        ensures
            n == self@.len(),
    {
        self.entries.len()
    }

    /// Drops every waiting entry.
    pub fn clear(&mut self)
        ensures
            final(self)@ == Seq::<Id>::empty(),
    {
        self.entries.clear();
    }
}

/// What the executor learns when a poll of a task ends.
#[derive(Debug, Clone, Copy, PartialEq, Eq, Structural)]
pub enum TaskPollOutcome {
    Pending,
    Complete,
}

/// The ready queue after a transition that produced `action` for task `id`.
pub open spec fn after_action(ready: Seq<Id>, id: Id, action: ScheduleAction) -> Seq<Id> {
    if action == ScheduleAction::Enqueue {
        ready.push(id)
    } else {
        ready
    }
}

/// The scheduling record of one task: its identity and wake-up state.
#[derive(Debug, Clone, Copy, PartialEq, Eq, Structural)]
pub struct TaskSchedule {
    pub id: Id,
    pub state: ScheduleState,
}

impl TaskSchedule {
    /// A fresh schedule, idle and not queued.
    pub fn new(id: Id) -> (s: TaskSchedule)
        ensures
            s.id == id,
            s.state == ScheduleState::Idle,
    {
        TaskSchedule { id, state: ScheduleState::Idle }
    }

    /// Handles a wake-up: the task goes onto `ready` exactly when it was idle.
    pub fn request_schedule(&mut self, ready: &mut ReadyQueue)
        ensures
            final(self).id == old(self).id,
            final(self).state == wake_step(old(self).state).0,
            final(ready)@ == after_action(old(ready)@, old(self).id, wake_step(old(self).state).1),
    {
        let action = self.state.wake();
        if let ScheduleAction::Enqueue = action {
            ready.send(self.id);
        }
    }

    /// Marks the task as being polled; it must have been taken off the ready queue.
    pub fn begin_poll(&mut self)
        requires
            old(self).state == ScheduleState::Queued,
        ensures
            final(self).id == old(self).id,
            final(self).state == (ScheduleState::Running { notified: false }),
    {
        self.state.begin_poll();
    }

    /// Records the outcome of a poll; a task woken during the poll goes back
    /// onto `ready`.
    pub fn finish_poll(&mut self, result: Readiness, ready: &mut ReadyQueue) -> (outcome:
        TaskPollOutcome)
        requires
            old(self).state is Running,
        ensures
            final(self).id == old(self).id,
            final(self).state == finish_step(old(self).state, result).0,
            final(ready)@ == after_action(
                old(ready)@,
                old(self).id,
                finish_step(old(self).state, result).1,
            ),
            outcome == (if result == Readiness::Ready {
                TaskPollOutcome::Complete
            } else {
                TaskPollOutcome::Pending
            }),
    {
        let action = self.state.finish_poll(result);
        match action {
            ScheduleAction::Nothing => TaskPollOutcome::Pending,
            ScheduleAction::Enqueue => {
                ready.send(self.id);
                TaskPollOutcome::Pending
            },
            ScheduleAction::Complete => TaskPollOutcome::Complete,
        }
    }
}

} // verus!
