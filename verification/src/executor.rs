use std::collections::HashMap;
use vstd::prelude::*;

use crate::scheduling::state::{finish_step, wake_step, Readiness, ScheduleAction, ScheduleState};
use crate::scheduling::{after_action, ReadyQueue, TaskPollOutcome, TaskSchedule};
use crate::task::Id;

verus! {

broadcast use vstd::std_specs::hash::group_hash_axioms;

/// The abstract state of an executor.
#[verifier::ext_equal]
pub ghost struct ExecutorView {
    /// Every live spawned task (admitted or still pending), by identity.
    pub tasks: Map<u64, ScheduleState>,
    /// Spawned tasks not yet admitted to the executor, in submission order.
    pub pending: Seq<u64>,
    /// The state of the root future of the current `block_on`.
    pub root: ScheduleState,
    /// Which `block_on` the current root belongs to; wakers of earlier roots
    /// carry an older generation and are ignored.
    pub root_generation: u64,
    /// The ready queue, front first.
    pub ready: Seq<Id>,
    /// The identity counter: the next spawned task gets this identity, or
    /// `1` when it is `0` (after wrapping around).
    pub next_id: u64,
    /// Whether the identity counter has ever wrapped around.
    pub wrapped: bool,
    /// Whether the executor has shut down.
    pub closed: bool,
}

impl ExecutorView {
    /// The scheduling state of task `id`, if it is known.
    pub open spec fn state_of(self, id: Id) -> Option<ScheduleState> {
        if id.0 == 0 {
            Some(self.root)
        } else if self.tasks.contains_key(id.0) {
            Some(self.tasks[id.0])
        } else {
            None
        }
    }

    /// This view with the state of task `id` replaced by `s`.
    pub open spec fn set_state(self, id: Id, s: ScheduleState) -> ExecutorView {
        if id.0 == 0 {
            ExecutorView { root: s, ..self }
        } else {
            ExecutorView { tasks: self.tasks.insert(id.0, s), ..self }
        }
    }

    /// Whether task `id` is being polled.
    pub open spec fn is_polling(self, id: Id) -> bool {
        match self.state_of(id) {
            Some(s) => s is Running,
            None => false,
        }
    }

    /// The executor after a wake-up delivered to the schedule of task `id`
    /// (the current root for identity `0`); unknown tasks are ignored.
    pub open spec fn wake_schedule(self, id: Id) -> ExecutorView {
        match self.state_of(id) {
            Some(s) => {
                let (s2, a) = wake_step(s);
                ExecutorView { ready: after_action(self.ready, id, a), ..self.set_state(id, s2) }
            },
            None => self,
        }
    }

    /// The executor after a wake-up of spawned task `id`; unknown and
    /// completed tasks are ignored, and so is the root identity, whose
    /// wakers go through `after_wake_root`.
    pub open spec fn after_wake(self, id: Id) -> ExecutorView {
        if id.0 == 0 {
            self
        } else {
            self.wake_schedule(id)
        }
    }

    /// The executor after a wake-up from the root waker of `generation`:
    /// only the waker of the current root has an effect.
    pub open spec fn after_wake_root(self, generation: u64) -> ExecutorView {
        if generation == self.root_generation {
            self.wake_schedule(Id(0))
        } else {
            self
        }
    }

    /// The executor after the poll of task `id` ended with `result`; a
    /// completed spawned task is forgotten.
    pub open spec fn after_finish(self, id: Id, result: Readiness) -> ExecutorView {
        let (s2, a) = finish_step(self.state_of(id).unwrap(), result);
        let v = ExecutorView { ready: after_action(self.ready, id, a), ..self.set_state(id, s2) };
        if id.0 != 0 && s2 == ScheduleState::Complete {
            ExecutorView { tasks: self.tasks.remove(id.0), ..v }
        } else {
            v
        }
    }

    /// The identity the next spawned task gets: the counter, skipping `0`.
    pub open spec fn next_identity(self) -> u64 {
        if self.next_id == 0 {
            1
        } else {
            self.next_id
        }
    }

    /// The executor after a spawn on an open executor: the counter moves
    /// past the next identity; the task is admitted under that identity and
    /// queued for its first poll, unless a live task still holds it (which
    /// can only happen once the counter has wrapped around).
    pub open spec fn after_submit(self) -> ExecutorView {
        let k = self.next_identity();
        let counted = ExecutorView {
            next_id: counter_after(k),
            wrapped: self.wrapped || k == u64::MAX,
            ..self
        };
        if self.tasks.contains_key(k) {
            counted
        } else {
            ExecutorView {
                tasks: self.tasks.insert(k, ScheduleState::Queued),
                pending: self.pending.push(k),
                ready: self.ready.push(Id(k)),
                ..counted
            }
        }
    }

    /// The executor after its pending tasks were admitted.
    pub open spec fn after_drain(self) -> ExecutorView {
        ExecutorView { pending: Seq::<u64>::empty(), ..self }
    }

    /// The executor after a root future was started: a fresh root of the
    /// next generation is queued, with one entry in the ready queue.
    pub open spec fn after_start_root(self) -> ExecutorView {
        ExecutorView {
            root: ScheduleState::Queued,
            root_generation: next_generation(self.root_generation),
            ready: if self.root == ScheduleState::Queued {
                self.ready
            } else {
                self.ready.push(Id(0))
            },
            ..self
        }
    }

    /// The executor after `next_turn`: pending tasks are admitted, then the
    /// task at the front of the ready queue, if any, is taken off it and
    /// marked as being polled.
    pub open spec fn after_turn(self) -> (ExecutorView, Option<Id>) {
        let v = self.after_drain();
        if v.ready.len() == 0 {
            (v, None)
        } else {
            let id = v.ready[0];
            (
                ExecutorView {
                    ready: v.ready.drop_first(),
                    ..v.set_state(id, ScheduleState::Running { notified: false })
                },
                Some(id),
            )
        }
    }

    /// The executor after shutdown: every task is forgotten and no more are
    /// admitted.
    pub open spec fn after_shutdown(self) -> ExecutorView {
        ExecutorView {
            tasks: Map::<u64, ScheduleState>::empty(),
            pending: Seq::<u64>::empty(),
            root: ScheduleState::Complete,
            ready: Seq::<Id>::empty(),
            closed: true,
            ..self
        }
    }

    /// The executor invariant.
    ///
    /// Spawned tasks have non-zero identities below the next identity, and
    /// completed ones are forgotten; pending tasks are known and listed once;
    /// the ready queue holds each task at most once, and holds exactly the
    /// tasks whose state is `Queued`.
    pub open spec fn consistent(self) -> bool {
        self.tasks_consistent() && self.ready_consistent()
    }

    /// The task table part of the invariant: pending tasks wait in the
    /// ready queue for their first poll.
    pub open spec fn tasks_consistent(self) -> bool {
        &&& self.tasks.dom().finite()
        &&& !self.wrapped ==> self.next_id != 0
        &&& forall|k: u64| #[trigger]
            self.tasks.contains_key(k) ==> k != 0 && self.tasks[k] != ScheduleState::Complete && (
            !self.wrapped ==> k < self.next_id)
        &&& self.pending.no_duplicates()
        &&& forall|i: int|
            #![trigger self.pending[i]]
            0 <= i < self.pending.len() ==> self.tasks.contains_key(self.pending[i])
                && self.tasks[self.pending[i]] == ScheduleState::Queued
    }

    /// The ready queue part of the invariant.
    pub open spec fn ready_consistent(self) -> bool {
        &&& self.ready.no_duplicates()
        &&& forall|i: int|
            0 <= i < self.ready.len() ==> #[trigger] self.state_of(self.ready[i]) == Some(
                ScheduleState::Queued,
            )
        &&& forall|id: Id| #[trigger]
            self.state_of(id) == Some(ScheduleState::Queued) ==> self.ready.contains(id)
    }
}

/// The task table part of the invariant survives a change of the state of
/// one live task `k` that keeps it live and not complete, and keeps it queued
/// if it is pending.
proof fn lemma_tasks_after_update(v0: ExecutorView, v: ExecutorView, k: u64)
    requires
        v0.tasks_consistent(),
        v0.tasks.contains_key(k),
        v.pending == v0.pending,
        v.next_id == v0.next_id,
        v.wrapped == v0.wrapped,
        v.tasks.dom() == v0.tasks.dom(),
        forall|j: u64| j != k ==> #[trigger] v.tasks.contains_key(j) ==> v.tasks[j] == v0.tasks[j],
        v.tasks[k] != ScheduleState::Complete,
        v0.pending.contains(k) ==> v.tasks[k] == ScheduleState::Queued,
    ensures
        v.tasks_consistent(),
{
    assert forall|j: u64| #[trigger] v.tasks.contains_key(j) implies (
        j != 0 && v.tasks[j] != ScheduleState::Complete && (!v.wrapped ==> j < v.next_id)
    ) by {
        assert(v0.tasks.contains_key(j));
    }
    assert forall|i: int| #![trigger v.pending[i]] 0 <= i < v.pending.len() implies (v.tasks.contains_key(v.pending[i])
        && v.tasks[v.pending[i]] == ScheduleState::Queued) by {
        assert(v0.tasks.contains_key(v0.pending[i]));
        if v.pending[i] == k {
            assert(v0.pending.contains(k));
        }
    }
}

/// The task table part of the invariant only depends on the task table,
/// the pending list and the identity counter.
proof fn lemma_tasks_unchanged(v0: ExecutorView, v: ExecutorView)
    requires
        v0.tasks_consistent(),
        v.tasks == v0.tasks,
        v.pending == v0.pending,
        v.next_id == v0.next_id,
        v.wrapped == v0.wrapped,
    ensures
        v.tasks_consistent(),
{
}

/// Moving the identity counter past the next identity keeps every live
/// identity below the counter while it has not wrapped around.
proof fn lemma_counter_moved(v0: ExecutorView, v: ExecutorView)
    requires
        v0.tasks_consistent(),
        v.tasks == v0.tasks,
        v.pending == v0.pending,
        v.next_id == counter_after(v0.next_identity()),
        v.wrapped == (v0.wrapped || v0.next_identity() == u64::MAX),
    ensures
        v.tasks_consistent(),
{
    assert forall|j: u64| #[trigger] v.tasks.contains_key(j) implies (
        j != 0 && v.tasks[j] != ScheduleState::Complete && (!v.wrapped ==> j < v.next_id)
    ) by {
        assert(v0.tasks.contains_key(j));
    }
    assert forall|i: int| #![trigger v.pending[i]] 0 <= i < v.pending.len() implies (v.tasks.contains_key(v.pending[i])
        && v.tasks[v.pending[i]] == ScheduleState::Queued) by {
        assert(v0.tasks.contains_key(v0.pending[i]));
    }
}

/// The ready queue part of the invariant holds when the queue and every
/// task's state are unchanged.
proof fn lemma_ready_same_states(v0: ExecutorView, v: ExecutorView)
    requires
        v0.ready_consistent(),
        v.ready == v0.ready,
        forall|x: Id| #[trigger] v.state_of(x) == v0.state_of(x),
    ensures
        v.ready_consistent(),
{
    assert forall|i: int| 0 <= i < v.ready.len() implies #[trigger] v.state_of(v.ready[i])
        == Some(ScheduleState::Queued) by {
        assert(v0.state_of(v0.ready[i]) == Some(ScheduleState::Queued));
    }
}

/// A task that is not queued has no entry in the ready queue.
proof fn lemma_unqueued_not_ready(v: ExecutorView, id: Id)
    requires
        v.ready_consistent(),
        v.state_of(id) != Some(ScheduleState::Queued),
    ensures
        !v.ready.contains(id),
{
    if v.ready.contains(id) {
        let i = choose|i: int| 0 <= i < v.ready.len() && v.ready[i] == id;
        assert(v.state_of(v.ready[i]) == Some(ScheduleState::Queued));
    }
}

/// The ready queue part of the invariant survives a change of the state of
/// one task `id`, with `id` pushed onto the queue exactly when it becomes queued.
proof fn lemma_ready_after_update(v0: ExecutorView, v: ExecutorView, id: Id, push: bool)
    requires
        v0.ready_consistent(),
        forall|x: Id| x != id ==> #[trigger] v.state_of(x) == v0.state_of(x),
        push ==> v.ready == v0.ready.push(id) && v.state_of(id) == Some(ScheduleState::Queued)
            && v0.state_of(id) != Some(ScheduleState::Queued),
        !push ==> v.ready == v0.ready && ((v.state_of(id) == Some(ScheduleState::Queued)) == (
        v0.state_of(id) == Some(ScheduleState::Queued))),
    ensures
        v.ready_consistent(),
{
    if push {
        lemma_unqueued_not_ready(v0, id);
    }
    assert forall|x: Id| #[trigger]
        v.state_of(x) == Some(ScheduleState::Queued) implies v.ready.contains(x) by {
        if x != id || !push {
            assert(v0.state_of(x) == Some(ScheduleState::Queued));
            let i = choose|i: int| 0 <= i < v0.ready.len() && v0.ready[i] == x;
            assert(v.ready[i] == x);
        } else {
            assert(v.ready[v.ready.len() - 1] == x);
        }
    }
    assert forall|i: int| 0 <= i < v.ready.len() implies #[trigger] v.state_of(v.ready[i])
        == Some(ScheduleState::Queued) by {
        if i < v0.ready.len() {
            assert(v0.state_of(v0.ready[i]) == Some(ScheduleState::Queued));
        }
    }
}

/// The generation after `g`, wrapping around.
pub open spec fn next_generation(g: u64) -> u64 {
    if g == u64::MAX {
        0
    } else {
        (g + 1) as u64
    }
}

/// The identity counter and admission state shared with spawners.
pub(crate) struct SpawnState {
    pub(crate) pending_spawns: Vec<u64>,
    pub(crate) next_id: u64,
    pub(crate) closed: bool,
}

/// The value of the identity counter after `n` was handed out.
pub open spec fn counter_after(n: u64) -> u64 {
    if n == u64::MAX {
        0
    } else {
        (n + 1) as u64
    }
}

impl SpawnState {
    /// Hands out the next non-zero identity, skipping `0`, and advances the
    /// counter with wrap-around.
    pub(crate) fn next_id(&mut self) -> (id: Id)
        ensures
            id.0 == (if old(self).next_id == 0 {
                1
            } else {
                old(self).next_id
            }),
            final(self).next_id == counter_after(id.0),
            final(self).pending_spawns == old(self).pending_spawns,
            final(self).closed == old(self).closed,
    {
        let mut id = self.next_id;
        if id == 0 {
            id = 1;
        }
        self.next_id = if id == u64::MAX {
            0
        } else {
            id + 1
        };
        Id::new(id)
    }
}

/// The bookkeeping of a single-threaded executor: which tasks are alive,
/// their wake-up states, and the ready queue.
///
/// Polling the futures themselves is left to the caller: it asks
/// `next_turn` which task to poll, polls it, and reports with `finish_poll`.
pub struct Executor {
    tasks: HashMap<u64, ScheduleState>,
    spawn_state: SpawnState,
    root: ScheduleState,
    root_generation: u64,
    ready: ReadyQueue,
    ids_wrapped: Ghost<bool>,
}

impl View for Executor {
    type V = ExecutorView;

    closed spec fn view(&self) -> ExecutorView {
        ExecutorView {
            tasks: self.tasks@,
            pending: self.spawn_state.pending_spawns@,
            root: self.root,
            root_generation: self.root_generation,
            ready: self.ready@,
            next_id: self.spawn_state.next_id,
            wrapped: self.ids_wrapped@,
            closed: self.spawn_state.closed,
        }
    }
}

impl Executor {
    /// The executor invariant, see `ExecutorView::consistent`.
    pub open spec fn wf(&self) -> bool {
        self@.consistent()
    }

    /// An open executor with no task, no root future and an empty ready queue.
    pub fn new() -> (e: Executor)
        ensures
            e.wf(),
            e@.tasks == Map::<u64, ScheduleState>::empty(),
            e@.pending == Seq::<u64>::empty(),
            e@.root == ScheduleState::Complete,
            e@.root_generation == 0,
            e@.ready == Seq::<Id>::empty(),
            e@.next_id == 1,
            !e@.wrapped,
            !e@.closed,
    {
        let e = Executor {
            tasks: HashMap::new(),
            spawn_state: SpawnState { pending_spawns: Vec::new(), next_id: 1, closed: false },
            root: ScheduleState::Complete,
            root_generation: 0,
            ready: ReadyQueue::new(),
            ids_wrapped: Ghost(false),
        };
        assert(e@.tasks =~= Map::<u64, ScheduleState>::empty());
        e
    }

    /// The scheduling state of task `id`, if it is known.
    fn state_of(&self, id: Id) -> (r: Option<ScheduleState>)
        ensures
            r == self@.state_of(id),
    {
        if id.0 == 0 {
            Some(self.root)
        } else {
            match self.tasks.get(&id.0) {
                Some(s) => Some(*s),
                None => None,
            }
        }
    }

    /// Replaces the state of task `id`.
    fn set_state(&mut self, id: Id, s: ScheduleState)
        ensures
            final(self)@ == old(self)@.set_state(id, s),
    {
        if id.0 == 0 {
            self.root = s;
        } else {
            self.tasks.insert(id.0, s);
        }
    }

    /// Admits a new spawned task and queues it for its first poll.
    ///
    /// A shut-down executor refuses it and changes nothing. Otherwise the
    /// task gets the next identity (the counter, skipping `0`) and the
    /// counter moves on; the task is refused only if a live task still holds
    /// that identity, which cannot happen before the counter wraps around.
    pub fn submit(&mut self) -> (r: Option<Id>)
        requires
            old(self).wf(),
        ensures
            final(self).wf(),
            old(self)@.closed ==> r is None && final(self)@ == old(self)@,
            !old(self)@.closed ==> final(self)@ == old(self)@.after_submit() && r == (if old(
                self,
            )@.tasks.contains_key(old(self)@.next_identity()) {
                None
            } else {
                Some(Id(old(self)@.next_identity()))
            }),
    {
        if self.spawn_state.closed {
            return None;
        }
        let ghost v0 = self@;
        let task_id = self.spawn_state.next_id();
        proof {
            self.ids_wrapped@ = v0.wrapped || task_id.0 == u64::MAX;
        }
        if self.tasks.contains_key(&task_id.0) {
            proof {
                let v = self@;
                assert(v =~= v0.after_submit());
                lemma_counter_moved(v0, v);
                assert forall|x: Id| #[trigger] v.state_of(x) == v0.state_of(x) by {}
                lemma_ready_same_states(v0, v);
            }
            return None;
        }
        let ghost v1 = self@;
        proof {
            lemma_counter_moved(v0, v1);
            assert forall|x: Id| #[trigger] v1.state_of(x) == v0.state_of(x) by {}
            lemma_ready_same_states(v0, v1);
        }
        let mut schedule = TaskSchedule::new(task_id);
        schedule.request_schedule(&mut self.ready);
        self.tasks.insert(task_id.0, schedule.state);
        self.spawn_state.pending_spawns.push(task_id.0);
        proof {
            let v = self@;
            let new_id = task_id.0;
            assert(v =~= v0.after_submit());
            assert(!v1.tasks.contains_key(new_id));
            assert(!v1.ready.contains(task_id)) by {
                lemma_unqueued_not_ready(v1, task_id);
            }
            assert(!v1.pending.contains(new_id)) by {
                if v1.pending.contains(new_id) {
                    let i = choose|i: int| 0 <= i < v1.pending.len() && v1.pending[i] == new_id;
                    assert(v1.tasks.contains_key(v1.pending[i]));
                }
            }
            assert forall|k: u64| #[trigger] v.tasks.contains_key(k) implies (
                k != 0 && v.tasks[k] != ScheduleState::Complete && (!v.wrapped ==> k < v.next_id)
            ) by {
                if k != new_id {
                    assert(v1.tasks.contains_key(k));
                    assert(v.tasks[k] == v1.tasks[k]);
                } else {
                    assert(v.tasks[k] == ScheduleState::Queued);
                }
            }
            assert forall|i: int| #![trigger v.pending[i]] 0 <= i < v.pending.len() implies (v.tasks.contains_key(v.pending[i])
                && v.tasks[v.pending[i]] == ScheduleState::Queued) by {
                if i < v1.pending.len() {
                    assert(v.pending[i] == v1.pending[i]);
                    assert(v1.tasks.contains_key(v1.pending[i]));
                    assert(v1.tasks[v1.pending[i]] == ScheduleState::Queued);
                    assert(v1.pending[i] != new_id);
                } else {
                    assert(v.pending[i] == new_id);
                    assert(schedule.state == ScheduleState::Queued);
                }
            }
            assert forall|x: Id| x != task_id implies #[trigger] v.state_of(x) == v1.state_of(x) by {}
            lemma_ready_after_update(v1, v, task_id, true);
            assert(v.tasks_consistent());
        }
        Some(task_id)
    }

    /// Admits every pending task to the executor.
    pub fn drain_pending_spawns(&mut self)
        requires
            old(self).wf(),
        ensures
            final(self).wf(),
            final(self)@ == old(self)@.after_drain(),
    {
        let ghost v0 = self@;
        self.spawn_state.pending_spawns.clear();
        proof {
            let v = self@;
            assert(v.pending =~= Seq::<u64>::empty());
            assert forall|id: Id| #[trigger] v.state_of(id) == v0.state_of(id) by {}
            assert forall|i: int| 0 <= i < v.ready.len() implies #[trigger] v.state_of(v.ready[i])
                == Some(ScheduleState::Queued) by {
                assert(v0.state_of(v0.ready[i]) == Some(ScheduleState::Queued));
            }
        }
    }

    /// Starts driving a root future: a fresh root schedule of the next
    /// generation is queued for a first poll. Returns that generation, which
    /// the root's waker hands to `wake_root`.
    pub fn start_root(&mut self) -> (generation: u64)
        requires
            old(self).wf(),
        ensures
            final(self).wf(),
            final(self)@ == old(self)@.after_start_root(),
            generation == final(self)@.root_generation,
    {
        let generation = if self.root_generation == u64::MAX {
            0
        } else {
            self.root_generation + 1
        };
        let ghost v0 = self@;
        if let ScheduleState::Queued = self.root {
        } else {
            let mut schedule = TaskSchedule::new(Id::root());
            schedule.request_schedule(&mut self.ready);
            self.root = schedule.state;
            proof {
                let v = self@;
                lemma_tasks_unchanged(v0, v);
                assert forall|x: Id| x != Id(0) implies #[trigger] v.state_of(x) == v0.state_of(
                    x,
                ) by {}
                lemma_ready_after_update(v0, v, Id(0), true);
            }
        }
        let ghost v1 = self@;
        self.root_generation = generation;
        proof {
            let v = self@;
            lemma_tasks_unchanged(v1, v);
            assert forall|x: Id| #[trigger] v.state_of(x) == v1.state_of(x) by {}
            assert forall|i: int| 0 <= i < v.ready.len() implies #[trigger] v.state_of(v.ready[i])
                == Some(ScheduleState::Queued) by {
                assert(v1.state_of(v1.ready[i]) == Some(ScheduleState::Queued));
            }
        }
        generation
    }

    /// Picks the next task to poll: admits pending tasks, takes the front
    /// of the ready queue and marks that task as being polled. `None` when
    /// no task is ready. The root future has identity `0`.
    pub fn next_turn(&mut self) -> (r: Option<Id>)
        requires
            old(self).wf(),
        ensures
            final(self).wf(),
            (final(self)@, r) == old(self)@.after_turn(),
    {
        self.drain_pending_spawns();
        let ghost v0 = self@;
        match self.ready.try_recv() {
            None => None,
            Some(id) => {
                proof {
                    assert(v0.state_of(v0.ready[0]) == Some(ScheduleState::Queued));
                }
                let mut schedule = TaskSchedule { id, state: ScheduleState::Queued };
                schedule.begin_poll();
                self.set_state(id, schedule.state);
                proof {
                    let v = self@;
                    assert forall|x: Id| x != id implies #[trigger] v.state_of(x) == v0.state_of(
                        x,
                    ) by {}
                    assert(v.ready =~= v0.ready.drop_first());
                    assert forall|x: Id| #[trigger]
                        v.state_of(x) == Some(ScheduleState::Queued) implies v.ready.contains(
                        x,
                    ) by {
                        assert(v0.state_of(x) == Some(ScheduleState::Queued));
                        let i = choose|i: int| 0 <= i < v0.ready.len() && v0.ready[i] == x;
                        assert(i != 0);
                        assert(v.ready[i - 1] == x);
                    }
                    assert forall|i: int| 0 <= i < v.ready.len() implies #[trigger] v.state_of(
                        v.ready[i],
                    ) == Some(ScheduleState::Queued) by {
                        assert(v0.ready[i + 1] == v.ready[i]);
                        assert(v0.state_of(v0.ready[i + 1]) == Some(ScheduleState::Queued));
                    }
                    assert(v.ready.no_duplicates()) by {
                        assert forall|i: int, j: int|
                            0 <= i < v.ready.len() && 0 <= j < v.ready.len() && i != j implies v.ready[i]
                            != v.ready[j] by {
                            assert(v0.ready[i + 1] != v0.ready[j + 1]);
                        }
                    }
                }
                Some(id)
            },
        }
    }

    /// Records the outcome of polling task `id`. A task woken during the
    /// poll goes back onto the ready queue; a completed spawned task is
    /// forgotten.
    pub fn finish_poll(&mut self, id: Id, result: Readiness) -> (outcome: TaskPollOutcome)
        requires
            old(self).wf(),
            old(self)@.is_polling(id),
        ensures
            final(self).wf(),
            final(self)@ == old(self)@.after_finish(id, result),
            outcome == (if result == Readiness::Ready {
                TaskPollOutcome::Complete
            } else {
                TaskPollOutcome::Pending
            }),
    {
        let ghost v0 = self@;
        let s = self.state_of(id).unwrap();
        let mut schedule = TaskSchedule { id, state: s };
        let outcome = schedule.finish_poll(result, &mut self.ready);
        let removed = id.0 != 0 && matches!(outcome, TaskPollOutcome::Complete);
        if removed {
            self.tasks.remove(&id.0);
        } else {
            self.set_state(id, schedule.state);
        }
        proof {
            let v = self@;
            let (s2, a) = finish_step(s, result);
            assert(v =~= v0.after_finish(id, result));
            assert forall|x: Id| x != id implies #[trigger] v.state_of(x) == v0.state_of(x) by {}
            lemma_ready_after_update(v0, v, id, a == ScheduleAction::Enqueue);
            if id.0 != 0 {
                assert(!v0.pending.contains(id.0)) by {
                    if v0.pending.contains(id.0) {
                        let i = choose|i: int| 0 <= i < v0.pending.len() && v0.pending[i] == id.0;
                        assert(v0.tasks[v0.pending[i]] == ScheduleState::Queued);
                    }
                }
                if removed {
                    assert forall|i: int| #![trigger v.pending[i]] 0 <= i < v.pending.len() implies (v.tasks.contains_key(v.pending[i])
                        && v.tasks[v.pending[i]] == ScheduleState::Queued) by {
                        assert(v0.tasks.contains_key(v0.pending[i]));
                    }
                } else {
                    assert(v.tasks.dom() =~= v0.tasks.dom());
                    lemma_tasks_after_update(v0, v, id.0);
                }
                assert(v.tasks_consistent());
            } else {
                lemma_tasks_unchanged(v0, v);
            }
        }
        outcome
    }

    /// Delivers a wake-up to the schedule of task `id`.
    fn wake_schedule(&mut self, id: Id)
        requires
            old(self).wf(),
        ensures
            final(self).wf(),
            final(self)@ == old(self)@.wake_schedule(id),
    {
        let ghost v0 = self@;
        match self.state_of(id) {
            None => {},
            Some(s) => {
                let mut schedule = TaskSchedule { id, state: s };
                schedule.request_schedule(&mut self.ready);
                self.set_state(id, schedule.state);
                proof {
                    let v = self@;
                    let (s2, a) = wake_step(s);
                    assert forall|x: Id| x != id implies #[trigger] v.state_of(x) == v0.state_of(
                        x,
                    ) by {}
                    lemma_ready_after_update(v0, v, id, a == ScheduleAction::Enqueue);
                    if id.0 != 0 {
                        assert(v.tasks.dom() =~= v0.tasks.dom());
                        lemma_tasks_after_update(v0, v, id.0);
                    } else {
                        lemma_tasks_unchanged(v0, v);
                    }
                }
            },
        }
    }

    /// Handles a wake-up of spawned task `id`: an idle task is queued, a
    /// task being polled is marked as woken, anything else (unknown and
    /// completed tasks, and the root identity) is left alone.
    pub fn wake(&mut self, id: Id)
        requires
            old(self).wf(),
        ensures
            final(self).wf(),
            final(self)@ == old(self)@.after_wake(id),
    {
        if id.0 != 0 {
            self.wake_schedule(id);
        }
    }

    /// Handles a wake-up from the waker of the root of `generation`: the
    /// current root reacts as a task does; a root of an earlier `block_on`
    /// has completed, so its wakers change nothing.
    pub fn wake_root(&mut self, generation: u64)
        requires
            old(self).wf(),
        ensures
            final(self).wf(),
            final(self)@ == old(self)@.after_wake_root(generation),
    {
        if generation == self.root_generation {
            self.wake_schedule(Id::root());
        }
    }

    /// Shuts the executor down: every task is forgotten, the ready queue is
    /// emptied, and later spawns are refused.
    pub fn shutdown(&mut self)
        requires
            old(self).wf(),
        ensures
            final(self).wf(),
            final(self)@ == old(self)@.after_shutdown(),
    {
        self.spawn_state.closed = true;
        self.spawn_state.pending_spawns.clear();
        self.tasks.clear();
        self.ready.clear();
        self.root = ScheduleState::Complete;
        proof {
            let v = self@;
            assert(v.tasks =~= Map::<u64, ScheduleState>::empty());
            assert(v.pending =~= Seq::<u64>::empty());
        }
    }

    /// Whether task `id` is being polled, so that `finish_poll` may be called for it.
    pub fn is_polling(&self, id: Id) -> (r: bool)
        ensures
            r == self@.is_polling(id),
    {
        match self.state_of(id) {
            Some(ScheduleState::Running { .. }) => true,
            _ => false,
        }
    }

    /// The number of live spawned tasks, admitted or pending.
    pub fn task_count(&self) -> (n: usize)
        requires
            self.wf(),
        ensures
            n == self@.tasks.len(),
    {
        self.tasks.len()
    }

    /// Whether the executor has shut down.
    pub fn is_closed(&self) -> (r: bool)
        ensures
            r == self@.closed,
    {
        self.spawn_state.closed
    }
}


/// A consistent executor holds each task at most once in its ready queue,
/// and holds exactly the tasks that are queued.
pub proof fn lemma_ready_queue_matches_queued_tasks(v: ExecutorView, id: Id)
    requires
        v.consistent(),
    ensures
        v.ready.no_duplicates(),
        v.ready.contains(id) <==> v.state_of(id) == Some(ScheduleState::Queued),
{
    if v.ready.contains(id) {
        let i = choose|i: int| 0 <= i < v.ready.len() && v.ready[i] == id;
        assert(v.state_of(v.ready[i]) == Some(ScheduleState::Queued));
    }
}

/// Waking a task twice has the same effect as waking it once: repeated
/// wake-ups are coalesced and never add a second queue entry.
pub proof fn lemma_wake_twice_same_as_once(v: ExecutorView, id: Id)
    requires
        v.consistent(),
    ensures
        v.after_wake(id).after_wake(id) == v.after_wake(id),
{
    lemma_wake_schedule_twice(v, id);
}

/// The same for the root: two wake-ups from the current root's waker have
/// the effect of one.
pub proof fn lemma_root_wake_twice_same_as_once(v: ExecutorView, generation: u64)
    requires
        v.consistent(),
    ensures
        v.after_wake_root(generation).after_wake_root(generation) == v.after_wake_root(
            generation,
        ),
{
    lemma_wake_schedule_twice(v, Id(0));
}

/// A second wake-up delivered to the same schedule changes nothing.
proof fn lemma_wake_schedule_twice(v: ExecutorView, id: Id)
    ensures
        v.wake_schedule(id).wake_schedule(id) == v.wake_schedule(id),
{
    let w = v.wake_schedule(id);
    match v.state_of(id) {
        Some(s) => {
            assert(w.state_of(id) == Some(wake_step(s).0));
            assert(w.wake_schedule(id) =~= w);
        },
        None => {},
    }
}

/// A waker of the root of an earlier `block_on` changes nothing: that root
/// has completed, and the current root is not woken by it.
pub proof fn lemma_stale_root_waker_is_harmless(v: ExecutorView, generation: u64)
    requires
        generation != v.after_start_root().root_generation,
    ensures
        v.after_start_root().after_wake_root(generation) == v.after_start_root(),
        v.root_generation != v.after_start_root().root_generation,
{
}

/// A wake-up that arrives while a task is being polled is not lost: when
/// the poll ends pending, the task is queued again, once.
pub proof fn lemma_wake_during_poll_requeues(v: ExecutorView, id: Id)
    requires
        v.consistent(),
        id.0 != 0,
        v.is_polling(id),
    ensures
        v.after_wake(id).is_polling(id),
        v.after_wake(id).after_finish(id, Readiness::Pending).ready == v.ready.push(id),
        v.after_wake(id).after_finish(id, Readiness::Pending).state_of(id) == Some(
            ScheduleState::Queued,
        ),
{
}

/// The same for the root: a wake-up from the current root's waker during
/// its poll makes a pending root be polled again.
pub proof fn lemma_root_wake_during_poll_requeues(v: ExecutorView)
    requires
        v.consistent(),
        v.is_polling(Id(0)),
    ensures
        v.after_wake_root(v.root_generation).after_finish(Id(0), Readiness::Pending).ready
            == v.ready.push(Id(0)),
{
}

/// A task whose poll ends pending without any wake-up is not queued again:
/// it stays idle until something wakes it.
pub proof fn lemma_unwoken_pending_task_waits(v: ExecutorView, id: Id)
    requires
        v.consistent(),
        v.state_of(id) == Some(ScheduleState::Running { notified: false }),
    ensures
        v.after_finish(id, Readiness::Pending).ready == v.ready,
        v.after_finish(id, Readiness::Pending).state_of(id) == Some(ScheduleState::Idle),
{
}

/// A spawned task that completes is forgotten, and later wake-ups of it
/// change nothing: a completed task is never polled again.
pub proof fn lemma_completed_task_is_never_requeued(v: ExecutorView, id: Id)
    requires
        v.consistent(),
        id.0 != 0,
        v.is_polling(id),
    ensures
        v.after_finish(id, Readiness::Ready).state_of(id) is None,
        !v.after_finish(id, Readiness::Ready).ready.contains(id),
        v.after_finish(id, Readiness::Ready).after_wake(id) == v.after_finish(id, Readiness::Ready),
{
    lemma_unqueued_not_ready(v, id);
}

/// After shutdown no task is known, nothing waits in the ready queue, and
/// a wake-up of any spawned task is harmless.
pub proof fn lemma_shutdown_forgets_everything(v: ExecutorView, id: Id)
    requires
        id.0 != 0,
    ensures
        v.after_shutdown().closed,
        v.after_shutdown().ready.len() == 0,
        v.after_shutdown().state_of(id) is None,
        v.after_shutdown().after_wake(id) == v.after_shutdown(),
{
}

/// Until the identity counter wraps around, the identity a spawn gets is
/// held by no live task: a spawn on an open executor is always admitted,
/// under a non-zero identity.
pub proof fn lemma_submitted_identity_is_fresh(v: ExecutorView)
    requires
        v.consistent(),
        !v.wrapped,
    ensures
        v.next_identity() != 0,
        !v.tasks.contains_key(v.next_identity()),
        v.after_submit().tasks.contains_key(v.next_identity()),
        v.after_submit().ready.last() == Id(v.next_identity()),
{
}

/// One operation on an executor, for laws over whole runs.
pub ghost enum ExecutorOp {
    Submit,
    Drain,
    StartRoot,
    Turn,
    Finish(Id, Readiness),
    Wake(Id),
    WakeRoot(u64),
    Shutdown,
}

impl ExecutorView {
    /// The executor after `op`. A spawn on a closed executor and the end of
    /// a poll of a task that is not being polled change nothing (the
    /// executable functions rule these out or refuse them).
    pub open spec fn apply(self, op: ExecutorOp) -> ExecutorView {
        match op {
            ExecutorOp::Submit => if self.closed {
                self
            } else {
                self.after_submit()
            },
            ExecutorOp::Drain => self.after_drain(),
            ExecutorOp::StartRoot => self.after_start_root(),
            ExecutorOp::Turn => self.after_turn().0,
            ExecutorOp::Finish(id, result) => if self.is_polling(id) {
                self.after_finish(id, result)
            } else {
                self
            },
            ExecutorOp::Wake(id) => self.after_wake(id),
            ExecutorOp::WakeRoot(generation) => self.after_wake_root(generation),
            ExecutorOp::Shutdown => self.after_shutdown(),
        }
    }

    /// Whether `op` wakes task `id` (or, for the root identity, wakes or
    /// replaces the current root), or shuts the executor down.
    pub open spec fn wakes(self, op: ExecutorOp, id: Id) -> bool {
        match op {
            ExecutorOp::Wake(x) => x == id,
            ExecutorOp::WakeRoot(generation) => id.0 == 0 && generation == self.root_generation,
            ExecutorOp::StartRoot => id.0 == 0,
            ExecutorOp::Shutdown => true,
            _ => false,
        }
    }

    /// Whether task `id` is idle and has no entry in the ready queue.
    pub open spec fn idle_off_queue(self, id: Id) -> bool {
        self.state_of(id) == Some(ScheduleState::Idle) && !self.ready.contains(id)
    }
}

/// The executor after the operations `ops`, in order.
pub open spec fn run(v: ExecutorView, ops: Seq<ExecutorOp>) -> ExecutorView
    decreases ops.len(),
{
    if ops.len() == 0 {
        v
    } else {
        run(v, ops.drop_last()).apply(ops.last())
    }
}

/// An idle task stays idle and off the ready queue through any operation
/// that does not wake it, and a turn never picks it.
pub proof fn lemma_idle_task_waits_one_step(v: ExecutorView, op: ExecutorOp, id: Id)
    requires
        v.idle_off_queue(id),
        !v.wakes(op, id),
    ensures
        v.apply(op).idle_off_queue(id),
        op == ExecutorOp::Turn ==> v.after_turn().1 != Some(id),
{
    match op {
        ExecutorOp::Submit => {
            if !v.closed {
                let k = v.next_identity();
                let w = v.after_submit();
                if !v.tasks.contains_key(k) {
                    assert(Id(k) != id);
                    if w.ready.contains(id) {
                        let i = choose|i: int| 0 <= i < w.ready.len() && w.ready[i] == id;
                        if i < v.ready.len() {
                            assert(v.ready[i] == id);
                        }
                    }
                }
            }
        },
        ExecutorOp::StartRoot => {
            let w = v.after_start_root();
            if w.ready.contains(id) {
                let i = choose|i: int| 0 <= i < w.ready.len() && w.ready[i] == id;
                if i < v.ready.len() {
                    assert(v.ready[i] == id);
                }
            }
        },
        ExecutorOp::Turn => {
            if v.ready.len() > 0 {
                assert(v.ready[0] != id);
                let w = v.after_turn().0;
                assert(w.ready =~= v.ready.drop_first());
                if w.ready.contains(id) {
                    let i = choose|i: int| 0 <= i < w.ready.len() && w.ready[i] == id;
                    assert(v.ready[i + 1] == id);
                }
            }
        },
        ExecutorOp::Finish(x, result) => {
            if v.is_polling(x) {
                assert(x != id);
                let w = v.after_finish(x, result);
                if w.ready.contains(id) {
                    let i = choose|i: int| 0 <= i < w.ready.len() && w.ready[i] == id;
                    if i < v.ready.len() {
                        assert(v.ready[i] == id);
                    }
                }
            }
        },
        ExecutorOp::Wake(x) => {
            if x.0 != 0 && v.state_of(x) is Some {
                let w = v.after_wake(x);
                if w.ready.contains(id) {
                    let i = choose|i: int| 0 <= i < w.ready.len() && w.ready[i] == id;
                    if i < v.ready.len() {
                        assert(v.ready[i] == id);
                    }
                }
            }
        },
        ExecutorOp::WakeRoot(generation) => {
            if generation == v.root_generation {
                let w = v.after_wake_root(generation);
                if w.ready.contains(id) {
                    let i = choose|i: int| 0 <= i < w.ready.len() && w.ready[i] == id;
                    if i < v.ready.len() {
                        assert(v.ready[i] == id);
                    }
                }
            }
        },
        _ => {},
    }
}

/// A task that went idle (its poll ended pending with no wake-up) stays
/// idle and off the ready queue, and is never picked by a turn, through any
/// run of operations none of which wakes it: a pending task is polled again
/// only after a wake-up.
pub proof fn lemma_idle_task_waits_for_wake(v: ExecutorView, ops: Seq<ExecutorOp>, id: Id)
    requires
        v.idle_off_queue(id),
        forall|j: int| 0 <= j < ops.len() ==> !run(v, ops.take(j)).wakes(#[trigger] ops[j], id),
    ensures
        run(v, ops).idle_off_queue(id),
        forall|j: int|
            0 <= j < ops.len() && ops[j] == ExecutorOp::Turn ==> #[trigger] run(
                v,
                ops.take(j),
            ).after_turn().1 != Some(id),
    decreases ops.len(),
{
    if ops.len() > 0 {
        let prefix = ops.drop_last();
        assert forall|j: int| 0 <= j < prefix.len() implies !run(v, prefix.take(j)).wakes(
            #[trigger] prefix[j],
            id,
        ) by {
            assert(prefix.take(j) =~= ops.take(j));
            assert(prefix[j] == ops[j]);
        }
        lemma_idle_task_waits_for_wake(v, prefix, id);
        let n = ops.len() - 1;
        assert(ops.take(n) =~= prefix);
        assert(!run(v, ops.take(n)).wakes(ops[n], id));
        lemma_idle_task_waits_one_step(run(v, prefix), ops.last(), id);
        assert forall|j: int|
            0 <= j < ops.len() && ops[j] == ExecutorOp::Turn implies #[trigger] run(
            v,
            ops.take(j),
        ).after_turn().1 != Some(id) by {
            if j < n {
                assert(prefix.take(j) =~= ops.take(j));
                assert(prefix[j] == ops[j]);
            }
        }
    }
}

/// The executor after `n` turns in a row.
pub open spec fn turns(v: ExecutorView, n: nat) -> ExecutorView
    decreases n,
{
    if n == 0 {
        v
    } else {
        turns(v, (n - 1) as nat).after_turn().0
    }
}

/// Turns take the ready queue first in, first out: the turn after `i`
/// others picks the entry at position `i`.
pub proof fn lemma_turns_are_first_in_first_out(v: ExecutorView, i: nat)
    requires
        i < v.ready.len(),
    ensures
        turns(v, i).ready == v.ready.skip(i as int),
        turns(v, i).after_turn().1 == Some(v.ready[i as int]),
    decreases i,
{
    if i > 0 {
        lemma_turns_are_first_in_first_out(v, (i - 1) as nat);
        let w = turns(v, (i - 1) as nat);
        assert(w.after_turn().0.ready =~= w.ready.drop_first());
        assert(v.ready.skip(i - 1).drop_first() =~= v.ready.skip(i as int));
    }
    assert(turns(v, i).ready[0] == v.ready[i as int]);
}

/// A task spawned before a root future is started is queued ahead of the
/// root, so the turns take it first: it runs before the root's first poll.
pub proof fn lemma_spawn_before_root_runs_first(v: ExecutorView)
    requires
        !v.closed,
        !v.tasks.contains_key(v.next_identity()),
        v.root != ScheduleState::Queued,
    ensures
        v.after_submit().after_start_root().ready == v.ready.push(Id(v.next_identity())).push(
            Id(0),
        ),
        turns(v.after_submit().after_start_root(), v.ready.len()).after_turn().1 == Some(
            Id(v.next_identity()),
        ),
        turns(v.after_submit().after_start_root(), v.ready.len() + 1).after_turn().1 == Some(
            Id(0),
        ),
{
    let w = v.after_submit().after_start_root();
    assert(w.ready == v.ready.push(Id(v.next_identity())).push(Id(0)));
    lemma_turns_are_first_in_first_out(w, v.ready.len());
    lemma_turns_are_first_in_first_out(w, v.ready.len() + 1);
}

/// A turn takes the front of the ready queue (after admitting pending
/// tasks) and starts that task's poll with no wake-up recorded, leaving
/// every other task and the rest of the queue alone.
pub proof fn lemma_turn_starts_unnotified_poll(v: ExecutorView, x: Id)
    requires
        v.ready.len() > 0,
        x != v.ready[0],
    ensures
        v.after_turn().1 == Some(v.ready[0]),
        v.after_turn().0.state_of(v.ready[0]) == Some(ScheduleState::Running { notified: false }),
        v.after_turn().0.ready == v.ready.drop_first(),
        v.after_turn().0.state_of(x) == v.state_of(x),
        v.after_turn().0.pending.len() == 0,
{
}

/// A turn on an empty ready queue picks nothing and changes nothing but
/// the admission of pending tasks.
pub proof fn lemma_turn_on_empty_queue(v: ExecutorView, x: Id)
    requires
        v.ready.len() == 0,
    ensures
        v.after_turn().1 is None,
        v.after_turn().0.state_of(x) == v.state_of(x),
        v.after_turn().0.ready.len() == 0,
{
}

/// A task picked by a turn whose poll ends pending with no wake-up in
/// between goes idle and off the ready queue, whatever else is queued: it
/// is not polled again until woken.
pub proof fn lemma_turn_then_pending_goes_idle(v: ExecutorView)
    requires
        v.consistent(),
        v.ready.len() > 0,
    ensures
        v.after_turn().0.is_polling(v.ready[0]),
        v.after_turn().0.after_finish(v.ready[0], Readiness::Pending).state_of(v.ready[0]) == Some(
            ScheduleState::Idle,
        ),
        !v.after_turn().0.after_finish(v.ready[0], Readiness::Pending).ready.contains(v.ready[0]),
        v.after_turn().0.after_finish(v.ready[0], Readiness::Pending).ready == v.ready.drop_first(),
{
    let id = v.ready[0];
    let w = v.after_turn().0.after_finish(id, Readiness::Pending);
    assert(v.ready.drop_first() == w.ready);
    if w.ready.contains(id) {
        let i = choose|i: int| 0 <= i < w.ready.len() && w.ready[i] == id;
        assert(v.ready[i + 1] == id);
    }
}

/// Waking an idle spawned task queues it once, at the back of the ready
/// queue, whatever else is queued, and leaves every other task alone.
pub proof fn lemma_wake_idle_task_queues_it(v: ExecutorView, id: Id, x: Id)
    requires
        id.0 != 0,
        v.state_of(id) == Some(ScheduleState::Idle),
        x != id,
    ensures
        v.after_wake(id).state_of(id) == Some(ScheduleState::Queued),
        v.after_wake(id).ready == v.ready.push(id),
        v.after_wake(id).state_of(x) == v.state_of(x),
        v.after_wake(id).pending == v.pending,
{
}

/// Waking a spawned task that is being polled records the wake-up and adds
/// no queue entry; waking a queued task changes nothing.
pub proof fn lemma_wake_running_or_queued_task(v: ExecutorView, id: Id)
    requires
        id.0 != 0,
    ensures
        v.state_of(id) == Some(ScheduleState::Running { notified: false }) ==> v.after_wake(
            id,
        ).state_of(id) == Some(ScheduleState::Running { notified: true }) && v.after_wake(id).ready
            == v.ready,
        v.state_of(id) == Some(ScheduleState::Running { notified: true }) ==> v.after_wake(id)
            == v,
        v.state_of(id) == Some(ScheduleState::Queued) ==> v.after_wake(id) == v,
{
    if v.state_of(id) == Some(ScheduleState::Running { notified: true }) {
        assert(v.after_wake(id) =~= v);
    }
    if v.state_of(id) == Some(ScheduleState::Queued) {
        assert(v.after_wake(id) =~= v);
    }
}

/// Waking the current root while it is idle queues it once at the back of
/// the ready queue, whatever else is queued.
pub proof fn lemma_wake_idle_root_queues_it(v: ExecutorView, x: Id)
    requires
        v.root == ScheduleState::Idle,
        x.0 != 0,
    ensures
        v.after_wake_root(v.root_generation).root == ScheduleState::Queued,
        v.after_wake_root(v.root_generation).ready == v.ready.push(Id(0)),
        v.after_wake_root(v.root_generation).state_of(x) == v.state_of(x),
{
}

/// A spawn on an open executor under a fresh identity only adds the new
/// task: it is queued once, at the back of the ready queue, and pending;
/// the root (whatever its state) and every other task are left alone.
pub proof fn lemma_spawn_only_adds_the_new_task(v: ExecutorView, x: Id)
    requires
        !v.closed,
        !v.tasks.contains_key(v.next_identity()),
        x != Id(v.next_identity()),
    ensures
        v.after_submit().state_of(Id(v.next_identity())) == Some(ScheduleState::Queued),
        v.after_submit().ready == v.ready.push(Id(v.next_identity())),
        v.after_submit().pending == v.pending.push(v.next_identity()),
        v.after_submit().state_of(x) == v.state_of(x),
        v.after_submit().root == v.root,
        v.after_submit().root_generation == v.root_generation,
        !v.after_submit().closed,
{
}

/// A spawn refused because a live task holds the next identity changes no
/// task and no queue entry.
pub proof fn lemma_refused_spawn_changes_no_task(v: ExecutorView, x: Id)
    requires
        v.tasks.contains_key(v.next_identity()),
    ensures
        v.after_submit().state_of(x) == v.state_of(x),
        v.after_submit().ready == v.ready,
        v.after_submit().pending == v.pending,
{
}

} // verus!
