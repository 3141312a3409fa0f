use std::{cell::RefCell, collections::HashMap, rc::Rc};

use asyncr::{Executor, Id, JoinState, Readiness, TaskPollOutcome};

/// What a polled task or root sees: the executor, its own identity, the
/// generation of the current root, and the tasks it spawns.
struct Cx<'a> {
    executor: &'a mut Executor,
    me: Id,
    root_generation: u64,
    spawned: Vec<(Id, Task)>,
}

/// A spawned task: each call is one poll.
type Task = Box<dyn FnMut(&mut Cx) -> Readiness>;

/// A join state shared by a child task and whoever awaits it; the waker
/// is the identity of the waiting task.
type Shared = Rc<RefCell<JoinState<i32, Id>>>;

impl Cx<'_> {
    fn spawn(&mut self, task: Task) -> Option<Id> {
        let id = self.executor.submit()?;
        self.spawned.push((id, task));
        Some(id)
    }

    /// Wakes the task whose identity a join state handed back.
    fn wake(&mut self, id: Id) {
        if id == Id::root() {
            self.executor.wake_root(self.root_generation);
        } else {
            self.executor.wake(id);
        }
    }
}

/// A runtime made of the verified executor and the test's tasks.
struct Runtime {
    executor: Executor,
    tasks: HashMap<Id, Task>,
    last_root_generation: u64,
}

impl Runtime {
    fn new() -> Self {
        Runtime { executor: Executor::new(), tasks: HashMap::new(), last_root_generation: 0 }
    }

    fn spawn(&mut self, task: Task) -> Id {
        let id = self.executor.submit().unwrap();
        self.tasks.insert(id, task);
        id
    }

    /// Drives `root` (each call is one poll; `Some` is its output) and the
    /// spawned tasks in the order the executor picks, until the root is done.
    fn block_on<T>(&mut self, mut root: impl FnMut(&mut Cx) -> Option<T>) -> T {
        let generation = self.executor.start_root();
        self.last_root_generation = generation;
        loop {
            let id = self.executor.next_turn().expect("block_on would wait forever");
            let mut cx = Cx { executor: &mut self.executor, me: id, root_generation: generation, spawned: Vec::new() };
            if id == Id::root() {
                let output = root(&mut cx);
                let spawned = cx.spawned;
                self.tasks.extend(spawned);
                let result = if output.is_some() { Readiness::Ready } else { Readiness::Pending };
                self.executor.finish_poll(id, result);
                if let Some(output) = output {
                    return output;
                }
            } else {
                let mut task = self.tasks.remove(&id).unwrap();
                let result = task(&mut cx);
                let spawned = cx.spawned;
                self.tasks.extend(spawned);
                if self.executor.finish_poll(id, result) == TaskPollOutcome::Pending {
                    self.tasks.insert(id, task);
                }
            }
        }
    }
}

/// A child task that records `mark`, publishes `value` and wakes its waiter.
fn child(state: Shared, trace: Rc<RefCell<Vec<&'static str>>>, mark: &'static str, value: i32) -> Task {
    Box::new(move |cx| {
        trace.borrow_mut().push(mark);
        let waiter = state.borrow_mut().complete(Ok(value));
        if let Some(waiter) = waiter {
            cx.wake(waiter);
        }
        Readiness::Ready
    })
}

#[test]
fn block_on_returns_root_output() {
    let mut runtime = Runtime::new();

    let result = runtime.block_on(|_| Some(42));

    assert_eq!(result, 42);
}

#[test]
fn block_on_repolls_root_after_wake_during_poll() {
    let mut polls = 0;
    let mut runtime = Runtime::new();

    let result = runtime.block_on(|cx| {
        polls += 1;
        if polls == 1 {
            cx.executor.wake_root(cx.root_generation);
            None
        } else {
            Some(42)
        }
    });

    assert_eq!(result, 42);
    assert_eq!(polls, 2);
}

#[test]
fn block_on_drives_spawned_task_joined_by_root() {
    let mut runtime = Runtime::new();
    let state: Shared = Rc::new(RefCell::new(JoinState::new()));
    let trace = Rc::new(RefCell::new(Vec::new()));
    runtime.spawn(child(Rc::clone(&state), trace, "child", 42));

    let result = runtime.block_on(|cx| match state.borrow_mut().poll(cx.me) {
        Some(result) => Some(result.unwrap()),
        None => None,
    });

    assert_eq!(result, 42);
}

#[test]
fn block_on_root_can_spawn_and_join_child() {
    let mut runtime = Runtime::new();
    let shared_trace = Rc::new(RefCell::new(Vec::new()));
    let state: Shared = Rc::new(RefCell::new(JoinState::new()));
    let mut started = false;

    let result = runtime.block_on(|cx| {
        if !started {
            started = true;
            shared_trace.borrow_mut().push("parent:start");
            cx.spawn(child(Rc::clone(&state), Rc::clone(&shared_trace), "child", 42));
        }
        match state.borrow_mut().poll(cx.me) {
            Some(result) => {
                shared_trace.borrow_mut().push("parent:end");
                Some(result.unwrap())
            },
            None => None,
        }
    });

    assert_eq!(result, 42);
    assert_eq!(shared_trace.borrow().as_slice(), &["parent:start", "child", "parent:end"]);
}

#[test]
fn block_on_accepts_borrowing_root_future() {
    let mut runtime = Runtime::new();
    let mut counter = 0;
    let s = String::from("hello");

    let result = runtime.block_on(|_| {
        counter += 1;
        Some(&s)
    });

    assert_eq!(result, "hello");
    assert_eq!(counter, 1);
}

#[test]
fn runtime_can_block_on_more_than_once() {
    let mut runtime = Runtime::new();

    assert_eq!(runtime.block_on(|_| Some(42)), 42);
    assert_eq!(runtime.block_on(|_| Some(67)), 67);
}

#[test]
fn detached_task_resumes_on_later_block_on() {
    let spawned_complete = Rc::new(RefCell::new(false));
    let mut runtime = Runtime::new();

    let result = runtime.block_on(|cx| {
        let flag = Rc::clone(&spawned_complete);
        cx.spawn(Box::new(move |_| {
            *flag.borrow_mut() = true;
            Readiness::Ready
        }));
        Some(42)
    });

    assert_eq!(result, 42);
    assert!(!*spawned_complete.borrow());

    runtime.block_on(|_| Some(()));

    assert!(*spawned_complete.borrow());
}

#[test]
fn root_waits_for_external_wake() {
    let mut runtime = Executor::new();
    let generation = runtime.start_root();

    assert_eq!(runtime.next_turn(), Some(Id::root()));
    assert_eq!(runtime.finish_poll(Id::root(), Readiness::Pending), TaskPollOutcome::Pending);
    assert!(runtime.next_turn().is_none());

    runtime.wake_root(generation);
    assert_eq!(runtime.next_turn(), Some(Id::root()));
    assert_eq!(runtime.finish_poll(Id::root(), Readiness::Ready), TaskPollOutcome::Complete);
}

#[test]
fn waker_of_an_earlier_root_does_not_wake_the_current_one() {
    let mut runtime = Executor::new();

    let first = runtime.start_root();
    assert_eq!(runtime.next_turn(), Some(Id::root()));
    assert_eq!(runtime.finish_poll(Id::root(), Readiness::Ready), TaskPollOutcome::Complete);

    let second = runtime.start_root();
    assert_ne!(first, second);
    assert_eq!(runtime.next_turn(), Some(Id::root()));
    assert_eq!(runtime.finish_poll(Id::root(), Readiness::Pending), TaskPollOutcome::Pending);

    runtime.wake_root(first);
    assert!(runtime.next_turn().is_none());

    runtime.wake_root(second);
    assert_eq!(runtime.next_turn(), Some(Id::root()));
}

#[test]
fn the_root_identity_is_not_woken_as_a_task() {
    let mut runtime = Executor::new();
    runtime.start_root();
    assert_eq!(runtime.next_turn(), Some(Id::root()));
    assert_eq!(runtime.finish_poll(Id::root(), Readiness::Pending), TaskPollOutcome::Pending);

    runtime.wake(Id::root());

    assert!(runtime.next_turn().is_none());
}

#[test]
fn starting_a_queued_root_adds_no_second_entry() {
    let mut runtime = Executor::new();
    runtime.start_root();
    runtime.start_root();

    assert_eq!(runtime.next_turn(), Some(Id::root()));
    assert_eq!(runtime.finish_poll(Id::root(), Readiness::Ready), TaskPollOutcome::Complete);
    assert!(runtime.next_turn().is_none());
}
