# asyncr

A small single-threaded async runtime whose scheduling decisions carry
machine-checked proofs.

- `src/` is the verified library:
  - `scheduling/state.rs`: the per-task wake-up state machine
    (`Idle`, `Queued`, `Running { notified }`, `Complete`);
  - `scheduling/mod.rs`: the ready queue and a task's schedule;
  - `executor.rs`: the executor's bookkeeping (admission of spawned tasks,
    identities, the root future, the ready queue, shutdown) with its
    invariant: the ready queue holds each task at most once, and exactly
    the queued ones;
  - `join.rs`: the state shared by a task's result and its join handle;
  - `futures.rs`: two hand-written futures (`YieldOnceFut`, `CountDownFut`);
  - `time/sleep.rs`: timer deadlines and the state a timer shares with
    its background thread.
- `app/` holds what the verifier cannot: the `Future` impls, wakers,
  `Rc`/`RefCell`/`Mutex` sharing, the helper threads and the polling loop
  of `Runtime::block_on`. It asks the library for every decision.
- `tests/` exercises the library's decisions on concrete scenarios.
