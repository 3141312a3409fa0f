use vstd::prelude::*;

verus! {

/// Why a joined task produced no value.
#[derive(Debug, Clone, Copy, PartialEq, Eq, Structural)]
pub enum JoinError {
    /// The task was dropped before it finished (its executor shut down).
    Cancelled,
    /// The task panicked.
    Panic,
}

/// The state shared by a task's result sender and its join handle.
///
/// `W` is the type of the waker the handle leaves behind while it waits.
pub enum JoinState<T, W> {
    /// No result yet; the handle's most recent waker, if it waits.
    Pending { waker: Option<W> },
    /// The result, not yet taken by the handle.
    Ready(Result<T, JoinError>),
    /// The handle has taken the result.
    Consumed,
}

/// The effect of publishing `result`: the state becomes ready and the
/// waiting waker, if any, is handed back to be woken.
pub open spec fn complete_step<T, W>(s: JoinState<T, W>, result: Result<T, JoinError>) -> (
    JoinState<T, W>,
    Option<W>,
) {
    match s {
        JoinState::Pending { waker } => (JoinState::Ready(result), waker),
        _ => (s, None),
    }
}

/// The effect of a poll of the join handle with `waker`: a pending handle
/// keeps `waker` (replacing any earlier one); a ready one takes the result.
pub open spec fn poll_step<T, W>(s: JoinState<T, W>, waker: W) -> (
    JoinState<T, W>,
    Option<Result<T, JoinError>>,
) {
    match s {
        JoinState::Pending { .. } => (JoinState::Pending { waker: Some(waker) }, None),
        JoinState::Ready(result) => (JoinState::Consumed, Some(result)),
        JoinState::Consumed => (s, None),
    }
}

/// The effect of dropping the join handle: a waiting handle forgets its waker.
pub open spec fn release_step<T, W>(s: JoinState<T, W>) -> JoinState<T, W> {
    match s {
        JoinState::Pending { .. } => JoinState::Pending { waker: None },
        _ => s,
    }
}

impl<T, W> JoinState<T, W> {
    /// The state of a fresh sender/handle pair.
    pub fn new() -> (s: JoinState<T, W>)
        ensures
            s == (JoinState::<T, W>::Pending { waker: None }),
    {
        JoinState::Pending { waker: None }
    }

    /// Publishes the task's result and returns the waker to wake, if the
    /// handle was waiting. A result is published at most once.
    pub fn complete(&mut self, result: Result<T, JoinError>) -> (waker: Option<W>)
        requires
            *old(self) is Pending,
        ensures
            (*final(self), waker) == complete_step(*old(self), result),
    {
        let mut previous = JoinState::Ready(result);
        std::mem::swap(self, &mut previous);
        match previous {
            JoinState::Pending { waker } => waker,
            _ => None,
        }
    }

    /// One poll of the join handle: `Some` with the result once it is
    /// published, `None` (keeping `waker`) until then. The handle must not
    /// be polled again after it got the result.
    pub fn poll(&mut self, waker: W) -> (r: Option<Result<T, JoinError>>)
        requires
            !(*old(self) is Consumed),
        ensures
            (*final(self), r) == poll_step(*old(self), waker),
    {
        let mut previous = JoinState::Consumed;
        std::mem::swap(self, &mut previous);
        match previous {
            JoinState::Ready(result) => Some(result),
            _ => {
                *self = JoinState::Pending { waker: Some(waker) };
                None
            },
        }
    }

    /// Forgets the waiting waker, when the join handle goes away.
    pub fn release_waiter(&mut self)
        ensures
            *final(self) == release_step(*old(self)),
    {
        if let JoinState::Pending { .. } = self {
            *self = JoinState::Pending { waker: None };
        }
    }

    /// Whether the result has been published (taken or not).
    pub fn is_complete(&self) -> (r: bool)
        ensures
            r == !(*self is Pending),
    {
        match self {
            JoinState::Pending { .. } => false,
            _ => true,
        }
    }
}

/// A published result reaches the join handle intact, once: the next poll
/// returns it and leaves the state consumed.
pub proof fn lemma_result_delivered_once<T, W>(
    s: JoinState<T, W>,
    result: Result<T, JoinError>,
    waker: W,
)
    requires
        s is Pending,
    ensures
        poll_step(complete_step(s, result).0, waker) == (
        JoinState::<T, W>::Consumed, Some(result)),
{
}

/// Only the most recent waker is kept: after polls with `first` then
/// `second`, publishing the result hands back `second`.
pub proof fn lemma_latest_waker_is_notified<T, W>(
    s: JoinState<T, W>,
    first: W,
    second: W,
    result: Result<T, JoinError>,
)
    requires
        s is Pending,
    ensures
        complete_step(poll_step(poll_step(s, first).0, second).0, result).1 == Some(second),
{
}

/// A handle that went away leaves no waker behind: publishing wakes nobody.
pub proof fn lemma_released_handle_is_not_woken<T, W>(
    s: JoinState<T, W>,
    result: Result<T, JoinError>,
)
    requires
        s is Pending,
    ensures
        complete_step(release_step(s), result) == (
        JoinState::<T, W>::Ready(result), Option::<W>::None),
{
}

/// A handle polled before the result exists waits, and is woken exactly
/// when the result is published.
pub proof fn lemma_waiting_handle_is_woken<T, W>(waker: W, result: Result<T, JoinError>)
    ensures
        poll_step(JoinState::<T, W>::Pending { waker: None }, waker).1 is None,
        complete_step(poll_step(JoinState::<T, W>::Pending { waker: None }, waker).0, result).1
            == Some(waker),
{
}

} // verus!
