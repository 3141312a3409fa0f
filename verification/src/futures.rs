use vstd::prelude::*;

use crate::scheduling::state::Readiness;

verus! {

/// A future that is pending on its first poll (asking to be polled again)
/// and ready on every later poll.
pub struct YieldOnceFut {
    polled: bool,
}

impl View for YieldOnceFut {
    type V = bool;

    /// Whether the future has already been polled once.
    closed spec fn view(&self) -> bool {
        self.polled
    }
}

/// One poll of a `YieldOnceFut`: the new state and the outcome.
pub open spec fn yield_once_step(polled: bool) -> (bool, Readiness) {
    if polled {
        (true, Readiness::Ready)
    } else {
        (true, Readiness::Pending)
    }
}

impl YieldOnceFut {
    /// A future that has not been polled yet.
    pub fn new() -> (f: YieldOnceFut)
        ensures
            f@ == false,
    {
        YieldOnceFut { polled: false }
    }

    /// Polls the future once. A `Pending` outcome comes with a request to
    /// be woken right away.
    pub fn poll(&mut self) -> (r: Readiness)
        ensures
            (final(self)@, r) == yield_once_step(old(self)@),
    {
        if self.polled {
            return Readiness::Ready;
        }
        self.polled = true;
        Readiness::Pending
    }
}

/// A future that is pending a given number of times (asking each time to
/// be polled again) and then ready.
pub struct CountDownFut {
    pending_polls_remaining: u32,
}

impl View for CountDownFut {
    type V = u32;

    /// The number of polls that will still be pending.
    closed spec fn view(&self) -> u32 {
        self.pending_polls_remaining
    }
}

/// One poll of a `CountDownFut` with `remaining` pending polls left.
pub open spec fn countdown_step(remaining: u32) -> (u32, Readiness) {
    if remaining == 0 {
        (0, Readiness::Ready)
    } else {
        ((remaining - 1) as u32, Readiness::Pending)
    }
}

/// The number of pending polls left after `k` polls of `CountDownFut::new(n)`.
pub open spec fn remaining_after(n: u32, k: nat) -> u32
    decreases k,
{
    if k == 0 {
        n
    } else {
        countdown_step(remaining_after(n, (k - 1) as nat)).0
    }
}

impl CountDownFut {
    /// A future that will be pending `pending_polls_remaining` times.
    pub fn new(pending_polls_remaining: u32) -> (f: CountDownFut)
        ensures
            f@ == pending_polls_remaining,
    {
        CountDownFut { pending_polls_remaining }
    }

    /// Polls the future once. A `Pending` outcome comes with a request to
    /// be woken right away.
    pub fn poll(&mut self) -> (r: Readiness)
        ensures
            (final(self)@, r) == countdown_step(old(self)@),
    {
        if self.pending_polls_remaining == 0 {
            return Readiness::Ready;
        }
        self.pending_polls_remaining = self.pending_polls_remaining - 1;
        Readiness::Pending
    }
}

/// `CountDownFut::new(n)` is pending on exactly its first `n` polls and
/// ready on every later one (in particular ready at once for `n == 0`).
pub proof fn lemma_countdown_pending_exactly_n_times(n: u32, k: nat)
    ensures
        remaining_after(n, k) == (if k < n {
            (n - k) as u32
        } else {
            0u32
        }),
        countdown_step(remaining_after(n, k)).1 == (if k < n {
            Readiness::Pending
        } else {
            Readiness::Ready
        }),
    decreases k,
{
    if k > 0 {
        lemma_countdown_pending_exactly_n_times(n, (k - 1) as nat);
    }
}

/// `YieldOnceFut::new()` is pending on its first poll and ready on every
/// later one.
pub proof fn lemma_yield_once_pending_once(polled: bool)
    ensures
        yield_once_step(false).1 == Readiness::Pending,
        yield_once_step(yield_once_step(polled).0) == (true, Readiness::Ready),
{
}

} // verus!
