use std::time::{Duration, Instant};
use vstd::prelude::*;

verus! {

#[verifier::external_type_specification]
#[verifier::external_body]
pub struct ExInstant(std::time::Instant);

/// Whether the clock reading `now` is at or after `deadline`
/// (`now >= deadline` for `std::time::Instant`).
pub uninterp spec fn instant_reached(now: Instant, deadline: Instant) -> bool;

/// Reads the monotonic clock (`std::time::Instant::now`). Nothing is
/// promised of the reading: it depends on the time of the call.
#[verifier::external_body]
fn clock_now() -> Instant {
    Instant::now()
}

/// Compares two instants with `std::time::Instant`'s `>=`; the result is
/// named `instant_reached`.
#[verifier::external_body]
fn at_or_after(now: &Instant, deadline: &Instant) -> (r: bool)
    ensures
        r == instant_reached(*now, *deadline),
{
    *now >= *deadline
}

/// The instant `duration` after `now`, or `None` when it cannot be
/// represented (`std::time::Instant::checked_add`).
pub uninterp spec fn instant_after(now: Instant, duration: Duration) -> Option<Instant>;

/// Adds a duration to an instant with `std::time::Instant::checked_add`;
/// the result is named `instant_after`.
#[verifier::external_body]
fn checked_after(now: &Instant, duration: Duration) -> (r: Option<Instant>)
    ensures
        r == instant_after(*now, duration),
{
    now.checked_add(duration)
}

/// A timer that completes at a deadline.
pub struct Sleep {
    deadline: Instant,
}

impl View for Sleep {
    type V = Instant;

    /// The deadline.
    closed spec fn view(&self) -> Instant {
        self.deadline
    }
}

/// A timer that completes at `instant`.
pub fn sleep_until(instant: Instant) -> (s: Sleep)
    ensures
        s@ == instant,
{
    Sleep { deadline: instant }
}

/// A timer that completes `duration` after `now`; `None` when that instant
/// cannot be represented.
pub fn sleep_from(now: Instant, duration: Duration) -> (s: Option<Sleep>)
    ensures
        (match s {
            Some(t) => instant_after(now, duration) == Some(t@),
            None => instant_after(now, duration) is None,
        }),
{
    match checked_after(&now, duration) {
        Some(deadline) => Some(Sleep { deadline }),
        None => None,
    }
}

/// A timer that completes `duration` after a clock reading taken during the
/// call; `None` when that instant cannot be represented.
pub fn sleep(duration: Duration) -> (s: Option<Sleep>)
    ensures
        exists|now: Instant|
            (match s {
                Some(t) => instant_after(now, duration) == Some(t@),
                None => instant_after(now, duration) is None,
            }),
{
    let now = clock_now();
    let s = sleep_from(now, duration);
    assert(match s {
        Some(t) => instant_after(now, duration) == Some(t@),
        None => instant_after(now, duration) is None,
    });
    s
}

impl Sleep {
    /// The instant at which the timer completes.
    pub fn deadline(&self) -> (d: Instant)
        ensures
            d == self@,
    {
        self.deadline
    }

    /// Whether the deadline has been reached, by a clock reading taken
    /// during the call.
    pub fn is_elapsed(&self) -> (r: bool)
        ensures
            exists|now: Instant| r == instant_reached(now, self@),
    {
        let now = clock_now();
        let r = at_or_after(&now, &self.deadline);
        assert(r == instant_reached(now, self@));
        r
    }
}

/// What a poll of a timer must do.
#[derive(Debug, Clone, Copy, PartialEq, Eq, Structural)]
pub enum SleepPoll {
    /// The timer has completed.
    Ready,
    /// Not yet; when `start_timer` holds, the caller must start the one
    /// background timer that will call `fire` at the deadline.
    Pending { start_timer: bool },
}

/// The state a timer shares with its background timer.
pub struct SleepInner<W> {
    /// Whether the deadline has been observed as reached.
    pub elapsed: bool,
    /// The waker to wake at the deadline.
    pub waker: Option<W>,
}

/// Whether a background timer has been started for this state, or is no
/// longer needed.
pub open spec fn timer_started<W>(s: SleepInner<W>) -> bool {
    s.elapsed || s.waker is Some
}

/// One poll of a timer: `deadline_reached` is the caller's clock check,
/// `waker` the poller's waker and `same_waker` whether it wakes the same
/// task as the registered one.
pub open spec fn sleep_poll_step<W>(
    s: SleepInner<W>,
    deadline_reached: bool,
    waker: W,
    same_waker: bool,
) -> (SleepInner<W>, SleepPoll) {
    if s.elapsed || deadline_reached {
        (SleepInner { elapsed: true, waker: None }, SleepPoll::Ready)
    } else {
        match s.waker {
            Some(w) => (
                SleepInner {
                    elapsed: false,
                    waker: if same_waker {
                        Some(w)
                    } else {
                        Some(waker)
                    },
                },
                SleepPoll::Pending { start_timer: false },
            ),
            None => (
                SleepInner { elapsed: false, waker: Some(waker) },
                SleepPoll::Pending { start_timer: true },
            ),
        }
    }
}

/// The background timer's step at the deadline: the timer is elapsed and
/// the registered waker, if any, is handed back to be woken.
pub open spec fn fire_step<W>(s: SleepInner<W>) -> (SleepInner<W>, Option<W>) {
    (SleepInner { elapsed: true, waker: None }, s.waker)
}

impl<W> SleepInner<W> {
    /// The state of a timer that has not been polled.
    pub fn new() -> (s: SleepInner<W>)
        ensures
            !s.elapsed,
            s.waker is None,
    {
        SleepInner { elapsed: false, waker: None }
    }

    /// Decides one poll of the timer; see `sleep_poll_step`.
    pub fn poll(&mut self, deadline_reached: bool, waker: W, same_waker: bool) -> (r: SleepPoll)
        ensures
            (*final(self), r) == sleep_poll_step(*old(self), deadline_reached, waker, same_waker),
    {
        if self.elapsed || deadline_reached {
            self.elapsed = true;
            self.waker = None;
            return SleepPoll::Ready;
        }
        if self.waker.is_some() {
            if !same_waker {
                self.waker = Some(waker);
            }
            SleepPoll::Pending { start_timer: false }
        } else {
            self.waker = Some(waker);
            SleepPoll::Pending { start_timer: true }
        }
    }

    /// The background timer's step at the deadline; see `fire_step`.
    pub fn fire(&mut self) -> (waker: Option<W>)
        ensures
            (*final(self), waker) == fire_step(*old(self)),
    {
        self.elapsed = true;
        let mut taken = None;
        std::mem::swap(&mut self.waker, &mut taken);
        taken
    }
}

/// A poll asks for a background timer only when none was started before,
/// and after any poll one has been started (or is no longer needed); so
/// repeated polls start at most one background timer.
pub proof fn lemma_at_most_one_timer<W>(
    s: SleepInner<W>,
    deadline_reached: bool,
    waker: W,
    same_waker: bool,
)
    ensures
        sleep_poll_step(s, deadline_reached, waker, same_waker).1 == (SleepPoll::Pending {
            start_timer: true,
        }) ==> !timer_started(s),
        timer_started(sleep_poll_step(s, deadline_reached, waker, same_waker).0),
        timer_started(fire_step(s).0),
{
}

/// A timer whose deadline has passed, or that already elapsed, is ready on
/// the poll, starts no background timer, and stays elapsed.
pub proof fn lemma_reached_deadline_is_ready<W>(
    s: SleepInner<W>,
    deadline_reached: bool,
    waker: W,
    same_waker: bool,
)
    requires
        s.elapsed || deadline_reached,
    ensures
        sleep_poll_step(s, deadline_reached, waker, same_waker).1 == SleepPoll::Ready,
        sleep_poll_step(s, deadline_reached, waker, same_waker).0.elapsed,
{
}

/// The background timer wakes the waker of the most recent poll that
/// brought a waker for another task.
pub proof fn lemma_deadline_wakes_latest_waker<W>(first: W, second: W)
    ensures
        fire_step(
            sleep_poll_step(
                sleep_poll_step(SleepInner { elapsed: false, waker: None }, false, first, false).0,
                false,
                second,
                false,
            ).0,
        ).1 == Some(second),
{
}

/// Before its deadline, a poll of a timer that has not elapsed is pending
/// and leaves it not elapsed, whatever waker it brings; it keeps the
/// registered waker when the new one wakes the same task and takes the new
/// one otherwise, and asks for a background timer exactly when none was
/// registered.
pub proof fn lemma_poll_before_deadline_stays_pending<W>(
    s: SleepInner<W>,
    waker: W,
    same_waker: bool,
)
    requires
        !s.elapsed,
    ensures
        !sleep_poll_step(s, false, waker, same_waker).0.elapsed,
        sleep_poll_step(s, false, waker, same_waker).1 == (SleepPoll::Pending {
            start_timer: s.waker is None,
        }),
        sleep_poll_step(s, false, waker, same_waker).0.waker == (if same_waker && s.waker is Some {
            s.waker
        } else {
            Some(waker)
        }),
{
}

/// A poll is ready exactly when the timer elapsed or the deadline is
/// reached; a ready poll leaves the timer elapsed with no waker kept.
pub proof fn lemma_poll_ready_exactly_at_deadline<W>(
    s: SleepInner<W>,
    deadline_reached: bool,
    waker: W,
    same_waker: bool,
)
    ensures
        (sleep_poll_step(s, deadline_reached, waker, same_waker).1 == SleepPoll::Ready) == (
        s.elapsed || deadline_reached),
        sleep_poll_step(s, deadline_reached, waker, same_waker).0.elapsed == (s.elapsed
            || deadline_reached),
        sleep_poll_step(s, deadline_reached, waker, same_waker).1 == SleepPoll::Ready
            ==> sleep_poll_step(s, deadline_reached, waker, same_waker).0.waker is None,
{
}

/// At the deadline the background timer marks the timer elapsed and hands
/// back exactly the registered waker, keeping none.
pub proof fn lemma_fire_wakes_registered_waker<W>(s: SleepInner<W>)
    ensures
        fire_step(s).0.elapsed,
        fire_step(s).0.waker is None,
        fire_step(s).1 == s.waker,
{
}

} // verus!
