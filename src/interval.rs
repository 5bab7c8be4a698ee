use vstd::prelude::*;

verus! {

/// Nanoseconds in one second.
pub const NANOS_PER_SEC: u64 = 1_000_000_000;

/// What a poll of an `Interval` decided.
#[derive(Clone, Copy, Debug, PartialEq, Eq, Structural)]
pub enum TickDecision {
    /// A tick is due now.
    Due,
    /// No tick is due; poll again at the given instant (nanoseconds on the caller's clock).
    NotDue(u64),
}

/// A fixed-rate gate for simulation ticks, on a monotonic clock that the
/// caller reads and passes in as nanoseconds since the interval was created.
#[derive(Clone, Copy, Debug)]
pub struct Interval {
    /// When the last tick fired.
    pub last: u64,
    /// The length of one tick.
    pub frame_duration: u64,
}

/// The time since the last tick, as `Instant::duration_since` gives it: zero
/// where `now` stands before it.
pub open spec fn since_last(last: u64, now: u64) -> int {
    if now >= last {
        now - last
    } else {
        0
    }
}

/// `v` clamped to the range of `u64`.
pub open spec fn clamp_u64(v: int) -> u64 {
    if v > u64::MAX {
        u64::MAX
    } else {
        v as u64
    }
}

/// The decision of a poll at `now`.
pub open spec fn decision(iv: Interval, now: u64) -> TickDecision {
    let since = since_last(iv.last, now);
    if since > iv.frame_duration {
        TickDecision::Due
    } else {
        TickDecision::NotDue(clamp_u64(now + (iv.frame_duration - since)))
    }
}

/// The interval after a poll at `now`: a tick that fires restarts it at `now`.
pub open spec fn after_poll(iv: Interval, now: u64) -> Interval {
    if decision(iv, now) == TickDecision::Due {
        Interval { last: now, ..iv }
    } else {
        iv
    }
}

impl Interval {
    /// An interval of `fps` ticks per second whose clock starts now, at zero.
    pub fn new(fps: u32) -> (r: Interval)
        requires
            fps > 0,
        ensures
            r.last == 0,
            r.frame_duration == NANOS_PER_SEC as int / (fps as int),
    {
        Interval { last: 0, frame_duration: NANOS_PER_SEC / (fps as u64) }
    }

    /// Polls the interval at `now`: `Due` where more than one tick's length has
    /// passed since the last tick, which then restarts at `now`; otherwise
    /// `NotDue` with the instant at which the tick will be due.
    pub fn elapsed(&mut self, now: u64) -> (r: TickDecision)
        ensures
            r == decision(*old(self), now),
            *final(self) == after_poll(*old(self), now),
    {
        let since: u64 = if now >= self.last {
            now - self.last
        } else {
            0
        };
        if since > self.frame_duration {
            self.last = now;
            TickDecision::Due
        } else {
            let remaining: u64 = self.frame_duration - since;
            let wake: u64 = if remaining <= u64::MAX - now {
                now + remaining
            } else {
                u64::MAX
            };
            TickDecision::NotDue(wake)
        }
    }
}

/// Pacing at ten ticks per second: after a tick at `t1` (or none, where `t1` is
/// still within the first period), a poll at `t2` more than 100 ms later is due,
/// and two polls both within 100 ms of the last tick are not.
pub proof fn lemma_pacing(iv: Interval, t1: u64, t2: u64)
    requires
        iv.frame_duration == 100_000_000,
        iv.last <= t1 <= t2,
    ensures
        decision(iv, t1) == TickDecision::Due && t2 - t1 > 100_000_000
            ==> decision(after_poll(iv, t1), t2) == TickDecision::Due,
        t2 - iv.last <= 100_000_000 ==> decision(iv, t1) is NotDue
            && decision(after_poll(iv, t1), t2) is NotDue,
        t2 - t1 < 100_000_000 && decision(iv, t1) == TickDecision::Due
            ==> decision(after_poll(iv, t1), t2) is NotDue,
{
}

} // verus!
