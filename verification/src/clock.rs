use vstd::prelude::*;

verus! {

/// Whether a frame advance is due: the time elapsed since the last advance
/// has reached the current frame's delay. A clock reading older than the
/// last advance never makes an advance due.
pub open spec fn advance_due(last: u64, now: u64, delay: u64) -> bool {
    now >= last && now - last >= delay
}

/// The drift-corrected mark of the last advance: normally the previous mark
/// plus the frame delay, so that scheduling jitter never accumulates; after
/// a stall so long that even the corrected mark already lies a whole delay
/// in the past (a system sleep, say), the clock resets to `now` instead of
/// replaying a burst of skipped frames.
pub open spec fn corrected_mark(last: u64, now: u64, delay: u64) -> u64 {
    if now - (last + delay) > delay {
        now
    } else {
        (last + delay) as u64
    }
}

/// How long a caller should wait before the next tick: the remainder of the
/// current frame's delay, zero once the advance is due.
pub open spec fn wait_nanos(last: u64, now: u64, delay: u64) -> u64 {
    if now < last {
        delay
    } else if now - last >= delay {
        0
    } else {
        (delay - (now - last)) as u64
    }
}

/// Drift-corrected playback scheduler for one animation view. The caller
/// reads a monotonic clock in nanoseconds, asks on each tick whether the
/// current frame's delay has elapsed, and reports each frame advance back.
pub struct PlayClock {
    last: u64,
}

impl PlayClock {
    /// The mark of the last frame advance.
    pub closed spec fn mark(&self) -> u64 {
        self.last
    }

    /// A clock whose last advance is taken to be `now`.
    pub fn new(now: u64) -> (c: PlayClock)
        ensures
            c.mark() == now,
    {
        PlayClock { last: now }
    }

    /// Whether the frame advance is due at time `now`, with the current
    /// frame shown for `delay` nanoseconds.
    pub fn is_due(&self, now: u64, delay: u64) -> (r: bool)
        ensures
            r == advance_due(self.mark(), now, delay),
    {
        now >= self.last && now - self.last >= delay
    }

    /// Records a frame advance at time `now` after the current frame's
    /// `delay` elapsed: the mark moves by exactly `delay` — not to `now` —
    /// so that scheduling jitter never accumulates, and resets to `now`
    /// only after a stall of more than a whole further delay.
    pub fn advance(&mut self, now: u64, delay: u64)
        requires
            advance_due(old(self).mark(), now, delay),
        ensures
            final(self).mark() == corrected_mark(old(self).mark(), now, delay),
    {
        let target = self.last + delay;
        if now - target > delay {
            self.last = now;
        } else {
            self.last = target;
        }
    }

    /// How long to wait before the next tick is worth taking: the remainder
    /// of the current frame's delay, zero once the advance is due.
    pub fn remaining(&self, now: u64, delay: u64) -> (r: u64)
        ensures
            r == wait_nanos(self.mark(), now, delay),
    {
        if now < self.last {
            delay
        } else if now - self.last >= delay {
            0
        } else {
            delay - (now - self.last)
        }
    }
}

} // verus!
