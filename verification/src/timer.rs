//! When a checkpoint is due.

use vstd::prelude::*;

verus! {

/// Sixty seconds, in the nanoseconds in which times are given.
pub const DEFAULT_CHECKPOINT_INTERVAL: u64 = 60_000_000_000;

/// The policy that decides when progress is saved: a checkpoint is due once
/// more than `interval` has passed since the last one. Times are readings of
/// a monotonic clock in nanoseconds; the timer never reads a clock itself.
#[derive(Clone, Copy, Debug, PartialEq, Eq)]
pub struct CheckpointTimer {
    /// The time that may pass between two checkpoints.
    pub interval: u64,
    /// When the last checkpoint was saved, or when the timer was started.
    pub last_persist: u64,
}

impl CheckpointTimer {
    /// The time that has passed at `now` since the last checkpoint; none where
    /// the clock reads earlier than it did then.
    pub open spec fn elapsed_at(self, now: u64) -> nat {
        if now >= self.last_persist {
            (now - self.last_persist) as nat
        } else {
            0
        }
    }

    /// Whether a checkpoint is due at `now`.
    pub open spec fn due_at(self, now: u64) -> bool {
        self.elapsed_at(now) > self.interval
    }

    /// The timer after a checkpoint saved at `now`.
    pub open spec fn restarted(self, now: u64) -> CheckpointTimer {
        CheckpointTimer { interval: self.interval, last_persist: now }
    }

    /// A timer with the given interval, started at `now`.
    pub fn new(interval: u64, now: u64) -> (timer: CheckpointTimer)
        ensures
            timer.interval == interval,
            timer.last_persist == now,
    {
        CheckpointTimer { interval, last_persist: now }
    }

    /// Whether a checkpoint is due at `now`.
    pub fn is_due(&self, now: u64) -> (due: bool)
        ensures
            due == self.due_at(now),
    {
        now >= self.last_persist && now - self.last_persist > self.interval
    }

    /// Records that a checkpoint was saved at `now`.
    pub fn reset(&mut self, now: u64)
        ensures
            *final(self) == old(self).restarted(now),
    {
        self.last_persist = now;
    }
}

} // verus!
