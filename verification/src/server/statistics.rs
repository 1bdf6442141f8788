//! Durations of the server's cycles.
use vstd::prelude::*;

verus! {

/// Average and longest duration of a cycle, in milliseconds.
#[derive(Debug, Clone, Copy, PartialEq, Eq, Structural)]
pub struct CycleStatistics {
    pub max_cycle_time: u128,
    pub avg_cycle_time: u128,
}

/// The average after a cycle: the first duration, then the mean of the
/// previous average and the new duration.
pub open spec fn next_average(avg: u128, duration: u128) -> int {
    if avg == 0 {
        duration as int
    } else {
        (avg + duration) / 2
    }
}

impl CycleStatistics {
    pub fn new() -> (r: CycleStatistics)
        ensures
            r.max_cycle_time == 0,
            r.avg_cycle_time == 0,
    {
        CycleStatistics { max_cycle_time: 0, avg_cycle_time: 0 }
    }

    /// Account for a cycle that lasted `duration` milliseconds; the server
    /// sleeps a millisecond after a cycle shorter than 2 milliseconds.
    pub fn on_cycle(&mut self, duration: u128) -> (sleep: bool)
        requires
            old(self).avg_cycle_time + duration <= u128::MAX,
        ensures
            sleep == (duration < 2),
            final(self).avg_cycle_time == next_average(old(self).avg_cycle_time, duration),
            final(self).max_cycle_time == if old(self).max_cycle_time >= duration {
                old(self).max_cycle_time
            } else {
                duration
            },
    {
        if self.avg_cycle_time == 0 {
            self.avg_cycle_time = duration;
        } else {
            self.avg_cycle_time = (self.avg_cycle_time + duration) / 2;
        }
        if duration > self.max_cycle_time {
            self.max_cycle_time = duration;
        }
        duration < 2
    }
}

} // verus!
