//! Per-generation timing statistics.

use vstd::prelude::*;

verus! {

/// Wall-clock statistics of one generation's iterations, in nanoseconds.
///
/// While a generation is being measured, `avg` accumulates the sum of all
/// elapsed durations; it becomes the average only once the generation is
/// finalized by dividing through the iteration count.
#[derive(Debug, Clone, Copy, PartialEq, Eq, Structural)]
pub struct Run {
    /// Shortest observed duration.
    pub min: u64,
    /// Longest observed duration.
    pub max: u64,
    /// Running sum of durations during measurement; average afterwards.
    pub avg: u64,
    /// Total element count of the generation's arguments.
    pub len: usize,
}

impl Run {
    /// The statistics after folding in one more elapsed duration: `min` and
    /// `max` track the extremes and `avg` accumulates the sum, saturating at
    /// the largest representable duration.
    pub open spec fn updated(self, duration: u64) -> Run {
        Run {
            min: if duration < self.min {
                duration
            } else {
                self.min
            },
            max: if duration > self.max {
                duration
            } else {
                self.max
            },
            avg: if self.avg + duration > u64::MAX {
                u64::MAX
            } else {
                (self.avg + duration) as u64
            },
            len: self.len,
        }
    }

    /// Folds one elapsed duration into the statistics.
    pub fn update(&mut self, duration: u64)
        ensures
            *final(self) == old(self).updated(duration),
    {
        if duration < self.min {
            self.min = duration;
        }
        if duration > self.max {
            self.max = duration;
        }
        self.avg = self.avg.saturating_add(duration);
    }
}

impl Default for Run {
    /// Statistics ready to fold durations into: `min` starts at the largest
    /// duration, `max` and the running sum at zero.
    fn default() -> (r: Run)
        ensures
            r.min == u64::MAX,
            r.max == 0,
            r.avg == 0,
            r.len == 0,
    {
        Run { min: u64::MAX, max: 0, avg: 0, len: 0 }
    }
}

} // verus!
