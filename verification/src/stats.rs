//! What a capture socket has counted since the daemon came up.

use vstd::prelude::*;

use crate::capture::CaptureStats;

verus! {

/// How often the counters are reported, in milliseconds.
pub const STATS_INTERVAL_MILLIS: u64 = 60_000;

/// All that was counted.
#[derive(Debug, Clone, Copy, PartialEq, Eq, Structural)]
pub struct StatsTotals {
    pub packets: u64,
    pub drops: u64,
}

/// The sum, or the largest number where that is larger.
pub open spec fn saturating(a: u64, b: u32) -> u64 {
    if a + b > u64::MAX {
        u64::MAX
    } else {
        (a + b) as u64
    }
}

impl StatsTotals {
    /// Nothing yet.
    pub fn new() -> (r: StatsTotals)
        ensures
            r == (StatsTotals { packets: 0, drops: 0 }),
    {
        StatsTotals { packets: 0, drops: 0 }
    }

    /// Whether it is time for a report, so many milliseconds after the last.
    pub fn is_due(elapsed_millis: u64) -> (r: bool)
        ensures
            r == (elapsed_millis >= STATS_INTERVAL_MILLIS),
    {
        elapsed_millis >= STATS_INTERVAL_MILLIS
    }

    /// Adds what was counted since the last report. The result is how many packets
    /// came by in all, taken and dropped, but at least one, to relate the drops to.
    pub fn count(&mut self, s: CaptureStats) -> (r: u64)
        ensures
            *final(self) == (StatsTotals {
                packets: saturating(old(self).packets, s.packets),
                drops: saturating(old(self).drops, s.drops),
            }),
            r == (if s.packets + s.drops == 0 {
                1
            } else {
                s.packets + s.drops
            }),
    {
        self.packets = self.packets.saturating_add(s.packets as u64);
        self.drops = self.drops.saturating_add(s.drops as u64);
        let sum: u64 = s.packets as u64 + s.drops as u64;
        if sum == 0 {
            1
        } else {
            sum
        }
    }
}

/// Counting adds up, and stays at the largest number there is once it is reached. Reports
/// are a minute apart.
pub proof fn law_counting_adds_up(a: u64, b: u32)
    ensures
        a + b <= u64::MAX ==> saturating(a, b) == a + b,
        a + b > u64::MAX ==> saturating(a, b) == u64::MAX,
        saturating(a, b) >= a,
        STATS_INTERVAL_MILLIS == 60_000,
{
}

} // verus!
