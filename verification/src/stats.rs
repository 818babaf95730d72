//! Session statistics.
//!
//! Speeds are whole pixels per second; transit times are whole nanoseconds.
//! The smallest speed and time seen are kept as `u32::MAX` / `u64::MAX`
//! until a first value is recorded.

use vstd::prelude::*;

verus! {

pub struct Statistics {
    /// Vehicles that have left the screen.
    pub total_passed: usize,
    /// Largest value `total_passed` has reached.
    pub max_passed: usize,
    /// Frames in which a pair of vehicles on different lanes came close.
    pub close_calls: usize,
    /// Pairs of vehicles on different lanes that collided.
    pub crashes: usize,
    /// Highest top speed of a vehicle that crossed the intersection.
    pub max_spd: u32,
    /// Lowest moving speed of a vehicle that crossed the intersection.
    pub min_spd: u32,
    /// Longest transit through the intersection box, in nanoseconds.
    pub max_time: u64,
    /// Shortest transit through the intersection box, in nanoseconds.
    pub min_time: u64,
    /// Sum of the top speeds recorded.
    pub vel_sum: u64,
    /// Number of top speeds recorded.
    pub vel_count: usize,
}

impl Statistics {
    /// The statistics of a session in which nothing has happened yet.
    pub open spec fn initial() -> Statistics {
        Statistics {
            total_passed: 0,
            max_passed: 0,
            close_calls: 0,
            crashes: 0,
            max_spd: 0,
            min_spd: u32::MAX,
            max_time: 0,
            min_time: u64::MAX,
            vel_sum: 0,
            vel_count: 0,
        }
    }

    /// What recording the top speed `mx` and lowest speed `mn` of a vehicle
    /// makes of `self`.
    pub open spec fn with_speeds(self, mx: u32, mn: u32) -> Statistics {
        Statistics {
            max_spd: if mx > self.max_spd { mx } else { self.max_spd },
            min_spd: if mn < self.min_spd { mn } else { self.min_spd },
            vel_sum: (self.vel_sum + mx) as u64,
            vel_count: (self.vel_count + 1) as usize,
            ..self
        }
    }

    /// What recording the transit time `t` makes of `self`.
    pub open spec fn with_time(self, t: u64) -> Statistics {
        Statistics {
            max_time: if t > self.max_time { t } else { self.max_time },
            min_time: if t < self.min_time { t } else { self.min_time },
            ..self
        }
    }

    /// The counters can take in a frame with `n` vehicles on the road
    /// without overflowing: `n` passes and speed records, `n * n` close
    /// calls and `n` crashes.
    pub open spec fn has_room(self, n: int) -> bool {
        &&& self.total_passed + n <= usize::MAX
        &&& self.vel_count + n <= usize::MAX
        &&& self.vel_sum + n * (u32::MAX as int) <= u64::MAX
        &&& self.close_calls + n * n <= usize::MAX
        &&& self.crashes + n <= usize::MAX
    }

    /// What `d` more vehicles leaving the road make of the pass counters:
    /// `max_passed` follows `total_passed` upwards.
    pub open spec fn with_passed(self, d: int) -> Statistics {
        Statistics {
            total_passed: (self.total_passed + d) as usize,
            max_passed: if d <= 0 {
                self.max_passed
            } else if self.max_passed >= self.total_passed + d {
                self.max_passed
            } else {
                (self.total_passed + d) as usize
            },
            ..self
        }
    }

    /// Whether the counters can take in a frame with `n` vehicles.
    pub fn has_room_for(&self, n: usize) -> (r: bool)
        ensures
            r == self.has_room(n as int),
    {
        let n128 = n as u128;
        assert(n128 * n128 <= 0xffff_ffff_ffff_ffffu128 * 0xffff_ffff_ffff_ffffu128) by (nonlinear_arith)
            requires n128 <= 0xffff_ffff_ffff_ffffu128;
        let sq = n128 * n128;
        (self.total_passed as u128) + n128 <= usize::MAX as u128
            && (self.vel_count as u128) + n128 <= usize::MAX as u128
            && (self.vel_sum as u128) + n128 * (u32::MAX as u128) <= u64::MAX as u128
            && (self.close_calls as u128) + sq <= usize::MAX as u128
            && (self.crashes as u128) + n128 <= usize::MAX as u128
    }

    pub fn new() -> (s: Statistics)
        ensures
            s == Statistics::initial(),
    {
        Statistics {
            total_passed: 0,
            max_passed: 0,
            close_calls: 0,
            crashes: 0,
            max_spd: 0,
            min_spd: u32::MAX,
            max_time: 0,
            min_time: u64::MAX,
            vel_sum: 0,
            vel_count: 0,
        }
    }

    /// Records the top speed `mx` and the lowest speed `mn` of a vehicle
    /// that has crossed the intersection.
    pub fn record_spd(&mut self, mx: u32, mn: u32)
        requires
            old(self).vel_sum + mx <= u64::MAX,
            old(self).vel_count < usize::MAX,
        ensures
            *final(self) == old(self).with_speeds(mx, mn),
    {
        if mx > self.max_spd {
            self.max_spd = mx;
        }
        if mn < self.min_spd {
            self.min_spd = mn;
        }
        self.vel_sum = self.vel_sum + mx as u64;
        self.vel_count = self.vel_count + 1;
    }

    /// Records the time `t` (nanoseconds) a vehicle spent in the
    /// intersection box.
    pub fn record_time(&mut self, t: u64)
        ensures
            *final(self) == old(self).with_time(t),
    {
        if t > self.max_time {
            self.max_time = t;
        }
        if t < self.min_time {
            self.min_time = t;
        }
    }

    /// The lowest speed recorded, or 0 when none has been.
    pub fn min_spd_disp(&self) -> (s: u32)
        ensures
            s == (if self.min_spd == u32::MAX { 0 } else { self.min_spd }),
    {
        if self.min_spd == u32::MAX { 0 } else { self.min_spd }
    }

    /// The shortest transit time recorded, or 0 when none has been.
    pub fn min_time_disp(&self) -> (t: u64)
        ensures
            t == (if self.min_time == u64::MAX { 0 } else { self.min_time }),
    {
        if self.min_time == u64::MAX { 0 } else { self.min_time }
    }
}

/// Recording a vehicle's speeds keeps the extremes and the running sum:
/// the highest speed becomes the larger of the old one and `mx`, the lowest
/// the smaller of the old one and `mn`, `vel_sum` grows by `mx` and
/// `vel_count` by one; nothing else changes. Recording a transit time `t`
/// does the same for the longest and shortest times only.
pub proof fn lemma_records(s: Statistics, mx: u32, mn: u32, t: u64)
    requires
        s.vel_sum + mx <= u64::MAX,
        s.vel_count < usize::MAX,
    ensures
        ({
            let a = s.with_speeds(mx, mn);
            &&& a.max_spd >= mx && a.max_spd >= s.max_spd && (a.max_spd == mx || a.max_spd == s.max_spd)
            &&& a.min_spd <= mn && a.min_spd <= s.min_spd && (a.min_spd == mn || a.min_spd == s.min_spd)
            &&& a.vel_sum == s.vel_sum + mx
            &&& a.vel_count == s.vel_count + 1
            &&& a.total_passed == s.total_passed && a.max_passed == s.max_passed
            &&& a.close_calls == s.close_calls && a.crashes == s.crashes
            &&& a.max_time == s.max_time && a.min_time == s.min_time
        }),
        ({
            let b = s.with_time(t);
            &&& b.max_time >= t && b.max_time >= s.max_time && (b.max_time == t || b.max_time == s.max_time)
            &&& b.min_time <= t && b.min_time <= s.min_time && (b.min_time == t || b.min_time == s.min_time)
            &&& b == Statistics { max_time: b.max_time, min_time: b.min_time, ..s }
        }),
{
}

} // verus!
