//! A rate limiter for generation advancement: at most `gens_per_sec`
//! ticks per second, with the rate adjustable at run time.
//!
//! The decision logic is a pure function of the clock reading; only the
//! reading itself comes from the system clock.

use vstd::prelude::*;

verus! {

/// Relies on std::time::SystemTime: `now` followed by `duration_since`
/// the unix epoch gives the wall clock as a duration, here truncated to
/// nanoseconds; a clock before the epoch reads as zero.  Nothing can be
/// promised of a clock reading.
#[verifier::external_body]
fn now_nanos() -> (r: u64) {
    match std::time::SystemTime::now().duration_since(std::time::SystemTime::UNIX_EPOCH) {
        Ok(d) => d.as_nanos() as u64,
        Err(_) => 0,
    }
}

/// The tick interval, in nanoseconds, for a given rate.
pub open spec fn spec_target(gens_per_sec: u32) -> int {
    1_000_000_000int / gens_per_sec as int
}

/// Paces generations: `tick` answers true at most once per interval.
#[derive(Clone, Copy, Debug, PartialEq, Eq, Structural)]
pub struct GenerationTimer {
    pub gens_per_sec: u32,
    pub target_nanos: u64,
    pub last_tick_nanos: u64,
}

/// Whether a timer fires at clock reading `now`: more than one interval
/// has passed since the last tick.  A clock that ran backwards never
/// fires.
pub open spec fn spec_tick_fires(t: GenerationTimer, now: u64) -> bool {
    now >= t.last_tick_nanos && now - t.last_tick_nanos > t.target_nanos
}

/// The timer after a tick attempt at clock reading `now`: the tick time
/// is taken when the timer fires, and nothing changes otherwise.
pub open spec fn spec_tick(t: GenerationTimer, now: u64) -> GenerationTimer {
    if spec_tick_fires(t, now) {
        GenerationTimer { last_tick_nanos: now, ..t }
    } else {
        t
    }
}

impl GenerationTimer {
    /// A timer at the given rate that is immediately due to fire.
    pub fn new(gens_per_sec: u32) -> (t: GenerationTimer)
        requires
            gens_per_sec >= 1,
        ensures
            t.gens_per_sec == gens_per_sec,
            t.target_nanos == spec_target(gens_per_sec),
            t.last_tick_nanos == 0,
    {
        GenerationTimer {
            gens_per_sec,
            target_nanos: 1_000_000_000u64 / (gens_per_sec as u64),
            last_tick_nanos: 0,
        }
    }

    /// One tick attempt against the supplied clock reading: fires, and
    /// takes the reading as the new tick time, exactly when more than one
    /// interval has passed.
    pub fn tick_at(&mut self, now: u64) -> (fired: bool)
        ensures
            *final(self) == spec_tick(*old(self), now),
            fired == spec_tick_fires(*old(self), now),
    {
        if now >= self.last_tick_nanos && now - self.last_tick_nanos > self.target_nanos {
            self.last_tick_nanos = now;
            true
        } else {
            false
        }
    }

    /// One tick attempt against the system clock.  Whatever the clock
    /// reads, the outcome is `tick_at` of some reading.
    pub fn tick(&mut self) -> (fired: bool)
        ensures
            exists|now: u64|
                *final(self) == spec_tick(*old(self), now) && fired == spec_tick_fires(
                    *old(self),
                    now,
                ),
    {
        let now = now_nanos();
        let fired = self.tick_at(now);
        proof {
            assert(*self == spec_tick(*old(self), now) && fired == spec_tick_fires(
                *old(self),
                now,
            ));
        }
        fired
    }

    /// Raises the rate by one tick per second and shortens the interval
    /// accordingly.
    pub fn inc_rate(&mut self)
        requires
            old(self).gens_per_sec < u32::MAX,
        ensures
            final(self).gens_per_sec == old(self).gens_per_sec + 1,
            final(self).target_nanos == spec_target((old(self).gens_per_sec + 1) as u32),
            final(self).last_tick_nanos == old(self).last_tick_nanos,
    {
        self.gens_per_sec = self.gens_per_sec + 1;
        self.target_nanos = 1_000_000_000u64 / (self.gens_per_sec as u64);
    }

    /// Lowers the rate by one tick per second, stopping at one.
    pub fn dec_rate(&mut self)
        ensures
            old(self).gens_per_sec > 1 ==> final(self).gens_per_sec == old(self).gens_per_sec - 1
                && final(self).target_nanos == spec_target((old(self).gens_per_sec - 1) as u32)
                && final(self).last_tick_nanos == old(self).last_tick_nanos,
            old(self).gens_per_sec <= 1 ==> *final(self) == *old(self),
    {
        if self.gens_per_sec > 1 {
            self.gens_per_sec = self.gens_per_sec - 1;
            self.target_nanos = 1_000_000_000u64 / (self.gens_per_sec as u64);
        }
    }
}

} // verus!
