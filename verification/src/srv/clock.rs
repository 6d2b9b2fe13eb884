//! Game time: milliseconds since the clock started.
use vstd::prelude::*;

use super::MS_PER_TICK;
use crate::proto::time::duration_millis;

verus! {

/// `std::time::Duration::as_millis`, truncated to `u64`: the whole
/// milliseconds of `d`, named `duration_millis`.
#[verifier::external_body]
fn duration_as_millis(d: &std::time::Duration) -> (r: u64)
    ensures
        r == duration_millis(*d) as u64,
{
    d.as_millis() as u64
}

/// `a + b`, wrapping at `u64::MAX`.
pub open spec fn spec_wrapping_add(a: u64, b: u64) -> u64 {
    if a + b <= u64::MAX {
        (a + b) as u64
    } else {
        (a + b - 0x1_0000_0000_0000_0000) as u64
    }
}

/// Milliseconds since the clock started.
#[derive(Debug, Clone, Copy, PartialEq, Eq, PartialOrd, Ord, Hash)]
pub struct GameTime(u64);

impl View for GameTime {
    type V = u64;

    closed spec fn view(&self) -> u64 {
        self.0
    }
}

impl Default for GameTime {
    fn default() -> (r: Self)
        ensures
            r@ == 0,
    {
        GameTime(0)
    }
}

impl GameTime {
    /// The time `dur` later, its whole milliseconds (truncated to `u64`)
    /// added with wrapping at `u64::MAX`.
    pub fn add_dur(&self, dur: std::time::Duration) -> (r: Self)
        ensures
            r@ == spec_wrapping_add(self@, duration_millis(dur) as u64),
    {
        GameTime(self.0.wrapping_add(duration_as_millis(&dur)))
    }

    /// The time `ms` milliseconds later.
    pub fn add_ms(&self, ms: u64) -> (r: Self)
        requires
            self@ + ms <= u64::MAX,
        ensures
            r@ == self@ + ms,
    {
        GameTime(self.0 + ms)
    }

    /// Whole ticks elapsed.
    pub fn ticks(&self) -> (r: u64)
        ensures
            r == self@ / MS_PER_TICK,
    {
        self.0 / MS_PER_TICK
    }

    /// The time `ticks` ticks later.
    pub fn add_ticks(&self, ticks: u64) -> (r: Self)
        requires
            self@ + ticks * MS_PER_TICK <= u64::MAX,
        ensures
            r@ == self@ + ticks * MS_PER_TICK,
    {
        self.add_ms(ticks * MS_PER_TICK)
    }

    /// Whether this time is at or past `other`.
    pub fn expired(&self, other: Self) -> (r: bool)
        ensures
            r == (self@ >= other@),
    {
        self.0 >= other.0
    }

    /// Time from this time to the later time `t`.
    pub fn delta(&self, t: Self) -> (r: GameTime)
        requires
            self@ <= t@,
        ensures
            r@ == t@ - self@,
    {
        GameTime(t.0 - self.0)
    }
}

/// Milliseconds to wait for the next tick, when the clock stands at
/// `current` and `elapsed_ms` have passed since it started: none when the
/// next tick is already due.
pub fn wait_duration_ms(current: GameTime, elapsed_ms: u64) -> (r: u64)
    requires
        current@ + MS_PER_TICK <= u64::MAX,
    ensures
        current@ + MS_PER_TICK <= elapsed_ms ==> r == 0,
        current@ + MS_PER_TICK > elapsed_ms ==> r == current@ + MS_PER_TICK - elapsed_ms,
{
    let next = current.0 + MS_PER_TICK;
    if next <= elapsed_ms {
        0
    } else {
        next - elapsed_ms
    }
}

/// A clock handle behind a shared clock that stands at `cur`: when the shared
/// clock is ahead, the handle advances by one tick and reports it.
pub fn try_tick_at(cur: u64, time: &mut GameTime) -> (r: bool)
    requires
        cur + MS_PER_TICK <= u64::MAX,
    ensures
        r == (cur > old(time)@),
        r ==> final(time)@ == old(time)@ + MS_PER_TICK,
        !r ==> final(time)@ == old(time)@,
{
    if cur > time.0 {
        *time = time.add_ms(MS_PER_TICK);
        true
    } else {
        false
    }
}

/// Adding a duration is adding its whole milliseconds, as long as the sum
/// stays below `u64::MAX`: `add_dur(d)` and `add_ms` of `d`'s milliseconds
/// give the same time.
pub proof fn lemma_add_dur_is_add_ms(t: u64, d: std::time::Duration)
    requires
        t + (duration_millis(d) as u64) <= u64::MAX,
    ensures
        spec_wrapping_add(t, duration_millis(d) as u64) == t + (duration_millis(d) as u64),
{
}

} // verus!
