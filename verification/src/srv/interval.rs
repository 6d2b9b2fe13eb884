//! Interval of a number of ticks.
use vstd::prelude::*;

use super::clock::GameTime;
use super::MS_PER_TICK;

verus! {

/// Fires once every `ticks` ticks of game time.
#[derive(Debug)]
pub struct GameInterval {
    last_update: GameTime,
    ticks: u64,
}

impl GameInterval {
    pub closed spec fn spec_last_update(&self) -> GameTime {
        self.last_update
    }

    pub closed spec fn spec_ticks(&self) -> u64 {
        self.ticks
    }

    /// An interval of `ticks` ticks, last fired at time zero.
    pub fn new(ticks: u64) -> (r: Self)
        ensures
            r.spec_last_update()@ == 0,
            r.spec_ticks() == ticks,
    {
        GameInterval { last_update: GameTime::default(), ticks }
    }

    /// When the interval last fired.
    pub fn last_update(&self) -> (r: GameTime)
        ensures
            r == self.spec_last_update(),
    {
        self.last_update
    }

    /// Restarts the interval at `t`.
    pub fn reset(&mut self, t: GameTime)
        ensures
            final(self).spec_last_update() == t,
            final(self).spec_ticks() == old(self).spec_ticks(),
    {
        self.last_update = t;
    }

    /// Fires, and restarts at `t`, when at least `ticks` whole ticks have
    /// passed since it last fired.
    pub fn update(&mut self, t: GameTime) -> (r: bool)
        requires
            old(self).spec_last_update()@ <= t@,
        ensures
            r == ((t@ - old(self).spec_last_update()@) / MS_PER_TICK as int >= old(
                self,
            ).spec_ticks()),
            r ==> final(self).spec_last_update() == t,
            !r ==> final(self).spec_last_update() == old(self).spec_last_update(),
            final(self).spec_ticks() == old(self).spec_ticks(),
    {
        if self.last_update.delta(t).ticks() >= self.ticks {
            self.last_update = t;
            true
        } else {
            false
        }
    }
}

} // verus!
