//! The pausable simulation clock gate.
//!
//! Explicit shared state with `pause`, `unpause` and `is_paused` as its
//! whole contract. The motion resolver may toggle it as a side channel, but
//! no resolution step reads it: a tick's outcome is the same whether or not
//! physics time is flowing.

use vstd::prelude::*;

verus! {

/// A pausable physics time source.
#[derive(Clone, Copy, PartialEq, Eq, Structural, Debug)]
pub struct SimulationClock {
    paused: bool,
}

impl SimulationClock {
    /// Whether the clock is currently paused.
    pub closed spec fn spec_paused(self) -> bool {
        self.paused
    }

    /// A running clock.
    pub fn new() -> (c: SimulationClock)
        ensures
            !c.spec_paused(),
    {
        SimulationClock { paused: false }
    }

    /// Stop physics time.
    pub fn pause(&mut self)
        ensures
            final(self).spec_paused(),
    {
        self.paused = true;
    }

    /// Resume physics time.
    pub fn unpause(&mut self)
        ensures
            !final(self).spec_paused(),
    {
        self.paused = false;
    }

    /// Whether physics time is stopped.
    pub fn is_paused(&self) -> (r: bool)
        ensures
            r == self.spec_paused(),
    {
        self.paused
    }

    /// Flip the pause state, the debug affordance bound to a key edge.
    pub fn toggle(&mut self)
        ensures
            final(self).spec_paused() == !old(self).spec_paused(),
    {
        self.paused = !self.paused;
    }
}

} // verus!
