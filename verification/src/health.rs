//! Destructible-target hit counting.
//!
//! Health is a nonnegative hit count. Taking damage decrements it; a
//! decrement that would drive it negative instead asks for the entity's
//! removal, so a negative count is never observable.

use vstd::prelude::*;

verus! {

/// A destructible target's remaining hit count.
#[derive(Clone, Copy, PartialEq, Eq, Structural, Debug)]
pub struct Health(pub u32);

impl Health {
    /// Take one hit. Returns the decremented count, or `None` exactly when
    /// the decrement would go below zero — the caller must then remove the
    /// owning entity in the same tick, leaving the negative value
    /// unobservable.
    pub fn take_hit(self) -> (r: Option<Health>)
        ensures
            self.0 >= 1 ==> r == Some(Health((self.0 - 1) as u32)),
            self.0 == 0 ==> r is None,
    {
        if self.0 >= 1 {
            Some(Health(self.0 - 1))
        } else {
            None
        }
    }
}

} // verus!
