//! Iteration-limit tiers.
//!
//! The escape-time search depth is chosen from a small set of named tiers,
//! each standing for a fixed positive integer. The numeric kernel never sees
//! the tier itself, only the resolved integer.

use vstd::prelude::*;

verus! {

/// A named tier for the escape-time iteration limit.
#[derive(Clone, Copy, Debug, PartialEq, Eq, Structural)]
pub enum Limit {
    VeryLow,
    Low,
    Medium,
    High,
}

impl Limit {
    /// The integer iteration count that this tier stands for.
    pub open spec fn spec_value(self) -> usize {
        match self {
            Limit::VeryLow => 128,
            Limit::Low => 256,
            Limit::Medium => 512,
            Limit::High => 1024,
        }
    }

    /// Resolves the tier to its iteration count.
    pub fn value(&self) -> (v: usize)
        ensures
            v == self.spec_value(),
            128 <= v <= 1024,
    {
        match *self {
            Limit::VeryLow => 128,
            Limit::Low => 256,
            Limit::Medium => 512,
            Limit::High => 1024,
        }
    }
}

} // verus!
