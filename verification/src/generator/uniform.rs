//! A generator drawing uniformly from an inclusive range.

use vstd::prelude::*;

use crate::generator::Generator;
use crate::rng::rand_usize_between;

verus! {

/// A generator that returns values drawn uniformly at random from the
/// inclusive interval `[lower_bound, upper_bound]`.
#[derive(Debug, Clone, Copy, PartialEq, Eq, Structural)]
pub struct UniformUsizeGenerator {
    /// Smallest value that can be drawn.
    pub lower_bound: usize,
    /// Largest value that can be drawn.
    pub upper_bound: usize,
}

impl UniformUsizeGenerator {
    /// The interval is not empty.
    pub open spec fn wf(&self) -> bool {
        self.lower_bound <= self.upper_bound
    }

    /// Creates a generator drawing uniformly from
    /// `[lower_bound, upper_bound]` inclusive (both bounds are possible
    /// values).
    pub fn new(lower_bound: usize, upper_bound: usize) -> (r: UniformUsizeGenerator)
        requires
            lower_bound <= upper_bound,
        ensures
            r.lower_bound == lower_bound,
            r.upper_bound == upper_bound,
            r.wf(),
    {
        UniformUsizeGenerator { lower_bound, upper_bound }
    }
}

impl Generator for UniformUsizeGenerator {
    type Output = usize;

    open spec fn next_ready(&self) -> bool {
        self.wf()
    }

    fn next(&mut self) -> (r: usize)
        ensures
            *final(self) == *old(self),
            old(self).lower_bound <= r <= old(self).upper_bound,
    {
        rand_usize_between(self.lower_bound, self.upper_bound)
    }
}

} // verus!
