//! A generator that always produces the same value.

use vstd::prelude::*;

use crate::generator::Generator;

verus! {

/// A trivial numeric generator that always returns the same value.
#[derive(Debug, Clone, Copy, PartialEq, Eq, Structural)]
pub struct ConstantUsizeGenerator {
    /// The value every draw returns.
    pub val: usize,
}

impl ConstantUsizeGenerator {
    /// Creates a trivial numeric generator that always returns `val`.
    pub fn new(val: usize) -> (r: ConstantUsizeGenerator)
        ensures
            r.val == val,
    {
        ConstantUsizeGenerator { val }
    }
}

impl Generator for ConstantUsizeGenerator {
    type Output = usize;

    open spec fn next_ready(&self) -> bool {
        true
    }

    fn next(&mut self) -> (r: usize)
        ensures
            *final(self) == *old(self),
            r == old(self).val,
    {
        self.val
    }
}

} // verus!
