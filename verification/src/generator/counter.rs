//! A monotonic counter generator.

use vstd::prelude::*;

use crate::generator::{Counter, Generator};

verus! {

/// Issues `start, start + 1, start + 2, ...` with no wraparound.
#[derive(Debug, Clone, Copy, PartialEq, Eq, Structural)]
pub struct UsizeCounter {
    /// The next value to issue.
    pub counter: usize,
}

impl UsizeCounter {
    /// Create a counter that starts at `start`.
    pub fn new(start: usize) -> (r: UsizeCounter)
        ensures
            r.counter == start,
    {
        UsizeCounter { counter: start }
    }
}

impl Generator for UsizeCounter {
    type Output = usize;

    open spec fn next_ready(&self) -> bool {
        self.counter < usize::MAX
    }

    fn next(&mut self) -> (r: usize)
        ensures
            r == old(self).counter,
            final(self).counter == old(self).counter + 1,
    {
        let r = self.counter;
        self.counter = self.counter + 1;
        r
    }
}

impl Counter for UsizeCounter {
    open spec fn last_ready(&self) -> bool {
        self.counter >= 1
    }

    fn last(&self) -> (r: usize)
        ensures
            r == self.counter - 1,
    {
        self.counter - 1
    }
}


/// Consecutive draws of a counter return consecutive, distinct values,
/// and the last reported value tracks the most recent draw: `r1` and
/// `r2` are the results of two draws in a row.
pub proof fn lemma_counter_draws_increase(
    c0: UsizeCounter,
    r1: usize,
    c1: UsizeCounter,
    r2: usize,
    c2: UsizeCounter,
)
    requires
        r1 == c0.counter,
        c1.counter == c0.counter + 1,
        r2 == c1.counter,
        c2.counter == c1.counter + 1,
    ensures
        r2 == r1 + 1,
        r1 != r2,
        c2.counter - 1 == r2,
{
}

} // verus!
