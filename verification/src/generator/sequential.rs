//! A generator cycling through an inclusive range in order.

use vstd::prelude::*;

use crate::generator::Generator;

verus! {

/// Generates the sequence `start + (n mod (end - start + 1))` for an
/// internal tally `n` that starts at `start` and grows by one per draw,
/// wrapping forever over `[start, end]`.
#[derive(Debug, Clone, Copy, PartialEq, Eq, Structural)]
pub struct SequentialUsizeGenerator {
    /// First value of the cycle.
    pub start: usize,
    /// Last value of the cycle (inclusive).
    pub end: usize,
    /// The tally: how many draws have been made, offset by `start`.
    pub val: usize,
}

impl SequentialUsizeGenerator {
    /// The range is not empty and its width fits the machine word.
    pub open spec fn wf(&self) -> bool {
        self.start <= self.end && self.end - self.start < usize::MAX
    }

    /// Creates a sequential generator over `[start, end]` inclusive.
    pub fn new(start: usize, end: usize) -> (r: SequentialUsizeGenerator)
        requires
            start <= end,
            end - start < usize::MAX,
        ensures
            r.start == start,
            r.end == end,
            r.val == start,
            r.wf(),
    {
        SequentialUsizeGenerator { start, end, val: start }
    }
}

impl Generator for SequentialUsizeGenerator {
    type Output = usize;

    open spec fn next_ready(&self) -> bool {
        self.wf()
    }

    fn next(&mut self) -> (r: usize)
        ensures
            final(self).start == old(self).start,
            final(self).end == old(self).end,
            final(self).val == vstd::wrapping::usize_specs::wrapping_add(old(self).val, 1),
            r == old(self).start + (old(self).val as int % (old(self).end - old(self).start + 1)),
    {
        let range = self.end - self.start + 1;
        let offset = self.val % range;
        self.val = self.val.wrapping_add(1);
        self.start + offset
    }
}


/// Within one period of the cycle, different tallies give different
/// values: draws only repeat after the generator has wrapped around the
/// whole range.
pub proof fn lemma_sequential_distinct_within_period(g: SequentialUsizeGenerator, t1: int, t2: int)
    requires
        g.wf(),
        0 <= t1 < t2,
        t2 - t1 < g.end - g.start + 1,
    ensures
        g.start + (t1 % (g.end - g.start + 1)) != g.start + (t2 % (g.end - g.start + 1)),
{
    let m = g.end - g.start + 1;
    if t1 % m == t2 % m {
        vstd::arithmetic::div_mod::lemma_fundamental_div_mod(t1, m);
        vstd::arithmetic::div_mod::lemma_fundamental_div_mod(t2, m);
        let q1 = t1 / m;
        let q2 = t2 / m;
        assert(t2 - t1 == m * (q2 - q1)) by (nonlinear_arith)
            requires
                t1 == m * q1 + (t1 % m),
                t2 == m * q2 + (t2 % m),
                t1 % m == t2 % m,
        ;
        assert(false) by (nonlinear_arith)
            requires
                t2 - t1 == m * (q2 - q1),
                0 < t2 - t1 < m,
        ;
    }
}

} // verus!
