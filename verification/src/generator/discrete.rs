//! A weighted categorical chooser over a discrete set of values.

use vstd::prelude::*;

use crate::generator::Generator;
use crate::rng::rand_u64_below;

verus! {

/// Choice of the generated value of [`DiscreteGenerator`].
#[derive(Debug, Clone, Copy)]
pub struct Choice<T> {
    /// Value to generate.
    pub val: T,
    /// Probability weight of the choice; only the weights' ratios
    /// matter.
    pub weight: u64,
}

/// The sum of the weights of the first `i` choices.
pub open spec fn cum_weight<T>(cs: Seq<Choice<T>>, i: int) -> int
    decreases i,
{
    if i <= 0 {
        0
    } else {
        cum_weight(cs, i - 1) + cs[i - 1].weight
    }
}

/// The sum of all weights.
pub open spec fn weights_total<T>(cs: Seq<Choice<T>>) -> int {
    cum_weight(cs, cs.len() as int)
}

/// Inverse-CDF selection: drawing `t` picks choice `i` exactly when `t`
/// falls between the cumulative weights before and after it, so the
/// first choice whose cumulative weight exceeds the draw wins and a
/// choice of weight zero is never picked.
pub open spec fn is_chosen<T>(cs: Seq<Choice<T>>, t: int, i: int) -> bool {
    &&& 0 <= i < cs.len()
    &&& cum_weight(cs, i) <= t < cum_weight(cs, i + 1)
}

/// Cumulative weights never decrease.
pub proof fn lemma_cum_weight_monotone<T>(cs: Seq<Choice<T>>, i: int, j: int)
    requires
        0 <= i <= j,
    ensures
        cum_weight(cs, i) <= cum_weight(cs, j),
    decreases j - i,
{
    if i < j {
        lemma_cum_weight_monotone(cs, i, j - 1);
    }
}

/// The draw selects at most one choice.
pub proof fn lemma_chosen_unique<T>(cs: Seq<Choice<T>>, t: int, i: int, j: int)
    requires
        is_chosen(cs, t, i),
        is_chosen(cs, t, j),
    ensures
        i == j,
{
    if i < j {
        lemma_cum_weight_monotone(cs, i + 1, j);
    }
    if j < i {
        lemma_cum_weight_monotone(cs, j + 1, i);
    }
}

/// A selected choice always has positive weight.
pub proof fn lemma_chosen_positive_weight<T>(cs: Seq<Choice<T>>, t: int, i: int)
    requires
        is_chosen(cs, t, i),
    ensures
        cs[i].weight > 0,
{
}

/// With a single choice on offer, every draw selects it.
pub proof fn lemma_single_choice_chosen<T>(cs: Seq<Choice<T>>, t: int, i: int)
    requires
        cs.len() == 1,
        is_chosen(cs, t, i),
    ensures
        i == 0,
{
}

/// Appending a choice leaves the earlier cumulative weights unchanged.
proof fn lemma_cum_weight_push<T>(cs: Seq<Choice<T>>, c: Choice<T>, i: int)
    requires
        0 <= i <= cs.len(),
    ensures
        cum_weight(cs.push(c), i) == cum_weight(cs, i),
    decreases i,
{
    if i > 0 {
        lemma_cum_weight_push(cs, c, i - 1);
    }
}

/// Appending a choice adds its weight to the total.
pub proof fn lemma_weights_total_push<T>(cs: Seq<Choice<T>>, c: Choice<T>)
    ensures
        weights_total(cs.push(c)) == weights_total(cs) + c.weight,
{
    lemma_cum_weight_push(cs, c, cs.len() as int);
}


/// Generates a distribution by choosing from a discrete set of values
/// with probability proportional to their weights.
#[derive(Debug, Clone)]
pub struct DiscreteGenerator<T> {
    /// The choices on offer, in construction order.
    pub choices: Vec<Choice<T>>,
    /// The precomputed sum of all weights.
    pub sum: u64,
}

impl<T> DiscreteGenerator<T> {
    /// The stored sum is the actual total of the weights.
    pub open spec fn wf(&self) -> bool {
        self.sum == weights_total(self.choices@)
    }

    /// Create a generator that draws from a discrete set of values.
    pub fn new(choices: Vec<Choice<T>>) -> (r: DiscreteGenerator<T>)
        requires
            weights_total(choices@) <= u64::MAX,
        ensures
            r.choices == choices,
            r.sum == weights_total(choices@),
            r.wf(),
    {
        let n = choices.len();
        let mut sum: u64 = 0;
        let mut i: usize = 0;
        while i < n
            invariant
                n == choices@.len(),
                0 <= i <= n,
                weights_total(choices@) <= u64::MAX,
                sum == cum_weight(choices@, i as int),
            decreases n - i,
        {
            proof {
                lemma_cum_weight_monotone(choices@, i + 1, n as int);
            }
            sum = sum + choices[i].weight;
            i = i + 1;
        }
        DiscreteGenerator { choices, sum }
    }
}

impl<T: Copy> Generator for DiscreteGenerator<T> {
    type Output = T;

    open spec fn next_ready(&self) -> bool {
        self.wf() && self.sum > 0
    }

    fn next(&mut self) -> (r: T)
        ensures
            *final(self) == *old(self),
            exists|t: int, i: int|
                0 <= t < old(self).sum && is_chosen(old(self).choices@, t, i) && r == old(
                    self,
                ).choices@[i].val,
    {
        let target = rand_u64_below(self.sum);
        let n = self.choices.len();
        let mut acc: u64 = 0;
        let mut i: usize = 0;
        while i < n
            invariant
                n == self.choices@.len(),
                self.wf(),
                0 <= i <= n,
                target < self.sum,
                acc == cum_weight(self.choices@, i as int),
                acc <= target,
            decreases n - i,
        {
            proof {
                lemma_cum_weight_monotone(self.choices@, i + 1, n as int);
            }
            let w = self.choices[i].weight;
            if target < acc + w {
                proof {
                    assert(is_chosen(self.choices@, target as int, i as int));
                }
                return self.choices[i].val;
            }
            acc = acc + w;
            i = i + 1;
        }
        proof {
            assert(acc == weights_total(self.choices@));
            assert(false);
        }
        vstd::pervasive::unreached()
    }
}

} // verus!
