//! An acknowledged counter: it issues sequential numbers eagerly, while
//! its externally visible watermark advances only over a contiguous
//! prefix of acknowledged numbers, acknowledgments arriving in any
//! order.

use vstd::prelude::*;

use vstd::arithmetic::div_mod::lemma_fundamental_div_mod;
use vstd::arithmetic::div_mod::lemma_mod_add_multiples_vanish;

use crate::generator::{AckError, AcknowledgedCounter, Counter, Generator};

verus! {

/// Number of slots in the acknowledgment window: at most this many
/// numbers may be in flight (issued but not yet below the watermark) at
/// once.
pub const WINDOW_SIZE: usize = 0x100000;

/// Two nonnegative numbers less than a window apart and with the same
/// window slot are the same number.
proof fn lemma_same_slot(a: int, b: int)
    requires
        a % (WINDOW_SIZE as int) == b % (WINDOW_SIZE as int),
        0 <= a,
        0 <= b,
        a - b < WINDOW_SIZE,
        b - a < WINDOW_SIZE,
    ensures
        a == b,
{
    let ws = WINDOW_SIZE as int;
    lemma_fundamental_div_mod(a, ws);
    lemma_fundamental_div_mod(b, ws);
    let qa = a / ws;
    let qb = b / ws;
    assert(a - b == ws * (qa - qb));
    assert(qa == qb) by (nonlinear_arith)
        requires
            a - b == ws * (qa - qb),
            a - b < ws,
            b - a < ws,
            ws == 0x100000,
    ;
}

/// Issues a sequence of numbers, and separately tracks which issued
/// numbers have completed, exposing as its last value the watermark
/// below which every issued number has been acknowledged.
#[derive(Debug)]
pub struct AcknowledgedUsizeCounter {
    /// The next number to issue.
    pub counter: usize,
    /// One slot per in-flight number: true once the number has been
    /// acknowledged but before the watermark has moved past it.
    pub windows: Vec<bool>,
    /// The watermark: every issued number at or below it is
    /// acknowledged.
    pub limit: usize,
}

impl AcknowledgedUsizeCounter {
    /// Structural soundness: the window has its fixed size, the
    /// watermark trails the issue counter, and no slot of a number that
    /// has not been issued yet is marked.
    pub open spec fn wf(&self) -> bool {
        &&& self.windows@.len() == WINDOW_SIZE
        &&& self.counter >= 1
        &&& self.limit < self.counter
        &&& forall|v: int|
            self.counter <= v <= self.limit + WINDOW_SIZE ==> !self.windows@[#[trigger] (v % (
            WINDOW_SIZE as int))]
    }

    /// `v` counts as acknowledged: it sits at or below the watermark,
    /// or it is marked in the window, pending a watermark advance.
    pub open spec fn is_acked(&self, v: int) -> bool {
        v <= self.limit || (v <= self.limit + WINDOW_SIZE && self.windows@[v % (
        WINDOW_SIZE as int)])
    }

    /// How one successful acknowledgment of `v` transforms the counter:
    /// exactly `v` joins the acknowledged set, the issue counter stands
    /// still, and the watermark advances through the acknowledged
    /// prefix, stopping at the first gap or after a window's width.
    pub open spec fn ack_ok_transition(
        pre: AcknowledgedUsizeCounter,
        post: AcknowledgedUsizeCounter,
        v: int,
    ) -> bool {
        &&& post.counter == pre.counter
        &&& pre.limit <= post.limit < pre.limit + WINDOW_SIZE
        &&& forall|u: int| post.is_acked(u) <==> (pre.is_acked(u) || u == v)
        &&& (post.limit == pre.limit + WINDOW_SIZE - 1 || !post.is_acked(post.limit + 1))
    }

    /// Create a counter whose first issued number will be `start`, with
    /// a watermark just below it and an empty window.
    pub fn new(start: usize) -> (r: AcknowledgedUsizeCounter)
        requires
            start >= 1,
        ensures
            r.counter == start,
            r.limit == start - 1,
            r.wf(),
            forall|u: int| r.is_acked(u) <==> u <= start - 1,
    {
        let mut windows: Vec<bool> = Vec::new();
        let mut i: usize = 0;
        while i < WINDOW_SIZE
            invariant
                0 <= i <= WINDOW_SIZE,
                windows@.len() == i,
                forall|j: int| 0 <= j < i ==> !windows@[j],
            decreases WINDOW_SIZE - i,
        {
            windows.push(false);
            i = i + 1;
        }
        AcknowledgedUsizeCounter { counter: start, windows, limit: start - 1 }
    }
}

impl Generator for AcknowledgedUsizeCounter {
    type Output = usize;

    open spec fn next_ready(&self) -> bool {
        self.wf() && self.counter < usize::MAX
    }

    fn next(&mut self) -> (r: usize)
        ensures
            r == old(self).counter,
            final(self).counter == old(self).counter + 1,
            final(self).windows == old(self).windows,
            final(self).limit == old(self).limit,
            final(self).wf(),
            forall|u: int| final(self).is_acked(u) == old(self).is_acked(u),
    {
        let r = self.counter;
        self.counter = self.counter + 1;
        r
    }
}

impl Counter for AcknowledgedUsizeCounter {
    open spec fn last_ready(&self) -> bool {
        true
    }

    fn last(&self) -> (r: usize)
        ensures
            r == self.limit,
    {
        self.limit
    }
}

impl AcknowledgedCounter for AcknowledgedUsizeCounter {
    open spec fn ack_ready(&self, val: usize) -> bool {
        &&& self.wf()
        &&& self.limit < val < self.counter
        &&& self.counter + WINDOW_SIZE <= usize::MAX
    }

    fn acknowledge(&mut self, val: usize) -> (r: Result<(), AckError>)
        ensures
            final(self).wf(),
            r matches Err(_) ==> *final(self) == *old(self),
            (r matches Err(_)) == (val > old(self).limit + WINDOW_SIZE || old(self).is_acked(
                val as int,
            )),
            r matches Ok(_) ==> AcknowledgedUsizeCounter::ack_ok_transition(
                *old(self),
                *final(self),
                val as int,
            ),
            final(self).limit >= old(self).limit,
    {
        let ghost pre = *old(self);
        if val - self.limit > WINDOW_SIZE {
            return Err(AckError);
        }
        let slot = val % WINDOW_SIZE;
        if self.windows[slot] {
            return Err(AckError);
        }
        self.windows.set(slot, true);
        proof {
            assert forall|u: int|
                pre.limit < u <= pre.limit + WINDOW_SIZE implies self.windows@[u % (WINDOW_SIZE as int)] == (
            pre.is_acked(u) || u == val) by {
                if u != val && u % (WINDOW_SIZE as int) == (val as int) % (WINDOW_SIZE as int) {
                    lemma_same_slot(u, val as int);
                }
            }
        }
        let stop = self.limit % WINDOW_SIZE;
        let mut index = self.limit + 1;
        loop
            invariant
                self.counter == pre.counter,
                self.limit == pre.limit,
                self.windows@.len() == WINDOW_SIZE,
                pre.wf(),
                pre.limit < val < pre.counter,
                val <= pre.limit + WINDOW_SIZE,
                pre.counter + WINDOW_SIZE <= usize::MAX,
                stop as int == (pre.limit as int) % (WINDOW_SIZE as int),
                pre.limit + 1 <= index <= pre.limit + WINDOW_SIZE,
                forall|u: int|
                    pre.limit < u < index ==> !self.windows@[#[trigger] (u % (WINDOW_SIZE as int))],
                forall|u: int| pre.limit < u < index ==> (#[trigger] pre.is_acked(u) || u == val),
                forall|u: int|
                    index <= u <= pre.limit + WINDOW_SIZE ==> self.windows@[#[trigger] (u % (
                    WINDOW_SIZE as int))] == (pre.is_acked(u) || u == val),
            ensures
                index == pre.limit + WINDOW_SIZE || !(pre.is_acked(index as int) || index == val),
            decreases pre.limit + WINDOW_SIZE - index,
        {
            let s = index % WINDOW_SIZE;
            if s == stop {
                proof {
                    lemma_mod_add_multiples_vanish(pre.limit as int, (WINDOW_SIZE as int));
                    assert((pre.limit + WINDOW_SIZE) % (WINDOW_SIZE as int) == (pre.limit as int) % (WINDOW_SIZE as int));
                    lemma_same_slot(index as int, pre.limit + WINDOW_SIZE);
                }
                break;
            }
            proof {
                if index == pre.limit + WINDOW_SIZE {
                    lemma_mod_add_multiples_vanish(pre.limit as int, (WINDOW_SIZE as int));
                    assert(false);
                }
            }
            if !self.windows[s] {
                break;
            }
            self.windows.set(s, false);
            proof {
                assert forall|u: int|
                    index + 1 <= u <= pre.limit + WINDOW_SIZE implies self.windows@[u % (WINDOW_SIZE as int)] == (
                pre.is_acked(u) || u == val) by {
                    if u % (WINDOW_SIZE as int) == (index as int) % (WINDOW_SIZE as int) {
                        lemma_same_slot(u, index as int);
                    }
                }
            }
            index = index + 1;
        }
        let new_limit = index - 1;
        self.limit = new_limit;
        proof {
            let post = *self;
            assert forall|u: int| post.is_acked(u) <==> (pre.is_acked(u) || u == val) by {
                if u <= pre.limit {
                } else if pre.limit < u < index {
                } else if index <= u <= pre.limit + WINDOW_SIZE {
                    assert(u <= post.limit + WINDOW_SIZE);
                } else if pre.limit + WINDOW_SIZE < u <= post.limit + WINDOW_SIZE {
                    lemma_mod_add_multiples_vanish(u - WINDOW_SIZE, (WINDOW_SIZE as int));
                    assert(!post.windows@[u % (WINDOW_SIZE as int)]);
                } else {
                }
            }
            assert(post.limit < post.counter) by {
                if index > pre.limit + 1 {
                    assert(pre.is_acked(index - 1) || index - 1 == val);
                    if pre.is_acked(index - 1) {
                        if index - 1 > pre.limit {
                            assert(pre.windows@[(index - 1) % (WINDOW_SIZE as int)]);
                            if index - 1 >= pre.counter {
                                assert(!pre.windows@[(index - 1) % (WINDOW_SIZE as int)]);
                            }
                        }
                    }
                }
            }
            assert forall|v: int|
                post.counter <= v <= post.limit + WINDOW_SIZE implies !post.windows@[#[trigger] (v
                % (WINDOW_SIZE as int))] by {
                assert(!(pre.is_acked(v) || v == val));
                assert(!post.is_acked(v));
            }
        }
        Ok(())
    }
}


/// The watermark never passes a gap: a number above the old watermark
/// that is neither previously acknowledged nor the number being
/// acknowledged stays above the new watermark.
pub proof fn lemma_watermark_blocked_by_gap(
    pre: AcknowledgedUsizeCounter,
    post: AcknowledgedUsizeCounter,
    v: int,
    u: int,
)
    requires
        AcknowledgedUsizeCounter::ack_ok_transition(pre, post, v),
        pre.limit < u,
        !pre.is_acked(u),
        u != v,
    ensures
        post.limit < u,
{
    assert(!post.is_acked(u));
}

/// Acknowledging the number just above the watermark always advances
/// it, at least up to that number.
pub proof fn lemma_watermark_advances_over_next(
    pre: AcknowledgedUsizeCounter,
    post: AcknowledgedUsizeCounter,
    v: int,
)
    requires
        AcknowledgedUsizeCounter::ack_ok_transition(pre, post, v),
        v == pre.limit + 1,
    ensures
        post.limit >= v,
{
    if post.limit < v {
        assert(post.limit == pre.limit);
        assert(post.is_acked(v));
        assert(!post.is_acked(post.limit + 1));
    }
}


/// Acknowledging in issue order moves the watermark by exactly one per
/// call: from a state with nothing pending above the watermark,
/// acknowledging the next number lands the watermark on it and leaves
/// nothing pending again, so the advance can repeat.
pub proof fn lemma_in_order_ack_steps_by_one(
    pre: AcknowledgedUsizeCounter,
    post: AcknowledgedUsizeCounter,
    v: int,
)
    requires
        AcknowledgedUsizeCounter::ack_ok_transition(pre, post, v),
        v == pre.limit + 1,
        forall|u: int| u > pre.limit ==> !(#[trigger] pre.is_acked(u)),
    ensures
        post.limit == v,
        forall|u: int| u > post.limit ==> !(#[trigger] post.is_acked(u)),
{
    lemma_watermark_advances_over_next(pre, post, v);
    if post.limit > v {
        assert(post.is_acked(post.limit as int));
        assert(pre.is_acked(post.limit as int) || post.limit == v);
    }
    assert forall|u: int| u > post.limit implies !(#[trigger] post.is_acked(u)) by {
        assert(post.is_acked(u) <==> (pre.is_acked(u) || u == v));
    }
}

} // verus!
