//! A fixed-size sliding window over boolean observations.
//!
//! The window keeps the most recent observations, up to its capacity, together
//! with a running count of the positive ones, so that the share of positive
//! observations is available in constant time.

use std::collections::VecDeque;
use vstd::prelude::*;

verus! {

/// Number of `true` entries of `s`.
pub open spec fn count_true(s: Seq<bool>) -> nat
    decreases s.len(),
{
    if s.len() == 0 {
        0
    } else {
        count_true(s.drop_last()) + if s.last() {
            1nat
        } else {
            0nat
        }
    }
}

/// Contents of a window of the given capacity that held `s`, after `b` was
/// observed: the oldest entry leaves first when the window is full.
pub open spec fn pushed(s: Seq<bool>, capacity: nat, b: bool) -> Seq<bool> {
    if s.len() >= capacity && s.len() > 0 {
        s.drop_first().push(b)
    } else {
        s.push(b)
    }
}

/// Contents of a window of the given capacity that started empty and then saw
/// `observations` in order.
pub open spec fn after_pushes(capacity: nat, observations: Seq<bool>) -> Seq<bool>
    decreases observations.len(),
{
    if observations.len() == 0 {
        Seq::empty()
    } else {
        pushed(after_pushes(capacity, observations.drop_last()), capacity, observations.last())
    }
}

/// The last `capacity` entries of `observations`, or all of them if there are fewer.
pub open spec fn most_recent(capacity: nat, observations: Seq<bool>) -> Seq<bool> {
    if observations.len() <= capacity {
        observations
    } else {
        observations.subrange(observations.len() - capacity, observations.len() as int)
    }
}

/// A share of positive observations, as an exact fraction.
#[derive(Clone, Copy, Debug, PartialEq, Eq)]
pub struct Ratio {
    pub positive: usize,
    pub total: usize,
}

/// Tracks a boolean signal over the most recent `window_size` observations.
pub struct SlidingWindowRatio {
    window: VecDeque<bool>,
    window_size: usize,
    positive_count: usize,
}

impl View for SlidingWindowRatio {
    type V = Seq<bool>;

    /// The observations held, oldest first.
    closed spec fn view(&self) -> Seq<bool> {
        self.window@
    }
}

impl SlidingWindowRatio {
    /// The window is never over its capacity, its capacity is positive, and
    /// the running count is the number of positive observations held.
    pub closed spec fn wf(&self) -> bool {
        &&& self.window_size > 0
        &&& self.window@.len() <= self.window_size
        &&& self.positive_count == count_true(self.window@)
    }

    /// The largest number of observations the window retains.
    pub closed spec fn capacity(&self) -> nat {
        self.window_size as nat
    }

    /// An empty window that retains up to `window_size` observations.
    pub fn new(window_size: usize) -> (w: Self)
        requires
            window_size > 0,
        ensures
            w.wf(),
            w@ == Seq::<bool>::empty(),
            w.capacity() == window_size,
    {
        SlidingWindowRatio {
            window: VecDeque::new(),
            window_size,
            positive_count: 0,
        }
    }

    /// Records one observation; when the window is full the oldest one leaves.
    pub fn push(&mut self, is_positive: bool)
        requires
            old(self).wf(),
        ensures
            final(self).wf(),
            final(self)@ == pushed(old(self)@, old(self).capacity(), is_positive),
            final(self).capacity() == old(self).capacity(),
    {
        proof {
            lemma_count_true_bounded(self.window@);
        }
        let ghost before = self.window@;
        let mut count: usize = self.positive_count;
        if self.window.len() == self.window_size {
            let evicted = self.window.pop_front();
            proof {
                lemma_count_true_drop_first(before);
                assert(self.window@ == before.drop_first());
            }
            if let Some(e) = evicted {
                if e {
                    count = count - 1;
                }
            }
        }
        let ghost kept = self.window@;
        proof {
            lemma_count_true_bounded(kept);
        }
        if is_positive {
            count = count + 1;
        }
        self.window.push_back(is_positive);
        self.positive_count = count;
        proof {
            assert(self.window@.drop_last() == kept);
            assert(self.window@ == pushed(before, self.window_size as nat, is_positive));
        }
    }

    /// The share of positive observations, or `None` for an empty window.
    pub fn ratio(&self) -> (r: Option<Ratio>)
        requires
            self.wf(),
        ensures
            self@.len() == 0 <==> r is None,
            r matches Some(q) ==> q.positive == count_true(self@) && q.total == self@.len(),
    {
        if self.window.len() == 0 {
            None
        } else {
            Some(Ratio { positive: self.positive_count, total: self.window.len() })
        }
    }

    /// Number of observations currently held.
    pub fn count(&self) -> (n: usize)
        requires
            self.wf(),
        ensures
            n == self@.len(),
            n <= self.capacity(),
    {
        self.window.len()
    }

    /// Number of positive observations currently held.
    pub fn positive_count(&self) -> (n: usize)
        requires
            self.wf(),
        ensures
            n == count_true(self@),
            n <= self@.len(),
    {
        proof {
            lemma_count_true_bounded(self.window@);
        }
        self.positive_count
    }

    /// The capacity the window was made with.
    pub fn window_size(&self) -> (n: usize)
        requires
            self.wf(),
        ensures
            n == self.capacity(),
            n > 0,
    {
        self.window_size
    }
}

/// A sequence has at most as many positive entries as entries.
pub proof fn lemma_count_true_bounded(s: Seq<bool>)
    ensures
        count_true(s) <= s.len(),
    decreases s.len(),
{
    if s.len() > 0 {
        lemma_count_true_bounded(s.drop_last());
    }
}

/// Dropping the oldest entry lowers the positive count by one exactly when
/// that entry was positive.
pub proof fn lemma_count_true_drop_first(s: Seq<bool>)
    requires
        s.len() > 0,
    ensures
        count_true(s) == count_true(s.drop_first()) + if s[0] {
            1nat
        } else {
            0nat
        },
    decreases s.len(),
{
    if s.len() == 1 {
        assert(s.drop_first() =~= Seq::<bool>::empty());
        assert(s.drop_last() =~= Seq::<bool>::empty());
    } else {
        lemma_count_true_drop_first(s.drop_last());
        assert(s.drop_last().drop_first() =~= s.drop_first().drop_last());
    }
}

/// After any sequence of observations a window holds exactly the most recent
/// ones, in order, up to its capacity: eviction is first in, first out, and
/// the number of positive entries never exceeds the number of entries, which
/// never exceeds the capacity.
pub proof fn lemma_window_is_most_recent(capacity: nat, observations: Seq<bool>)
    requires
        capacity > 0,
    ensures
        after_pushes(capacity, observations) == most_recent(capacity, observations),
        count_true(after_pushes(capacity, observations)) <= after_pushes(
            capacity,
            observations,
        ).len() <= capacity,
    decreases observations.len(),
{
    if observations.len() > 0 {
        lemma_window_is_most_recent(capacity, observations.drop_last());
        assert(after_pushes(capacity, observations) =~= most_recent(capacity, observations));
    }
    lemma_count_true_bounded(after_pushes(capacity, observations));
}

} // verus!
