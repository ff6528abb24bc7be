//! Weighted random choice over a list of items.

use vstd::prelude::*;
use vstd::set_lib::lemma_int_range;
use rand::rngs::ThreadRng;
use crate::random::draw_below;

verus! {

/// Why an item could not be added to a chooser.
#[derive(Clone, Copy, Debug, PartialEq, Eq, Structural)]
pub enum ChooserError {
    /// The weight was zero: such an item could never be drawn.
    ZeroWeight,
    /// The total weight would no longer fit in a `usize`.
    Overflow,
}

/// Sum of the weights of the first `n` entries of `s`.
pub open spec fn weight_before<T>(s: Seq<(T, usize)>, n: int) -> int
    decreases n,
{
    if n <= 0 {
        0
    } else {
        weight_before(s, n - 1) + s[n - 1].1
    }
}

/// Sum of all weights of `s`.
pub open spec fn total_weight<T>(s: Seq<(T, usize)>) -> int {
    weight_before(s, s.len() as int)
}

/// Every weight of `s` is positive.
pub open spec fn weights_positive<T>(s: Seq<(T, usize)>) -> bool {
    forall|i: int| 0 <= i < s.len() ==> (#[trigger] s[i]).1 > 0
}

/// The draw `u` falls on entry `i`: at least the weight before it has been
/// passed, and not yet its own.
pub open spec fn holds_draw<T>(s: Seq<(T, usize)>, i: int, u: int) -> bool {
    0 <= i < s.len() && weight_before(s, i) <= u < weight_before(s, i + 1)
}

/// Index of the first entry whose weight is zero or does not fit any more
/// when `s` is added to a total of `start`; the length of `s` if there is none.
pub open spec fn first_refused<T>(s: Seq<(T, usize)>, start: int) -> int
    decreases s.len(),
{
    if s.len() == 0 {
        0
    } else if s[0].1 == 0 || start + s[0].1 > usize::MAX {
        0
    } else {
        1 + first_refused(s.subrange(1, s.len() as int), start + s[0].1)
    }
}

/// The weights before an index grow with the index.
pub proof fn lemma_weight_before_monotonic<T>(s: Seq<(T, usize)>, i: int, j: int)
    requires
        0 <= i <= j,
    ensures
        weight_before(s, i) <= weight_before(s, j),
        weight_before(s, i) >= 0,
    decreases j,
{
    if j > 0 {
        if i < j {
            lemma_weight_before_monotonic(s, i, j - 1);
        } else {
            lemma_weight_before_monotonic(s, i - 1, j - 1);
        }
    }
}

/// The weight before an index does not depend on later entries.
pub proof fn lemma_weight_before_prefix<T>(s: Seq<(T, usize)>, t: Seq<(T, usize)>, n: int)
    requires
        0 <= n <= s.len(),
        n <= t.len(),
        forall|i: int| 0 <= i < n ==> s[i].1 == t[i].1,
    ensures
        weight_before(s, n) == weight_before(t, n),
    decreases n,
{
    if n > 0 {
        lemma_weight_before_prefix(s, t, n - 1);
    }
}

/// The weights before an index depend on the weights alone, not on the items.
pub proof fn lemma_weights_alone<A, B>(s: Seq<(A, usize)>, t: Seq<(B, usize)>, n: int)
    requires
        0 <= n <= s.len(),
        n <= t.len(),
        forall|i: int| 0 <= i < n ==> s[i].1 == t[i].1,
    ensures
        weight_before(s, n) == weight_before(t, n),
    decreases n,
{
    if n > 0 {
        lemma_weights_alone(s, t, n - 1);
    }
}

/// What a list of entries holds after `push` was asked to add an item
/// with the weight `w`, when the weights before come to `total`.
pub open spec fn pushed<T>(list: Seq<(T, usize)>, total: int, item: T, w: usize) -> Seq<(T, usize)> {
    if w > 0 && total + w <= usize::MAX {
        list.push((item, w))
    } else {
        list
    }
}

/// What a list of entries holds after `push` was asked to add the first
/// `n` entries of `from`, one after the other.
pub open spec fn push_all<T>(to: Seq<(T, usize)>, from: Seq<(T, usize)>, n: int) -> Seq<(T, usize)>
    decreases n,
{
    if n <= 0 {
        to
    } else {
        let before = push_all(to, from, n - 1);
        pushed(before, total_weight(before), from[n - 1].0, from[n - 1].1)
    }
}

/// A draw falls on at most one entry.
pub proof fn lemma_draw_unique<T>(s: Seq<(T, usize)>, i: int, j: int, u: int)
    requires
        holds_draw(s, i, u),
        holds_draw(s, j, u),
    ensures
        i == j,
{
    if i < j {
        lemma_weight_before_monotonic(s, i + 1, j);
    } else if j < i {
        lemma_weight_before_monotonic(s, j + 1, i);
    }
}

/// Of the draws below the total weight, exactly as many fall on an entry as
/// its weight says: an entry is chosen in proportion to its weight.
pub proof fn lemma_share<T>(s: Seq<(T, usize)>, i: int)
    requires
        0 <= i < s.len(),
    ensures
        Set::new(|u: int| holds_draw(s, i, u)).finite(),
        Set::new(|u: int| holds_draw(s, i, u)).len() == s[i].1,
        forall|u: int| holds_draw(s, i, u) ==> 0 <= u < total_weight(s),
{
    let lo = weight_before(s, i);
    let hi = weight_before(s, i + 1);
    lemma_int_range(lo, hi);
    assert(Set::new(|u: int| holds_draw(s, i, u)) =~= vstd::set_lib::set_int_range(lo, hi));
    lemma_weight_before_monotonic(s, 0, i);
    lemma_weight_before_monotonic(s, i + 1, s.len() as int);
}

/// A list of items, each with a positive weight, from which one is drawn
/// with a chance proportional to its weight.
///
/// The first field is the total weight; the second holds each item with the
/// sum of the weights up to and including its own.
#[derive(Clone)]
pub struct Chooser<T: Clone>(usize, Vec<(T, usize)>);

impl<T: Clone> Chooser<T> {
    /// The sums grow strictly, and the total is the last of them.
    pub closed spec fn wf(&self) -> bool {
        &&& forall|i: int| 0 <= i < self.1.len() ==> self.before(i) < (#[trigger] self.1[i]).1
        &&& self.0 == self.before(self.1.len() as int)
    }

    /// The stored sum of the weights of the first `i` items.
    pub closed spec fn before(&self, i: int) -> int {
        if i <= 0 {
            0
        } else {
            self.1[i - 1].1 as int
        }
    }

    /// The items with their own weights, in the order in which they were added.
    pub closed spec fn view(&self) -> Seq<(T, usize)> {
        Seq::new(
            self.1.len() as nat,
            |i: int| (self.1[i].0, (self.1[i].1 - self.before(i)) as usize),
        )
    }

    /// The total weight.
    pub closed spec fn total(&self) -> int {
        self.0 as int
    }

    /// The stored sums are the sums of the weights of the view.
    proof fn lemma_sums(&self, n: int)
        requires
            self.wf(),
            0 <= n <= self.1.len(),
        ensures
            weight_before(self@, n) == self.before(n),
        decreases n,
    {
        if n > 0 {
            self.lemma_sums(n - 1);
        }
    }

    /// The total weight is the sum of the weights, and every weight is positive.
    pub proof fn lemma_total(&self)
        requires
            self.wf(),
        ensures
            self.total() == total_weight(self@),
            weights_positive(self@),
            self.total() <= usize::MAX,
            self@.len() == 0 <==> self.total() == 0,
    {
        self.lemma_sums(self.1.len() as int);
        if self.1.len() > 0 {
            assert(self.before(self.1.len() - 1) < self.1[self.1.len() - 1].1);
        }
        assert forall|i: int| 0 <= i < self@.len() implies (#[trigger] self@[i]).1 > 0 by {
            assert(self.before(i) < self.1[i].1);
        }
    }

    /// The empty chooser.
    pub fn default() -> (r: Self)
        ensures
            r.wf(),
            r@ == Seq::<(T, usize)>::empty(),
            r.total() == 0,
    {
        let r = Chooser(0, Vec::new());
        assert(r@ =~= Seq::<(T, usize)>::empty());
        r
    }

    /// Number of items.
    pub fn len(&self) -> (n: usize)
        ensures
            n == self@.len(),
    {
        self.1.len()
    }

    /// Whether no item can be drawn.
    pub fn is_empty(&self) -> (r: bool)
        ensures
            r == (self@.len() == 0),
    {
        self.1.is_empty()
    }

    /// Builds a chooser from items with their weights.
    pub fn new(v: Vec<(T, usize)>) -> (r: Self)
        requires
            weights_positive(v@),
            total_weight(v@) <= usize::MAX,
        ensures
            r.wf(),
            r@ == v@,
            r.total() == total_weight(v@),
    {
        let mut v = v;
        let ghost start = v@;
        let mut sum: usize = 0;
        let mut i: usize = 0;
        while i < v.len()
            invariant
                0 <= i <= v.len(),
                v.len() == start.len(),
                sum == weight_before(start, i as int),
                forall|k: int| 0 <= k < i ==> (#[trigger] v[k]).0 == start[k].0,
                forall|k: int| 0 <= k < i ==> (#[trigger] v[k]).1 == weight_before(start, k + 1),
                forall|k: int| i <= k < v.len() ==> (#[trigger] v[k]) == start[k],
                weights_positive(start),
                total_weight(start) <= usize::MAX,
            decreases v.len() - i,
        {
            proof {
                lemma_weight_before_monotonic(start, i as int + 1, start.len() as int);
            }
            sum = sum + v[i].1;
            v[i].1 = sum;
            i = i + 1;
        }
        let r = Chooser(sum, v);
        proof {
            assert forall|k: int| 0 <= k < r.1.len() implies r.before(k) < (#[trigger] r.1[k]).1 by {
                assert(start[k].1 > 0);
                assert(weight_before(start, k + 1) == weight_before(start, k) + start[k].1);
                if k > 0 {
                    assert(r.1[k - 1].1 == weight_before(start, k));
                }
            }
            assert forall|k: int| 0 <= k < r.1.len() implies r@[k] == start[k] by {
                assert(weight_before(start, k + 1) == weight_before(start, k) + start[k].1);
                if k > 0 {
                    assert(r.1[k - 1].1 == weight_before(start, k));
                }
                assert(r.1[k].0 == start[k].0);
            }
            assert(r@ =~= start);
        }
        r
    }

    /// Item `i` and its weight.
    pub fn entry(&self, i: usize) -> (r: (&T, usize))
        requires
            self.wf(),
            i < self@.len(),
        ensures
            *r.0 == self@[i as int].0,
            r.1 == self@[i as int].1,
            r.1 > 0,
    {
        let before: usize = if i == 0 {
            0
        } else {
            self.1[i - 1].1
        };
        assert(self.before(i as int) < self.1[i as int].1);
        (&self.1[i].0, self.1[i].1 - before)
    }

    /// Index of the item on which the draw `target` falls: the first whose sum
    /// of weights exceeds it.
    pub fn dichotomy(&self, target: usize) -> (i: usize)
        requires
            self.wf(),
            target < self.total(),
        ensures
            holds_draw(self@, i as int, target as int),
    {
        let mut inf: usize = 0;
        let mut sup: usize = self.1.len() - 1;
        while inf < sup
            invariant
                self.wf(),
                0 <= inf <= sup < self.1.len(),
                self.before(inf as int) <= target,
                target < self.1[sup as int].1,
            decreases sup - inf,
        {
            let mid: usize = inf + (sup - inf) / 2;
            if self.1[mid].1 > target {
                sup = mid;
            } else {
                inf = mid + 1;
            }
        }
        proof {
            self.lemma_sums(inf as int);
            self.lemma_sums(inf as int + 1);
        }
        inf
    }

    /// The item on which the draw `u` falls.
    pub fn pick(&self, u: usize) -> (r: &T)
        requires
            self.wf(),
            u < self.total(),
        ensures
            exists|i: int| holds_draw(self@, i, u as int) && *r == self@[i].0,
    {
        let i: usize = self.dichotomy(u);
        &self.1[i].0
    }

    /// Draws an item at random, as `choose_one` does, and lends it.
    pub fn choose_ref(&self, rng: &mut ThreadRng) -> (r: Option<&T>)
        requires
            self.wf(),
        ensures
            r.is_none() <==> self@.len() == 0,
            r matches Some(t) ==> exists|i: int, u: int|
                0 <= u < self.total() && holds_draw(self@, i, u) && *t == self@[i].0,
    {
        if self.1.is_empty() {
            None
        } else {
            proof {
                self.lemma_total();
            }
            let u: usize = draw_below(rng, self.0 as u64) as usize;
            let i: usize = self.dichotomy(u);
            assert(holds_draw(self@, i as int, u as int) && self.1[i as int].0 == self@[i as int].0);
            Some(&self.1[i].0)
        }
    }

    /// Draws an item at random, each with a chance proportional to its weight.
    /// There is nothing to draw from an empty chooser.
    pub fn choose_one(&self, rng: &mut ThreadRng) -> (r: Option<T>)
        requires
            self.wf(),
        ensures
            r.is_none() <==> self@.len() == 0,
            r matches Some(t) ==> exists|i: int, u: int|
                0 <= u < self.total() && holds_draw(self@, i, u) && cloned(self@[i].0, t),
    {
        if self.1.is_empty() {
            None
        } else {
            proof {
                self.lemma_total();
            }
            let u: usize = draw_below(rng, self.0 as u64) as usize;
            let i: usize = self.dichotomy(u);
            let t: T = self.1[i].0.clone();
            assert(holds_draw(self@, i as int, u as int) && cloned(self@[i as int].0, t));
            Some(t)
        }
    }

    /// A copy of the items with their own weights.
    pub fn extract(&self) -> (r: Vec<(T, usize)>)
        requires
            self.wf(),
        ensures
            r@.len() == self@.len(),
            forall|i: int| 0 <= i < r@.len() ==> cloned(self@[i].0, (#[trigger] r@[i]).0),
            forall|i: int| 0 <= i < r@.len() ==> (#[trigger] r@[i]).1 == self@[i].1,
            weights_positive(r@),
            total_weight(r@) == self.total(),
    {
        let mut r: Vec<(T, usize)> = Vec::new();
        let mut i: usize = 0;
        let mut prev: usize = 0;
        while i < self.1.len()
            invariant
                self.wf(),
                0 <= i <= self.1.len(),
                r@.len() == i,
                prev == self.before(i as int),
                forall|k: int| 0 <= k < i ==> cloned(self@[k].0, (#[trigger] r@[k]).0),
                forall|k: int| 0 <= k < i ==> (#[trigger] r@[k]).1 == self@[k].1,
            decreases self.1.len() - i,
        {
            let cum: usize = self.1[i].1;
            assert(self.before(i as int) < self.1[i as int].1);
            let item: T = self.1[i].0.clone();
            r.push((item, cum - prev));
            prev = cum;
            i = i + 1;
        }
        proof {
            self.lemma_total();
            lemma_weight_before_prefix(r@, self@, r@.len() as int);
            assert forall|k: int| 0 <= k < r@.len() implies (#[trigger] r@[k]).1 > 0 by {
                assert(self@[k].1 > 0);
            }
        }
        r
    }

    /// Adds an item with its weight at the end.
    pub fn push(&mut self, item: T, w: usize) -> (r: Result<(), ChooserError>)
        requires
            old(self).wf(),
        ensures
            final(self).wf(),
            r is Ok <==> w > 0 && old(self).total() + w <= usize::MAX,
            r is Ok ==> final(self)@ == old(self)@.push((item, w)) && final(self).total() == old(
                self,
            ).total() + w,
            r is Err ==> final(self)@ == old(self)@ && final(self).total() == old(self).total(),
            r == Err::<(), ChooserError>(ChooserError::ZeroWeight) <==> w == 0,
            final(self)@ == pushed(old(self)@, total_weight(old(self)@), item, w),
    {
        proof {
            self.lemma_total();
        }
        if w == 0 {
            Err(ChooserError::ZeroWeight)
        } else if w > usize::MAX - self.0 {
            Err(ChooserError::Overflow)
        } else {
            let ghost before = *self;
            self.0 = self.0 + w;
            self.1.push((item, self.0));
            proof {
                assert forall|k: int| 0 <= k < self.1.len() implies self.before(k) < (
                #[trigger] self.1[k]).1 by {
                    if k < before.1.len() {
                        assert(before.before(k) < before.1[k].1);
                    }
                }
                assert(self@ =~= before@.push((item, w)));
            }
            Ok(())
        }
    }

    /// Adds items with their weights at the end, in order, up to the first
    /// that `push` refuses.
    pub fn append(&mut self, items: Vec<(T, usize)>) -> (r: Result<(), ChooserError>)
        requires
            old(self).wf(),
        ensures
            final(self).wf(),
            final(self)@ == old(self)@ + items@.take(
                first_refused(items@, old(self).total()),
            ),
            r is Ok <==> first_refused(items@, old(self).total()) == items@.len(),
            r == Err::<(), ChooserError>(ChooserError::ZeroWeight) <==> {
                let k = first_refused(items@, old(self).total());
                k < items@.len() && items@[k].1 == 0
            },
    {
        let mut items = items;
        let ghost all = items@;
        let ghost start = self.total();
        let n: usize = items.len();
        // the items are taken from the back, so they are turned around first
        let mut turned: Vec<(T, usize)> = Vec::new();
        while items.len() > 0
            invariant
                items@.len() + turned@.len() == n,
                n == all.len(),
                forall|k: int| 0 <= k < items@.len() ==> items@[k] == all[k],
                forall|k: int| 0 <= k < turned@.len() ==> turned@[k] == all[n - 1 - k],
                items@.len() == items.len(),
            decreases items.len(),
        {
            let last = items.pop().unwrap();
            turned.push(last);
        }
        let mut done: usize = 0;
        let mut result: Result<(), ChooserError> = Ok(());
        assert(all.subrange(0, n as int) =~= all);
        while turned.len() > 0 && result.is_ok()
            invariant
                self.wf(),
                n == all.len(),
                start == old(self).total(),
                self@ == old(self)@ + all.take(done as int),
                forall|k: int| 0 <= k < turned@.len() ==> turned@[k] == all[n - 1 - k],
                result is Ok ==> done + turned@.len() == n && first_refused(all, start) == done
                    + first_refused(all.subrange(done as int, n as int), self.total()),
                result is Err ==> done < n && first_refused(all, start) == done && (result == Err::<
                    (),
                    ChooserError,
                >(ChooserError::ZeroWeight) <==> all[done as int].1 == 0),
            decreases turned.len(),
        {
            let ghost rest = all.subrange(done as int, n as int);
            let (item, w) = turned.pop().unwrap();
            assert(rest[0] == all[done as int]);
            assert(rest.subrange(1, rest.len() as int) =~= all.subrange(done as int + 1, n as int));
            result = self.push(item, w);
            if result.is_ok() {
                proof {
                    assert(all.take(done as int + 1) =~= all.take(done as int).push(
                        all[done as int],
                    ));
                    assert(self@ =~= old(self)@ + all.take(done as int + 1));
                }
                done = done + 1;
            }
        }
        proof {
            if result is Ok {
                assert(all.subrange(n as int, n as int).len() == 0);
            }
        }
        result
    }
}

} // verus!
