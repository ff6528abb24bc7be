//! Colours that now and then take the place of the colour of a shape.

use vstd::prelude::*;
use rand::rngs::ThreadRng;
use crate::color::Color;
use crate::random::draw_below;

verus! {

/// The number that stands for certainty where chances are counted.
pub const CERTAIN: u32 = 1_000_000;

/// A colour that shows up with a chance of `likeliness` in a million, each
/// time disturbed by less than `variability`.
#[derive(Clone, Copy, Debug, PartialEq, Eq, Structural)]
pub struct SaltItem {
    pub color: Color,
    pub likeliness: u32,
    pub variability: u32,
}

/// Salt colours, tried in order.
#[derive(Clone, Debug)]
pub struct Salt(pub Vec<SaltItem>);

impl SaltItem {
    /// Whether the item shows up for the draw `trial`, a number below a million.
    pub open spec fn spec_fires(&self, trial: u32) -> bool {
        trial < self.likeliness
    }

    /// `c` is a colour that the item can give.
    pub open spec fn may_give(&self, c: Color) -> bool {
        self.likeliness > 0 && self.color.varies_to(self.variability as int, c)
    }

    /// Whether the item shows up for the draw `trial`, a number below a million.
    #[verifier::when_used_as_spec(spec_fires)]
    pub fn fires(&self, trial: u32) -> (r: bool)
        ensures
            r == self.spec_fires(trial),
    {
        trial < self.likeliness
    }

    /// Tries the item once: its colour, disturbed, if it shows up.
    pub fn sample(&self, rng: &mut ThreadRng) -> (r: Option<Color>)
        ensures
            r matches Some(c) ==> self.may_give(c),
            self.likeliness == 0 ==> r is None,
            self.likeliness >= CERTAIN ==> r is Some,
    {
        let trial: u32 = draw_below(rng, 1_000_000) as u32;
        if self.fires(trial) {
            Some(self.color.variate(rng, self.variability))
        } else {
            None
        }
    }
}

impl View for Salt {
    type V = Seq<SaltItem>;

    open spec fn view(&self) -> Seq<SaltItem> {
        self.0@
    }
}

impl Salt {
    /// None of the first `k` items shows up whatever is drawn.
    pub open spec fn none_certain_before(&self, k: int) -> bool {
        forall|j: int| 0 <= j < k ==> (#[trigger] self@[j]).likeliness < CERTAIN
    }

    /// `c` is a colour that one of the items can give, and no item before
    /// that one is certain to show up.
    pub open spec fn may_give(&self, c: Color) -> bool {
        exists|k: int|
            0 <= k < self@.len() && (#[trigger] self@[k]).may_give(c) && self.none_certain_before(
                k,
            )
    }

    /// Some item shows up whatever is drawn.
    pub open spec fn is_certain(&self) -> bool {
        exists|k: int| 0 <= k < self@.len() && (#[trigger] self@[k]).likeliness >= CERTAIN
    }

    /// Tries the items in order: the colour of the first that shows up.
    pub fn sample(&self, rng: &mut ThreadRng) -> (r: Option<Color>)
        ensures
            r matches Some(c) ==> self.may_give(c),
            self.is_certain() ==> r is Some,
    {
        let mut i: usize = 0;
        while i < self.0.len()
            invariant
                0 <= i <= self.0.len(),
                forall|k: int| 0 <= k < i ==> (#[trigger] self@[k]).likeliness < CERTAIN,
            decreases self.0.len() - i,
        {
            match self.0[i].sample(rng) {
                Some(c) => {
                    assert(self@[i as int].may_give(c) && self.none_certain_before(i as int));
                    return Some(c);
                },
                None => {},
            }
            i = i + 1;
        }
        None
    }

    /// No salt.
    pub fn none() -> (r: Salt)
        ensures
            r@.len() == 0,
    {
        Salt(Vec::new())
    }

    /// A copy of the salt.
    pub fn duplicate(&self) -> (r: Salt)
        ensures
            r@ == self@,
    {
        let mut items: Vec<SaltItem> = Vec::new();
        let mut i: usize = 0;
        while i < self.0.len()
            invariant
                0 <= i <= self.0.len(),
                items@ == self.0@.take(i as int),
            decreases self.0.len() - i,
        {
            items.push(self.0[i]);
            assert(self.0@.take(i as int + 1) =~= self.0@.take(i as int).push(self.0@[i as int]));
            i = i + 1;
        }
        assert(self.0@.take(self.0.len() as int) =~= self.0@);
        Salt(items)
    }
}

} // verus!
