//! Colours and the way they are blended and disturbed.

use vstd::prelude::*;
use rand::rngs::ThreadRng;
use crate::fixed::{clip, clip_wide, div_floor_wide};
use crate::random::{draw_below, draw_between};
use crate::text::{push_number, with_number};
use vstd::string::StringExecFns;

verus! {

/// Red, green and blue. A channel may leave the range from 0 to 255 while
/// colours are blended and disturbed; `validate` brings it back.
#[derive(Clone, Copy, Debug, PartialEq, Eq, Structural)]
pub struct Color(pub i32, pub i32, pub i32);

/// The channel value `v` brought into the range from 0 to 255.
pub open spec fn displayed(v: int) -> int {
    if v < 0 {
        0
    } else if v > 255 {
        255
    } else {
        v
    }
}

/// The share `weight` of a hundred of `a`, and the rest of `b`.
pub open spec fn blend(a: int, b: int, weight: int) -> int {
    (a * weight + b * (100 - weight)) / 100
}

impl Color {
    /// The colour with every channel brought into the range from 0 to 255.
    pub open spec fn spec_validate(self) -> Color {
        Color(displayed(self.0 as int) as i32, displayed(self.1 as int) as i32, displayed(self.2 as int) as i32)
    }

    /// The colour with one number added to each channel.
    pub open spec fn spec_shifted(self, n0: int, n1: int, n2: int) -> Color {
        Color(clip(self.0 + n0) as i32, clip(self.1 + n1) as i32, clip(self.2 + n2) as i32)
    }

    /// `r` is the colour after each channel was moved by less than `amount`.
    pub open spec fn varies_to(self, amount: int, r: Color) -> bool {
        if amount <= 0 {
            r == self
        } else {
            exists|n0: int, n1: int, n2: int|
                -amount < n0 < amount && -amount < n1 < amount && -amount < n2 < amount && r
                    == #[trigger] self.spec_shifted(n0, n1, n2)
        }
    }

    /// The mix of `weight` hundredths of this colour with the rest of `th`.
    pub open spec fn spec_meanpoint(self, th: Color, weight: int) -> Color {
        Color(
            blend(self.0 as int, th.0 as int, weight) as i32,
            blend(self.1 as int, th.1 as int, weight) as i32,
            blend(self.2 as int, th.2 as int, weight) as i32,
        )
    }

    /// Brings every channel into the range from 0 to 255.
    #[verifier::when_used_as_spec(spec_validate)]
    pub fn validate(self) -> (r: Color)
        ensures
            r == self.spec_validate(),
            0 <= r.0 <= 255,
            0 <= r.1 <= 255,
            0 <= r.2 <= 255,
    {
        Color(clamp_channel(self.0), clamp_channel(self.1), clamp_channel(self.2))
    }

    /// Adds one number to each channel.
    pub fn shifted(self, n0: i64, n1: i64, n2: i64) -> (r: Color)
        ensures
            r == self.spec_shifted(n0 as int, n1 as int, n2 as int),
    {
        Color(
            clip_wide(self.0 as i128 + n0 as i128),
            clip_wide(self.1 as i128 + n1 as i128),
            clip_wide(self.2 as i128 + n2 as i128),
        )
    }

    /// Moves each channel by a random number that is less than `amount` in
    /// either direction.
    pub fn variate(self, rng: &mut ThreadRng, amount: u32) -> (r: Color)
        ensures
            self.varies_to(amount as int, r),
    {
        if amount > 0 {
            let a: i64 = amount as i64;
            let n0: i64 = draw_between(rng, 1 - a, a);
            let n1: i64 = draw_between(rng, 1 - a, a);
            let n2: i64 = draw_between(rng, 1 - a, a);
            self.shifted(n0, n1, n2)
        } else {
            self
        }
    }

    /// Weighted mix with another colour: `weight` hundredths of this one.
    pub fn meanpoint(self, th: Color, weight: u32) -> (r: Color)
        requires
            weight <= 100,
        ensures
            r == self.spec_meanpoint(th, weight as int),
    {
        Color(
            blend_channel(self.0, th.0, weight),
            blend_channel(self.1, th.1, weight),
            blend_channel(self.2, th.2, weight),
        )
    }

    /// `acc` followed by the colour as it is shown, in the form `rgb(r,g,b)`.
    pub open spec fn text_onto(self, acc: Seq<char>) -> Seq<char> {
        let c = self.spec_validate();
        with_number(
            with_number(with_number(acc + "rgb("@, c.0 as nat) + ","@, c.1 as nat) + ","@,
            c.2 as nat,
        ) + ")"@
    }

    /// Writes the colour as it is shown at the end of `out`.
    pub fn write(&self, out: &mut String)
        ensures
            final(out)@ == self.text_onto(old(out)@),
    {
        let c: Color = self.validate();
        out.append("rgb(");
        push_number(out, c.0 as u128);
        out.append(",");
        push_number(out, c.1 as u128);
        out.append(",");
        push_number(out, c.2 as u128);
        out.append(")");
    }

    /// The colour as it is shown: `rgb(r,g,b)`, with every channel from 0 to 255.
    pub fn to_display(&self) -> (r: String)
        ensures
            r@ == self.text_onto(Seq::empty()),
    {
        let mut out: String = String::new();
        self.write(&mut out);
        out
    }

    /// A colour with each channel picked at random from 0 to 254.
    pub fn random(rng: &mut ThreadRng) -> (r: Color)
        ensures
            0 <= r.0 < 255,
            0 <= r.1 < 255,
            0 <= r.2 < 255,
    {
        let r: u64 = draw_below(rng, 255);
        let g: u64 = draw_below(rng, 255);
        let b: u64 = draw_below(rng, 255);
        Color(r as i32, g as i32, b as i32)
    }
}

fn clamp_channel(v: i32) -> (r: i32)
    ensures
        r == displayed(v as int),
{
    if v < 0 {
        0
    } else if v > 255 {
        255
    } else {
        v
    }
}

fn blend_channel(a: i32, b: i32, weight: u32) -> (r: i32)
    requires
        weight <= 100,
    ensures
        r == blend(a as int, b as int, weight as int),
{
    let w: i128 = weight as i128;
    assert(-0x8000_0000 * 100 <= a * w + b * (100 - w) <= 0x7fff_ffff * 100) by (nonlinear_arith)
        requires
            0 <= w <= 100,
            -0x8000_0000 <= a <= 0x7fff_ffff,
            -0x8000_0000 <= b <= 0x7fff_ffff,
    ;
    assert(-0x8000_0000 * 100 <= a * w <= 0x8000_0000 * 100) by (nonlinear_arith)
        requires
            0 <= w <= 100,
            -0x8000_0000 <= a <= 0x7fff_ffff,
    ;
    assert(-0x8000_0000 * 100 <= b * (100 - w) <= 0x8000_0000 * 100) by (nonlinear_arith)
        requires
            0 <= w <= 100,
            -0x8000_0000 <= b <= 0x7fff_ffff,
    ;
    let mixed: i128 = a as i128 * w + b as i128 * (100 - w);
    let q: i128 = div_floor_wide(mixed, 100);
    q as i32
}

/// Mixing a colour with itself gives the colour back, whatever the weight.
pub proof fn lemma_meanpoint_same(c: Color, weight: int)
    requires
        0 <= weight <= 100,
    ensures
        c.spec_meanpoint(c, weight) == c,
{
    lemma_blend_same(c.0 as int, weight);
    lemma_blend_same(c.1 as int, weight);
    lemma_blend_same(c.2 as int, weight);
}

/// Blending a value with itself gives the value back.
pub proof fn lemma_blend_same(a: int, weight: int)
    ensures
        blend(a, a, weight) == a,
{
    assert(a * weight + a * (100 - weight) == a * 100) by (nonlinear_arith);
    assert((a * 100) / 100 == a) by (nonlinear_arith);
}

/// However far a channel has drifted, the colour that is shown has every
/// channel between 0 and 255, and a colour in that range is shown unchanged.
pub proof fn lemma_validate_range(c: Color)
    ensures
        0 <= c.spec_validate().0 <= 255,
        0 <= c.spec_validate().1 <= 255,
        0 <= c.spec_validate().2 <= 255,
        c.spec_validate().spec_validate() == c.spec_validate(),
        (0 <= c.0 <= 255 && 0 <= c.1 <= 255 && 0 <= c.2 <= 255) ==> c.spec_validate() == c,
{
}

} // verus!
