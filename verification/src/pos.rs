//! Points and vectors of the canvas.

use vstd::prelude::*;
use rand::rngs::ThreadRng;
use crate::fixed::{clip, clip_wide, div_round, div_round_wide, is_sqrt, isqrt, sqrt_floor, UNIT};
use crate::frame::Frame;
use crate::random::draw_below;
use crate::trig::{
    cos_deg, cosine, lemma_periodic, mul_cos, mul_sin, sin_deg, sine, times_cosine, times_sine,
    turn, turn_sum,
};

verus! {

/// A point or a vector. Each coordinate counts hundredths of a canvas unit,
/// so two points are equal exactly when they agree to that precision.
#[derive(Clone, Copy, Debug, PartialEq, Eq, Hash, Structural)]
pub struct Pos(pub i32, pub i32);

/// Determinants of two directions smaller than this count as parallel lines.
pub const PARALLEL_LIMIT: i128 = 10_000_000;

/// Length of the arm that joins the limit of a boundary to its reference point.
pub const ARM: i32 = 100 * UNIT;

impl Pos {
    /// Sum of two vectors.
    pub open spec fn spec_plus(self, other: Pos) -> Pos {
        Pos(clip(self.0 + other.0) as i32, clip(self.1 + other.1) as i32)
    }

    /// Difference of two vectors.
    pub open spec fn spec_minus(self, other: Pos) -> Pos {
        Pos(clip(self.0 - other.0) as i32, clip(self.1 - other.1) as i32)
    }

    /// The vector stretched by the whole number `k`.
    pub open spec fn spec_times(self, k: int) -> Pos {
        Pos(clip(self.0 * k) as i32, clip(self.1 * k) as i32)
    }

    /// The vector shrunk by the whole number `k`, each coordinate rounded.
    pub open spec fn spec_over(self, k: int) -> Pos {
        Pos(div_round(self.0 as int, k) as i32, div_round(self.1 as int, k) as i32)
    }

    /// Scalar product.
    pub open spec fn spec_dot(self, other: Pos) -> int {
        self.0 * other.0 + self.1 * other.1
    }

    /// Third coordinate of the vector product.
    pub open spec fn spec_cross(self, other: Pos) -> int {
        self.0 * other.1 - self.1 * other.0
    }

    /// Squared distance between two points.
    pub open spec fn spec_dist2(self, other: Pos) -> int {
        (self.0 - other.0) * (self.0 - other.0) + (self.1 - other.1) * (self.1 - other.1)
    }

    /// The vector of length `r` that points `a` degrees away from the x axis.
    #[verifier::opaque]
    pub open spec fn spec_polar(a: int, r: int) -> Pos {
        Pos(times_cosine(r, a) as i32, times_sine(r, a) as i32)
    }

    /// The part of the vector that runs along `other`, each coordinate
    /// rounded; the zero vector where `other` has no direction.
    pub open spec fn spec_project(self, other: Pos) -> Pos {
        if other == Pos(0, 0) {
            Pos(0, 0)
        } else {
            Pos(
                clip(div_round(other.0 * self.spec_dot(other), other.spec_dot(other))) as i32,
                clip(div_round(other.1 * self.spec_dot(other), other.spec_dot(other))) as i32,
            )
        }
    }

    /// The point that divides the way from `a` to `b` as `i` to `n`.
    pub open spec fn spec_lerp(a: Pos, b: Pos, i: int, n: int) -> Pos {
        if n <= 0 {
            a
        } else {
            Pos(
                clip(div_round(a.0 * (n - i) + b.0 * i, n)) as i32,
                clip(div_round(a.1 * (n - i) + b.1 * i, n)) as i32,
            )
        }
    }

    /// The point of the widened frame that lies `ox` steps right of its left
    /// edge and `oy` steps below its top edge.
    pub open spec fn spec_placed(f: Frame, ox: int, oy: int) -> Pos {
        Pos(
            clip(f.x * 100 - f.w * 10 + ox) as i32,
            clip(f.y * 100 - f.h * 10 + oy) as i32,
        )
    }

    /// Number of steps across a widened side of `side` canvas units, but at
    /// least one and no more than a draw can cover.
    pub open spec fn spread(side: int) -> int {
        if side <= 0 {
            1
        } else if side * 120 > u64::MAX {
            u64::MAX as int
        } else {
            side * 120
        }
    }

    /// `p` is a point that `random` may return for the frame `f`.
    pub open spec fn random_in(f: Frame, p: Pos) -> bool {
        exists|ox: int, oy: int|
            0 <= ox < Pos::spread(f.w as int) && 0 <= oy < Pos::spread(f.h as int) && p
                == #[trigger] Pos::spec_placed(f, ox, oy)
    }

    /// Where the line through `p1` at `a1` degrees meets the line through `p2`
    /// at `a2` degrees; nothing where the two run parallel or nearly so.
    #[verifier::opaque]
    pub open spec fn spec_meet(p1: Pos, a1: int, p2: Pos, a2: int) -> Option<Pos> {
        let c1 = cosine(a1);
        let s1 = sine(a1);
        let c2 = cosine(a2);
        let s2 = sine(a2);
        let den = c1 * s2 - s1 * c2;
        let num = (p2.0 - p1.0) * s2 - (p2.1 - p1.1) * c2;
        if -PARALLEL_LIMIT < den < PARALLEL_LIMIT {
            None
        } else if den > 0 {
            Some(
                Pos(
                    clip(p1.0 + div_round(c1 * num, den)) as i32,
                    clip(p1.1 + div_round(s1 * num, den)) as i32,
                ),
            )
        } else {
            Some(
                Pos(
                    clip(p1.0 + div_round(c1 * (-num), -den)) as i32,
                    clip(p1.1 + div_round(s1 * (-num), -den)) as i32,
                ),
            )
        }
    }

    /// Where two lines meet, each given by a point and a direction in degrees.
    pub open spec fn spec_intersect(first: (Pos, i32), second: (Pos, i32)) -> Option<Pos> {
        Pos::spec_meet(first.0, first.1 as int, second.0, second.1 as int)
    }

    /// The two coordinates.
    pub fn into_tuple(self) -> (r: (i32, i32))
        ensures
            r == (self.0, self.1),
    {
        (self.0, self.1)
    }

    /// The origin.
    pub fn zero() -> (r: Pos)
        ensures
            r == Pos(0, 0),
    {
        Pos(0, 0)
    }

    /// Sum of two vectors.
    #[verifier::when_used_as_spec(spec_plus)]
    pub fn plus(self, other: Pos) -> (r: Pos)
        ensures
            r == self.spec_plus(other),
    {
        Pos(
            clip_wide(self.0 as i128 + other.0 as i128),
            clip_wide(self.1 as i128 + other.1 as i128),
        )
    }

    /// Difference of two vectors.
    #[verifier::when_used_as_spec(spec_minus)]
    pub fn minus(self, other: Pos) -> (r: Pos)
        ensures
            r == self.spec_minus(other),
    {
        Pos(
            clip_wide(self.0 as i128 - other.0 as i128),
            clip_wide(self.1 as i128 - other.1 as i128),
        )
    }

    /// The vector stretched by the whole number `k`.
    pub fn times(self, k: i32) -> (r: Pos)
        ensures
            r == self.spec_times(k as int),
    {
        assert(-0x1_0000_0000_0000_0000 < self.0 * k < 0x1_0000_0000_0000_0000) by (nonlinear_arith)
            requires
                -0x8000_0000 <= self.0 <= 0x7fff_ffff,
                -0x8000_0000 <= k <= 0x7fff_ffff,
        ;
        assert(-0x1_0000_0000_0000_0000 < self.1 * k < 0x1_0000_0000_0000_0000) by (nonlinear_arith)
            requires
                -0x8000_0000 <= self.1 <= 0x7fff_ffff,
                -0x8000_0000 <= k <= 0x7fff_ffff,
        ;
        Pos(clip_wide(self.0 as i128 * k as i128), clip_wide(self.1 as i128 * k as i128))
    }

    /// The vector shrunk by the whole number `k`, each coordinate rounded.
    pub fn over(self, k: i32) -> (r: Pos)
        requires
            k > 0,
        ensures
            r == self.spec_over(k as int),
    {
        let x: i128 = div_round_wide(self.0 as i128, k as i128);
        let y: i128 = div_round_wide(self.1 as i128, k as i128);
        Pos(x as i32, y as i32)
    }

    /// Scalar product.
    pub fn dot(self, other: Pos) -> (r: i128)
        ensures
            r == self.spec_dot(other),
            -0x8_0000_0000_0000_0000 <= r <= 0x8_0000_0000_0000_0000,
    {
        wide_product(self.0 as i64, other.0 as i64) + wide_product(self.1 as i64, other.1 as i64)
    }

    /// Scalar product of a vector with itself.
    pub fn dot_self(self) -> (r: i128)
        ensures
            r == self.spec_dot(self),
            0 <= r < 0x1_0000_0000_0000_0000_0000,
    {
        assert(self.0 * self.0 >= 0 && self.1 * self.1 >= 0) by (nonlinear_arith);
        self.dot(self)
    }

    /// Third coordinate of the vector product.
    pub fn cross(self, other: Pos) -> (r: i128)
        ensures
            r == self.spec_cross(other),
            -0x8_0000_0000_0000_0000 <= r <= 0x8_0000_0000_0000_0000,
    {
        wide_product(self.0 as i64, other.1 as i64) - wide_product(self.1 as i64, other.0 as i64)
    }

    /// Squared distance to another point.
    pub fn dist2(self, other: Pos) -> (r: i128)
        ensures
            r == self.spec_dist2(other),
            0 <= r < 0x1_0000_0000_0000_0000_0000,
    {
        let dx: i64 = self.0 as i64 - other.0 as i64;
        let dy: i64 = self.1 as i64 - other.1 as i64;
        assert(dx * dx >= 0 && dy * dy >= 0) by (nonlinear_arith);
        wide_product(dx, dx) + wide_product(dy, dy)
    }

    /// Length of the vector, rounded down.
    pub fn norm(self) -> (r: i64)
        ensures
            is_sqrt(self.spec_dot(self), r as int),
            r == sqrt_floor(self.spec_dot(self)),
            0 <= r < 0x100_0000_0000,
    {
        let d: i128 = self.dot_self();
        isqrt(d as u128) as i64
    }

    /// Distance to another point, rounded down.
    pub fn dist(self, other: Pos) -> (r: i64)
        ensures
            is_sqrt(self.spec_dist2(other), r as int),
            r == sqrt_floor(self.spec_dist2(other)),
            0 <= r < 0x100_0000_0000,
    {
        let d: i128 = self.dist2(other);
        isqrt(d as u128) as i64
    }

    /// The vector of length `r` that points `a` degrees away from the x axis.
    pub fn polar(a: i32, r: i32) -> (p: Pos)
        ensures
            p == Pos::spec_polar(a as int, r as int),
    {
        reveal(Pos::spec_polar);
        Pos(mul_cos(r, a), mul_sin(r, a))
    }

    /// The point of the widened frame at the given offsets from its corner.
    pub fn placed(f: &Frame, ox: u64, oy: u64) -> (p: Pos)
        ensures
            p == Pos::spec_placed(*f, ox as int, oy as int),
    {
        let x: i128 = f.x as i128 * 100 - f.w as i128 * 10 + ox as i128;
        let y: i128 = f.y as i128 * 100 - f.h as i128 * 10 + oy as i128;
        Pos(clip_wide(x), clip_wide(y))
    }

    /// A point of the frame or of its margin, a tenth of the frame wide, picked at random.
    pub fn random(f: &Frame, rng: &mut ThreadRng) -> (p: Pos)
        ensures
            Pos::random_in(*f, p),
    {
        let ox: u64 = draw_below(rng, spread_of(f.w));
        let oy: u64 = draw_below(rng, spread_of(f.h));
        Pos::placed(f, ox, oy)
    }

    /// Where two lines meet, each given by a point and a direction in degrees.
    pub fn intersect(first: (Pos, i32), second: (Pos, i32)) -> (r: Option<Pos>)
        ensures
            r == Pos::spec_intersect(first, second),
    {
        reveal(Pos::spec_meet);
        let c1: i64 = cos_deg(first.1) as i64;
        let s1: i64 = sin_deg(first.1) as i64;
        let c2: i64 = cos_deg(second.1) as i64;
        let s2: i64 = sin_deg(second.1) as i64;
        let den: i128 = wide_product(c1, s2) - wide_product(s1, c2);
        assert(-2_000_000_000_000 <= den <= 2_000_000_000_000) by (nonlinear_arith)
            requires
                den == c1 * s2 - s1 * c2,
                -1_000_000 <= c1 <= 1_000_000,
                -1_000_000 <= s1 <= 1_000_000,
                -1_000_000 <= c2 <= 1_000_000,
                -1_000_000 <= s2 <= 1_000_000,
        ;
        let dx: i64 = second.0.0 as i64 - first.0.0 as i64;
        let dy: i64 = second.0.1 as i64 - first.0.1 as i64;
        let num: i128 = wide_product(dx, s2) - wide_product(dy, c2);
        assert(-0x2000_0000_0000_0000 <= num <= 0x2000_0000_0000_0000) by (nonlinear_arith)
            requires
                num == dx * s2 - dy * c2,
                -0x1_0000_0000 <= dx <= 0x1_0000_0000,
                -0x1_0000_0000 <= dy <= 0x1_0000_0000,
                -1_000_000 <= c2 <= 1_000_000,
                -1_000_000 <= s2 <= 1_000_000,
        ;
        if -PARALLEL_LIMIT < den && den < PARALLEL_LIMIT {
            None
        } else {
            let (n, d): (i128, i128) = if den > 0 {
                (num, den)
            } else {
                (-num, -den)
            };
            assert(-0x4_0000_0000_0000_0000_0000 <= c1 * n <= 0x4_0000_0000_0000_0000_0000)
                by (nonlinear_arith)
                requires
                    -0x2000_0000_0000_0000 <= n <= 0x2000_0000_0000_0000,
                    -1_000_000 <= c1 <= 1_000_000,
            ;
            assert(-0x4_0000_0000_0000_0000_0000 <= s1 * n <= 0x4_0000_0000_0000_0000_0000)
                by (nonlinear_arith)
                requires
                    -0x2000_0000_0000_0000 <= n <= 0x2000_0000_0000_0000,
                    -1_000_000 <= s1 <= 1_000_000,
            ;
            let px: i128 = div_round_wide(c1 as i128 * n, d);
            let py: i128 = div_round_wide(s1 as i128 * n, d);
            Some(Pos(clip_wide(first.0.0 as i128 + px), clip_wide(first.0.1 as i128 + py)))
        }
    }

    /// The part of the vector that runs along `other`.
    #[verifier::when_used_as_spec(spec_project)]
    pub fn project(self, other: Pos) -> (r: Pos)
        ensures
            r == self.spec_project(other),
    {
        if other.0 == 0 && other.1 == 0 {
            return Pos(0, 0);
        }
        let along: i128 = self.dot(other);
        let length: i128 = other.dot_self();
        assert(length > 0) by (nonlinear_arith)
            requires
                length == other.0 * other.0 + other.1 * other.1,
                other.0 != 0 || other.1 != 0,
        ;
        assert(-0x8000_0000 * 0x8_0000_0000_0000_0000 <= other.0 * along <= 0x8000_0000
            * 0x8_0000_0000_0000_0000) by (nonlinear_arith)
            requires
                -0x8000_0000 <= other.0 <= 0x7fff_ffff,
                -0x8_0000_0000_0000_0000 <= along <= 0x8_0000_0000_0000_0000,
        ;
        assert(-0x8000_0000 * 0x8_0000_0000_0000_0000 <= other.1 * along <= 0x8000_0000
            * 0x8_0000_0000_0000_0000) by (nonlinear_arith)
            requires
                -0x8000_0000 <= other.1 <= 0x7fff_ffff,
                -0x8_0000_0000_0000_0000 <= along <= 0x8_0000_0000_0000_0000,
        ;
        Pos(
            clip_wide(div_round_wide(other.0 as i128 * along, length)),
            clip_wide(div_round_wide(other.1 as i128 * along, length)),
        )
    }

    /// The vector of length `r` at `a + b` degrees.
    pub fn polar_sum(a: i32, b: i32, r: i32) -> (p: Pos)
        ensures
            p == Pos::spec_polar(a + b, r as int),
    {
        let t: i32 = turn_sum(a, b);
        proof {
            lemma_polar_periodic(t as int, a + b, r as int);
        }
        Pos::polar(t, r)
    }

    /// The opposite vector.
    pub fn neg(self) -> (r: Pos)
        ensures
            r == Pos(0, 0).spec_minus(self),
    {
        Pos(0, 0).minus(self)
    }

    /// The point that divides the way from `a` to `b` as `i` to `n`.
    pub fn lerp(a: Pos, b: Pos, i: u32, n: u32) -> (p: Pos)
        ensures
            p == Pos::spec_lerp(a, b, i as int, n as int),
    {
        if n == 0 {
            a
        } else {
            let rest: i64 = n as i64 - i as i64;
            let x: i128 = wide_product(a.0 as i64, rest) + wide_product(b.0 as i64, i as i64);
            let y: i128 = wide_product(a.1 as i64, rest) + wide_product(b.1 as i64, i as i64);
            Pos(
                clip_wide(div_round_wide(x, n as i128)),
                clip_wide(div_round_wide(y, n as i128)),
            )
        }
    }
}

/// Number of steps across a widened side, as `Pos::spread` defines it.
fn spread_of(side: usize) -> (r: u64)
    ensures
        r == Pos::spread(side as int),
        r > 0,
{
    if side == 0 {
        1
    } else if side as u128 * 120 > u64::MAX as u128 {
        u64::MAX
    } else {
        (side as u128 * 120) as u64
    }
}

/// Product of two integers of up to 34 bits.
pub fn wide_product(a: i64, b: i64) -> (r: i128)
    requires
        -0x2_0000_0000 <= a <= 0x2_0000_0000,
        -0x2_0000_0000 <= b <= 0x2_0000_0000,
    ensures
        r == a * b,
        -0x4_0000_0000_0000_0000 <= r <= 0x4_0000_0000_0000_0000,
{
    assert(-0x4_0000_0000_0000_0000 <= a * b <= 0x4_0000_0000_0000_0000) by (nonlinear_arith)
        requires
            -0x2_0000_0000 <= a <= 0x2_0000_0000,
            -0x2_0000_0000 <= b <= 0x2_0000_0000,
    ;
    a as i128 * b as i128
}

/// On which side of the line from `c` through `b` the point `a` lies.
pub open spec fn spec_crossprod_sign(a: Pos, b: Pos, c: Pos) -> bool {
    (a.0 - c.0) * (b.1 - c.1) - (b.0 - c.0) * (a.1 - c.1) > 0
}

/// On which side of the line from `c` through `b` the point `a` lies.
#[verifier::when_used_as_spec(spec_crossprod_sign)]
pub fn crossprod_sign(a: Pos, b: Pos, c: Pos) -> (r: bool)
    ensures
        r == spec_crossprod_sign(a, b, c),
{
    let ax: i64 = a.0 as i64 - c.0 as i64;
    let ay: i64 = a.1 as i64 - c.1 as i64;
    let bx: i64 = b.0 as i64 - c.0 as i64;
    let by: i64 = b.1 as i64 - c.1 as i64;
    wide_product(ax, by) - wide_product(bx, ay) > 0
}

} // verus!

verus! {

/// Directions that differ by whole turns give the same vector.
pub proof fn lemma_polar_periodic(a: int, b: int, r: int)
    requires
        turn(a) == turn(b),
    ensures
        Pos::spec_polar(a, r) == Pos::spec_polar(b, r),
{
    reveal(Pos::spec_polar);
    lemma_periodic(a, b);
}

/// Lines whose directions differ by whole turns meet at the same point.
pub proof fn lemma_meet_periodic(p1: Pos, a1: int, b1: int, p2: Pos, a2: int, b2: int)
    requires
        turn(a1) == turn(b1),
        turn(a2) == turn(b2),
    ensures
        Pos::spec_meet(p1, a1, p2, a2) == Pos::spec_meet(p1, b1, p2, b2),
{
    reveal(Pos::spec_meet);
    lemma_periodic(a1, b1);
    lemma_periodic(a2, b2);
}

} // verus!
