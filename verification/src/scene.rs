//! The shapes of a scene and the colour that each point of the canvas gets.

use vstd::prelude::*;
use rand::rngs::ThreadRng;
use crate::color::Color;
use crate::fixed::{abs, abs_wide, clip, div_floor_wide, div_round, div_round_wide, isqrt, sqrt_floor};
use crate::frame::Frame;
use crate::pos::{crossprod_sign, spec_crossprod_sign, wide_product, Pos, ARM};
use crate::random::{draw_angle, draw_below, draw_between};
use crate::salt::Salt;
use crate::trig::{cos_deg, cosine, normalize_wide, sin_deg, sine, turn};

verus! {

/// How a shape is coloured: a shade that is mixed with the colour of the
/// theme, `weight` hundredths of the shade to the rest of the theme, then
/// disturbed by less than `deviation`; and salt that may take its place.
#[derive(Clone, Debug)]
pub struct ColorItem {
    pub shade: Color,
    pub deviation: u32,
    pub theme: Color,
    pub weight: u32,
    pub salt: Salt,
}

impl ColorItem {
    /// The weight is a number of hundredths.
    pub open spec fn wf(&self) -> bool {
        self.weight <= 100
    }

    /// The shade mixed with the theme.
    pub open spec fn blended(&self) -> Color {
        self.shade.spec_meanpoint(self.theme, self.weight as int)
    }

    /// `c` is a colour that a sample can give.
    pub open spec fn may_sample(&self, c: Color) -> bool {
        self.blended().varies_to(self.deviation as int, c) || self.salt.may_give(c)
    }

    /// A colour for one tile: salt if some shows up, and else the shade
    /// mixed with the theme and disturbed.
    pub fn sample(&self, rng: &mut ThreadRng) -> (r: Color)
        requires
            self.wf(),
        ensures
            self.may_sample(r),
            self.salt@.len() == 0 ==> self.blended().varies_to(self.deviation as int, r),
            self.salt.is_certain() ==> self.salt.may_give(r),
    {
        let base: Color = self.shade.meanpoint(self.theme, self.weight).variate(rng, self.deviation);
        match self.salt.sample(rng) {
            Some(c) => c,
            None => base,
        }
    }

    /// A copy of the recipe.
    pub fn duplicate(&self) -> (r: ColorItem)
        ensures
            r.shade == self.shade,
            r.deviation == self.deviation,
            r.theme == self.theme,
            r.weight == self.weight,
            r.salt@ == self.salt@,
    {
        ColorItem {
            shade: self.shade,
            deviation: self.deviation,
            theme: self.theme,
            weight: self.weight,
            salt: self.salt.duplicate(),
        }
    }
}

/// Anything that holds some of the points of the canvas and colours them.
pub trait Contains {
    /// Whether the point lies in the shape.
    spec fn covers(&self, p: Pos) -> bool;

    /// How the shape is coloured.
    spec fn paint(&self) -> ColorItem;

    /// A colour for the point if it lies in the shape.
    fn contains(&self, p: Pos, rng: &mut ThreadRng) -> (r: Option<Color>)
        requires
            self.paint().wf(),
        ensures
            r is Some <==> self.covers(p),
            r matches Some(c) ==> self.paint().may_sample(c),
    ;
}

/// Scalar product of `p - origin` and `tip - origin`.
pub open spec fn dot_from(origin: Pos, p: Pos, tip: Pos) -> int {
    (p.0 - origin.0) * (tip.0 - origin.0) + (p.1 - origin.1) * (tip.1 - origin.1)
}

/// Vector product of `p - origin` and `tip - origin`.
pub open spec fn cross_from(origin: Pos, p: Pos, tip: Pos) -> int {
    (p.0 - origin.0) * (tip.1 - origin.1) - (p.1 - origin.1) * (tip.0 - origin.0)
}

fn dot3(origin: Pos, p: Pos, tip: Pos) -> (r: i128)
    ensures
        r == dot_from(origin, p, tip),
        -0x8_0000_0000_0000_0000 <= r <= 0x8_0000_0000_0000_0000,
{
    let px: i64 = p.0 as i64 - origin.0 as i64;
    let py: i64 = p.1 as i64 - origin.1 as i64;
    let tx: i64 = tip.0 as i64 - origin.0 as i64;
    let ty: i64 = tip.1 as i64 - origin.1 as i64;
    wide_product(px, tx) + wide_product(py, ty)
}

fn cross3(origin: Pos, p: Pos, tip: Pos) -> (r: i128)
    ensures
        r == cross_from(origin, p, tip),
        -0x8_0000_0000_0000_0000 <= r <= 0x8_0000_0000_0000_0000,
{
    let px: i64 = p.0 as i64 - origin.0 as i64;
    let py: i64 = p.1 as i64 - origin.1 as i64;
    let tx: i64 = tip.0 as i64 - origin.0 as i64;
    let ty: i64 = tip.1 as i64 - origin.1 as i64;
    wide_product(px, ty) - wide_product(py, tx)
}

/// All points less than `radius` away from `center`.
#[derive(Debug)]
pub struct Disc {
    pub center: Pos,
    pub radius: i32,
    pub color: ColorItem,
}

/// The radius of a random disc in a frame whose shorter side is `side`
/// canvas units: a tenth of the side and `hint` thousandths of `trial`
/// thousandths of it.
pub open spec fn disc_radius(side: int, hint: int, trial: int) -> int {
    clip((side * (100_000 + hint * trial)) / 10_000)
}

/// The shorter side of the frame, in canvas units.
pub open spec fn shorter_side(f: Frame) -> int {
    if f.h <= f.w {
        f.h as int
    } else {
        f.w as int
    }
}

impl Disc {
    /// Whether `p` is less than the radius away from the centre.
    pub open spec fn spec_includes(&self, p: Pos) -> bool {
        self.center.spec_dist2(p) < self.radius * self.radius
    }

    /// Whether `p` is less than the radius away from the centre.
    #[verifier::when_used_as_spec(spec_includes)]
    pub fn includes(&self, p: Pos) -> (r: bool)
        ensures
            r == self.spec_includes(p),
    {
        self.center.dist2(p) < wide_product(self.radius as i64, self.radius as i64)
    }

    /// The disc with the given centre whose radius follows from `trial`, a number below a thousand.
    pub fn sized(f: &Frame, center: Pos, color: ColorItem, size_hint: u32, trial: u32) -> (r: Disc)
        requires
            trial < 1000,
        ensures
            r.center == center,
            r.color == color,
            r.radius == disc_radius(shorter_side(*f), size_hint as int, trial as int),
    {
        let side: u128 = if f.h <= f.w {
            f.h as u128
        } else {
            f.w as u128
        };
        assert(0 <= size_hint * trial <= 0xffff_ffff * 1000) by (nonlinear_arith)
            requires
                0 <= size_hint <= 0xffff_ffff,
                0 <= trial < 1000,
        ;
        let factor: u128 = 100_000 + size_hint as u128 * trial as u128;
        assert(0 <= side * factor <= 0xffff_ffff_ffff_ffff * 0x1_0000_0000_0000) by (nonlinear_arith)
            requires
                0 <= side <= 0xffff_ffff_ffff_ffff,
                0 <= factor <= 0x1_0000_0000_0000,
        ;
        let tenths: u128 = (side * factor) / 10_000;
        let radius: i32 = if tenths > 0x7fff_ffff {
            i32::MAX
        } else {
            tenths as i32
        };
        Disc { center, radius, color }
    }

    /// A disc somewhere in the frame, its size guided by `size_hint` thousandths.
    pub fn random(rng: &mut ThreadRng, f: &Frame, color: ColorItem, size_hint: u32) -> (r: Disc)
        ensures
            Pos::random_in(*f, r.center),
            r.color == color,
            exists|trial: int|
                0 <= trial < 1000 && r.radius == #[trigger] disc_radius(
                    shorter_side(*f),
                    size_hint as int,
                    trial,
                ),
    {
        let center: Pos = Pos::random(f, rng);
        let trial: u32 = draw_below(rng, 1000) as u32;
        Disc::sized(f, center, color, size_hint, trial)
    }
}

impl Contains for Disc {
    open spec fn covers(&self, p: Pos) -> bool {
        self.spec_includes(p)
    }

    open spec fn paint(&self) -> ColorItem {
        self.color
    }

    fn contains(&self, p: Pos, rng: &mut ThreadRng) -> (r: Option<Color>) {
        if self.includes(p) {
            Some(self.color.sample(rng))
        } else {
            None
        }
    }
}

/// All points on the far side of the line through `limit` across the
/// direction to `reference`.
#[derive(Debug)]
pub struct HalfPlane {
    pub limit: Pos,
    pub reference: Pos,
    pub color: ColorItem,
}

impl HalfPlane {
    /// Whether `p` lies on the side of the limit that faces away from the reference.
    pub open spec fn spec_includes(&self, p: Pos) -> bool {
        dot_from(self.limit, p, self.reference) < 0
    }

    /// Whether `p` lies on the side of the limit that faces away from the reference.
    #[verifier::when_used_as_spec(spec_includes)]
    pub fn includes(&self, p: Pos) -> (r: bool)
        ensures
            r == self.spec_includes(p),
    {
        dot3(self.limit, p, self.reference) < 0
    }

    /// The reference lies at `indic` degrees from the limit, give or take `var` degrees.
    pub open spec fn faces(&self, indic: int, var: int) -> bool {
        exists|angle: int|
            indic - var <= angle <= indic + var && self.reference == self.limit.spec_plus(
                Pos::spec_polar(#[trigger] turn(angle), ARM as int),
            )
    }

    /// The half plane whose reference lies at `angle` degrees from its limit.
    pub fn toward(limit: Pos, angle: i64, color: ColorItem) -> (r: HalfPlane)
        ensures
            r.limit == limit,
            r.color == color,
            r.reference == limit.spec_plus(Pos::spec_polar(turn(angle as int), ARM as int)),
    {
        HalfPlane {
            limit,
            reference: limit.plus(Pos::polar(normalize_wide(angle as i128), ARM)),
            color,
        }
    }

    /// A half plane whose reference lies at `indic` degrees from its limit,
    /// give or take `var` degrees.
    pub fn random(rng: &mut ThreadRng, limit: Pos, indic: i32, var: u32, color: ColorItem) -> (r:
        HalfPlane)
        ensures
            r.limit == limit,
            r.color == color,
            r.faces(indic as int, var as int),
    {
        let angle: i64 = draw_between(rng, indic as i64 - var as i64, indic as i64 + var as i64 + 1);
        let r = HalfPlane::toward(limit, angle, color);
        assert(r.reference == r.limit.spec_plus(Pos::spec_polar(turn(angle as int), ARM as int)));
        r
    }
}

impl Contains for HalfPlane {
    open spec fn covers(&self, p: Pos) -> bool {
        self.spec_includes(p)
    }

    open spec fn paint(&self) -> ColorItem {
        self.color
    }

    fn contains(&self, p: Pos, rng: &mut ThreadRng) -> (r: Option<Color>) {
        if self.includes(p) {
            Some(self.color.sample(rng))
        } else {
            None
        }
    }
}

/// The points between three corners, in whichever order these are given.
#[derive(Debug)]
pub struct Triangle {
    pub a: Pos,
    pub b: Pos,
    pub c: Pos,
    pub color: ColorItem,
}

impl Triangle {
    /// Whether `p` lies on the same side of all three edges.
    pub open spec fn spec_includes(&self, p: Pos) -> bool {
        let d1 = spec_crossprod_sign(p, self.a, self.b);
        let d2 = spec_crossprod_sign(p, self.b, self.c);
        let d3 = spec_crossprod_sign(p, self.c, self.a);
        (d1 && d2 && d3) || (!d1 && !d2 && !d3)
    }

    /// Whether `p` lies on the same side of all three edges.
    #[verifier::when_used_as_spec(spec_includes)]
    pub fn includes(&self, p: Pos) -> (r: bool)
        ensures
            r == self.spec_includes(p),
    {
        let d1: bool = crossprod_sign(p, self.a, self.b);
        let d2: bool = crossprod_sign(p, self.b, self.c);
        let d3: bool = crossprod_sign(p, self.c, self.a);
        let has_pos: bool = d1 || d2 || d3;
        let has_neg: bool = !(d1 && d2 && d3);
        !(has_neg && has_pos)
    }

    /// The triangle with its corners on the circle of `circ`, the first at
    /// `theta0` degrees, the others `theta1` and then `theta2` degrees further.
    pub fn inscribed(circ: Disc, theta0: i32, theta1: i32, theta2: i32) -> (r: Triangle)
        ensures
            r.color == circ.color,
            r.a == circ.center.spec_plus(Pos::spec_polar(theta0 as int, circ.radius as int)),
            r.b == circ.center.spec_plus(Pos::spec_polar(theta0 + theta1, circ.radius as int)),
            r.c == circ.center.spec_plus(
                Pos::spec_polar(theta0 + theta1 + theta2, circ.radius as int),
            ),
    {
        let second: i32 = crate::trig::turn_sum(theta0, theta1);
        proof {
            crate::trig::lemma_turn_add(theta0 + theta1, theta2 as int);
            crate::pos::lemma_polar_periodic(
                second + theta2,
                theta0 + theta1 + theta2,
                circ.radius as int,
            );
        }
        Triangle {
            a: circ.center.plus(Pos::polar(theta0, circ.radius)),
            b: circ.center.plus(Pos::polar_sum(theta0, theta1, circ.radius)),
            c: circ.center.plus(Pos::polar_sum(second, theta2, circ.radius)),
            color: circ.color,
        }
    }

    /// The corners lie on the circle around `center`, each 80 to 149 degrees
    /// after the one before.
    pub open spec fn on_circle(&self, center: Pos, radius: int) -> bool {
        exists|t0: int, t1: int, t2: int|
            0 <= t0 < 360 && 80 <= t1 < 150 && 80 <= t2 < 150 && self.a == center.spec_plus(
                #[trigger] Pos::spec_polar(t0, radius),
            ) && self.b == center.spec_plus(#[trigger] Pos::spec_polar(t0 + t1, radius)) && self.c
                == center.spec_plus(#[trigger] Pos::spec_polar(t0 + t1 + t2, radius))
    }

    /// A triangle with its corners on the circle of `circ`, each 80 to 149
    /// degrees after the one before.
    pub fn random(rng: &mut ThreadRng, circ: Disc) -> (r: Triangle)
        ensures
            r.color == circ.color,
            r.on_circle(circ.center, circ.radius as int),
    {
        let theta0: i32 = draw_angle(rng);
        let theta1: i32 = draw_between(rng, 80, 150) as i32;
        let theta2: i32 = draw_between(rng, 80, 150) as i32;
        let ghost center = circ.center;
        let ghost radius = circ.radius;
        let r = Triangle::inscribed(circ, theta0, theta1, theta2);
        assert(r.a == center.spec_plus(Pos::spec_polar(theta0 as int, radius as int)));
        assert(r.b == center.spec_plus(Pos::spec_polar(theta0 + theta1, radius as int)));
        assert(r.c == center.spec_plus(Pos::spec_polar(theta0 + theta1 + theta2, radius as int)));
        r
    }
}

impl Contains for Triangle {
    open spec fn covers(&self, p: Pos) -> bool {
        self.spec_includes(p)
    }

    open spec fn paint(&self) -> ColorItem {
        self.color
    }

    fn contains(&self, p: Pos, rng: &mut ThreadRng) -> (r: Option<Color>) {
        if self.includes(p) {
            Some(self.color.sample(rng))
        } else {
            None
        }
    }
}

/// The band between the line through `limit` and the line through
/// `reference`, both across the direction from one to the other.
#[derive(Debug)]
pub struct Stripe {
    pub limit: Pos,
    pub reference: Pos,
    pub color: ColorItem,
}

impl Stripe {
    /// Whether `p` lies between the two lines.
    pub open spec fn spec_includes(&self, p: Pos) -> bool {
        dot_from(self.limit, p, self.reference) > 0 && dot_from(self.reference, p, self.limit) > 0
    }

    /// Whether `p` lies between the two lines.
    #[verifier::when_used_as_spec(spec_includes)]
    pub fn includes(&self, p: Pos) -> (r: bool)
        ensures
            r == self.spec_includes(p),
    {
        dot3(self.limit, p, self.reference) > 0 && dot3(self.reference, p, self.limit) > 0
    }

    /// The reference lies `width` away from the limit, in some direction.
    pub open spec fn spans(&self, width: int) -> bool {
        exists|angle: int|
            0 <= angle < 360 && self.reference == self.limit.spec_plus(
                #[trigger] Pos::spec_polar(angle, width),
            )
    }

    /// The stripe of the given width that runs across `angle` degrees.
    pub fn across(limit: Pos, angle: i32, color: ColorItem, width: i32) -> (r: Stripe)
        ensures
            r.limit == limit,
            r.color == color,
            r.reference == limit.spec_plus(Pos::spec_polar(angle as int, width as int)),
    {
        Stripe { limit, reference: limit.plus(Pos::polar(angle, width)), color }
    }

    /// A stripe of the given width, somewhere in the frame, in any direction.
    pub fn random(rng: &mut ThreadRng, f: &Frame, color: ColorItem, width: i32) -> (r: Stripe)
        ensures
            Pos::random_in(*f, r.limit),
            r.color == color,
            r.spans(width as int),
    {
        let limit: Pos = Pos::random(f, rng);
        let angle: i32 = draw_angle(rng);
        let r = Stripe::across(limit, angle, color, width);
        assert(r.reference == r.limit.spec_plus(Pos::spec_polar(angle as int, width as int)));
        r
    }
}

impl Contains for Stripe {
    open spec fn covers(&self, p: Pos) -> bool {
        self.spec_includes(p)
    }

    open spec fn paint(&self) -> ColorItem {
        self.color
    }

    fn contains(&self, p: Pos, rng: &mut ThreadRng) -> (r: Option<Color>) {
        if self.includes(p) {
            Some(self.color.sample(rng))
        } else {
            None
        }
    }
}

/// Whether the direction of `(x, y)` is at least `a` degrees and less than `a + 1`.
pub open spec fn in_sector(x: int, y: int, a: int) -> bool {
    cosine(a) * y - sine(a) * x >= 0 && cosine(a + 1) * y - sine(a + 1) * x < 0
}

/// The first sector from `a` degrees on that holds the direction of `(x, y)`.
pub open spec fn sector_from(x: int, y: int, a: int) -> int
    decreases 180 - a,
{
    if a >= 179 {
        179
    } else if in_sector(x, y, a) {
        a
    } else {
        sector_from(x, y, a + 1)
    }
}

/// The direction of `(x, y)` in whole degrees, from -180 to 179; zero for no direction.
pub open spec fn bearing(x: int, y: int) -> int {
    if x == 0 && y == 0 {
        0
    } else {
        sector_from(x, y, -180)
    }
}

fn sector_holds(x: i64, y: i64, a: i32) -> (r: bool)
    requires
        -0x1_0000_0000 <= x <= 0x1_0000_0000,
        -0x1_0000_0000 <= y <= 0x1_0000_0000,
        -180 <= a < 180,
    ensures
        r == in_sector(x as int, y as int, a as int),
{
    let low: i128 = wide_product(cos_deg(a) as i64, y) - wide_product(sin_deg(a) as i64, x);
    let high: i128 = wide_product(cos_deg(a + 1) as i64, y) - wide_product(
        sin_deg(a + 1) as i64,
        x,
    );
    low >= 0 && high < 0
}

/// The direction of `(x, y)` in whole degrees.
pub fn bearing_of(x: i64, y: i64) -> (a: i32)
    requires
        -0x1_0000_0000 <= x <= 0x1_0000_0000,
        -0x1_0000_0000 <= y <= 0x1_0000_0000,
    ensures
        a == bearing(x as int, y as int),
        -180 <= a < 180,
{
    if x == 0 && y == 0 {
        return 0;
    }
    let mut a: i32 = -180;
    while a < 179 && !sector_holds(x, y, a)
        invariant
            -180 <= a <= 179,
            -0x1_0000_0000 <= x <= 0x1_0000_0000,
            -0x1_0000_0000 <= y <= 0x1_0000_0000,
            sector_from(x as int, y as int, -180) == sector_from(x as int, y as int, a as int),
        decreases 179 - a,
    {
        a = a + 1;
    }
    a
}

/// Every second turn of a spiral band around `center`, `width` wide.
#[derive(Debug)]
pub struct Spiral {
    pub center: Pos,
    pub width: i32,
    pub tightness: i32,
    pub color: ColorItem,
}

impl Spiral {
    /// The distance of `p` from the centre, stretched by the share of a
    /// half turn that its direction makes.
    pub open spec fn reach(&self, p: Pos) -> int {
        sqrt_floor(self.center.spec_dist2(p)) + (bearing(
            self.center.1 - p.1,
            self.center.0 - p.0,
        ) * self.width) / 180
    }

    /// Whether `p` lies on an even turn of the band. A spiral without a
    /// positive width has no band.
    pub open spec fn spec_includes(&self, p: Pos) -> bool {
        self.width > 0 && (self.reach(p) / (self.width as int)) % 2 == 0
    }

    /// Whether `p` lies on an even turn of the band.
    #[verifier::when_used_as_spec(spec_includes)]
    pub fn includes(&self, p: Pos) -> (r: bool)
        ensures
            r == self.spec_includes(p),
    {
        if self.width <= 0 {
            return false;
        }
        let di: i64 = self.center.0 as i64 - p.0 as i64;
        let dj: i64 = self.center.1 as i64 - p.1 as i64;
        let theta: i128 = bearing_of(dj, di) as i128;
        let radius: i128 = isqrt(self.center.dist2(p) as u128) as i128;
        let w: i128 = self.width as i128;
        assert(-180 * 0x8000_0000 <= theta * w <= 180 * 0x8000_0000) by (nonlinear_arith)
            requires
                -180 <= theta < 180,
                0 < w <= 0x7fff_ffff,
        ;
        let reach: i128 = radius + div_floor_wide(theta * w, 180);
        let band: i128 = div_floor_wide(reach, w);
        let m: i128 = band % 2;
        m == 0
    }

    /// A spiral around a centre somewhere in the frame.
    pub fn random(rng: &mut ThreadRng, f: &Frame, color: ColorItem, width: i32, tightness: i32) -> (r:
        Spiral)
        ensures
            Pos::random_in(*f, r.center),
            r.width == width,
            r.tightness == tightness,
            r.color == color,
    {
        Spiral { center: Pos::random(f, rng), width, tightness, color }
    }
}

impl Contains for Spiral {
    open spec fn covers(&self, p: Pos) -> bool {
        self.spec_includes(p)
    }

    open spec fn paint(&self) -> ColorItem {
        self.color
    }

    fn contains(&self, p: Pos, rng: &mut ThreadRng) -> (r: Option<Color>) {
        if self.includes(p) {
            Some(self.color.sample(rng))
        } else {
            None
        }
    }
}

/// Why a shape could not be built.
#[derive(Clone, Copy, Debug, PartialEq, Eq, Structural)]
pub enum ShapeError {
    /// The reference of a boundary is its limit, so that it has no direction.
    NoDirection,
}

/// Length of the arm from `limit` to `reference`, rounded down.
pub open spec fn arm_length(limit: Pos, reference: Pos) -> int {
    sqrt_floor(limit.spec_dist2(reference))
}

/// How far `p` lies from the line through `limit` and `reference`, rounded
/// down; taken along that line for one canvas unit, `frequency` steps of
/// phase; the phase in hundred thousands of such steps.
pub open spec fn phase_at(limit: Pos, reference: Pos, p: Pos, frequency: int) -> int {
    ((abs(cross_from(limit, p, reference)) / arm_length(limit, reference)) * frequency) / 100_000
}

fn phase_of(limit: Pos, reference: Pos, p: Pos, frequency: i32, len: i128) -> (r: i128)
    requires
        len == arm_length(limit, reference),
        0 < len < 0x100_0000_0000,
    ensures
        r == phase_at(limit, reference, p, frequency as int),
        -0x4_0000_0000_0000_0000_0000_0000 <= r <= 0x4_0000_0000_0000_0000_0000_0000,
{
    let side: i128 = abs_wide(cross3(limit, p, reference));
    let aside: i128 = side / len;
    assert(0 <= aside <= side) by (nonlinear_arith)
        requires
            aside == side / len,
            0 <= side,
            0 < len,
    ;
    assert(-0x8_0000_0000_0000_0000 * 0x8000_0000 <= aside * frequency <= 0x8_0000_0000_0000_0000
        * 0x8000_0000) by (nonlinear_arith)
        requires
            0 <= aside <= 0x8_0000_0000_0000_0000,
            -0x8000_0000 <= frequency <= 0x7fff_ffff,
    ;
    div_floor_wide(aside * frequency as i128, 100_000)
}

/// The points behind a boundary that swings like a cosine about the line
/// through `limit` across the direction to `reference`. The frequency counts
/// thousandths of a degree of phase for each canvas unit along that line.
#[derive(Debug)]
pub struct Wave {
    pub limit: Pos,
    pub reference: Pos,
    pub amplitude: i32,
    pub frequency: i32,
    pub color: ColorItem,
}

/// Thousandths of a degree of phase for each canvas unit along a wave whose
/// pattern is `width` thousandths wide.
pub open spec fn wave_frequency(width: int) -> int {
    if width > 0 {
        div_round(114_592, width)
    } else {
        0
    }
}

impl Wave {
    /// The wave with the given measures, unless its reference is its limit.
    pub fn new(limit: Pos, reference: Pos, amplitude: i32, frequency: i32, color: ColorItem) -> (r:
        Result<Wave, ShapeError>)
        ensures
            r is Ok <==> limit != reference,
            r matches Ok(s) ==> s.limit == limit && s.reference == reference && s.amplitude
                == amplitude && s.frequency == frequency && s.color == color,
            r matches Err(e) ==> e == ShapeError::NoDirection,
    {
        if limit == reference {
            Err(ShapeError::NoDirection)
        } else {
            Ok(Wave { limit, reference, amplitude, frequency, color })
        }
    }

    /// Whether `p` lies behind the boundary. A wave whose reference is its
    /// limit has no direction, and holds no point.
    pub open spec fn spec_includes(&self, p: Pos) -> bool {
        let len = arm_length(self.limit, self.reference);
        len > 0 && cosine(phase_at(self.limit, self.reference, p, self.frequency as int))
            * self.amplitude * len > dot_from(self.limit, p, self.reference) * 1_000_000
    }

    /// Whether `p` lies behind the boundary.
    #[verifier::when_used_as_spec(spec_includes)]
    pub fn includes(&self, p: Pos) -> (r: bool)
        ensures
            r == self.spec_includes(p),
    {
        let len: i128 = isqrt(self.limit.dist2(self.reference) as u128) as i128;
        if len == 0 {
            return false;
        }
        let phase: i128 = phase_of(self.limit, self.reference, p, self.frequency, len);
        let swing: i128 = cos_deg(normalize_wide(phase)) as i128;
        proof {
            crate::trig::lemma_periodic(turn(phase as int), phase as int);
        }
        let along: i128 = dot3(self.limit, p, self.reference);
        let a: i128 = self.amplitude as i128;
        assert(-1_000_000 * 0x8000_0000 <= swing * a <= 1_000_000 * 0x8000_0000) by (nonlinear_arith)
            requires
                -1_000_000 <= swing <= 1_000_000,
                -0x8000_0000 <= a <= 0x7fff_ffff,
        ;
        let sa: i128 = swing * a;
        assert(-1_000_000 * 0x8000_0000 * 0x100_0000_0000 <= sa * len <= 1_000_000 * 0x8000_0000
            * 0x100_0000_0000) by (nonlinear_arith)
            requires
                -1_000_000 * 0x8000_0000 <= sa <= 1_000_000 * 0x8000_0000,
                0 < len < 0x100_0000_0000,
        ;
        assert(swing * a * len == sa * len);
        sa * len > along * 1_000_000
    }

    /// The wave whose reference lies at `indic` degrees from its limit, for a
    /// pattern that is `width` thousandths wide.
    pub fn random(_rng: &mut ThreadRng, limit: Pos, indic: i32, width: i32, amplitude: i32, color: ColorItem) -> (r:
        Wave)
        ensures
            r.limit == limit,
            r.reference == limit.spec_plus(Pos::spec_polar(indic as int, ARM as int)),
            r.amplitude == amplitude,
            r.frequency == wave_frequency(width as int),
            r.color == color,
    {
        let frequency: i32 = if width > 0 {
            div_round_wide(114_592, width as i128) as i32
        } else {
            0
        };
        Wave { limit, reference: limit.plus(Pos::polar(indic, ARM)), amplitude, frequency, color }
    }
}

impl Contains for Wave {
    open spec fn covers(&self, p: Pos) -> bool {
        self.spec_includes(p)
    }

    open spec fn paint(&self) -> ColorItem {
        self.color
    }

    fn contains(&self, p: Pos, rng: &mut ThreadRng) -> (r: Option<Color>) {
        if self.includes(p) {
            Some(self.color.sample(rng))
        } else {
            None
        }
    }
}

/// Height of the zig-zag at the given phase, both in thousandths: up for a
/// thousand, down for a thousand, and the same below the line.
pub open spec fn zigzag(phase: int) -> int {
    let whole = phase / 1000;
    let part = phase % 1000;
    if whole % 4 == 0 {
        part
    } else if whole % 4 == 1 {
        1000 - part
    } else if whole % 4 == 2 {
        -part
    } else {
        part - 1000
    }
}

/// Height of the zig-zag at the given phase.
pub fn zigzag_at(phase: i128) -> (r: i128)
    requires
        -0x8_0000_0000_0000_0000_0000_0000 < phase < 0x8_0000_0000_0000_0000_0000_0000,
    ensures
        r == zigzag(phase as int),
        -1000 <= r <= 1000,
{
    let whole: i128 = div_floor_wide(phase, 1000);
    let part: i128 = phase - whole * 1000;
    let quarter: i128 = whole % 4;
    let quarter: i128 = if quarter < 0 {
        quarter + 4
    } else {
        quarter
    };
    if quarter == 0 {
        part
    } else if quarter == 1 {
        1000 - part
    } else if quarter == 2 {
        -part
    } else {
        part - 1000
    }
}

/// The points behind a boundary that runs in a zig-zag about the line
/// through `limit` across the direction to `reference`. The frequency counts
/// millionths of a rise for each canvas unit along that line.
#[derive(Debug)]
pub struct Sawtooth {
    pub limit: Pos,
    pub reference: Pos,
    pub amplitude: i32,
    pub frequency: i32,
    pub color: ColorItem,
}

/// Millionths of a rise for each canvas unit along a zig-zag whose pattern
/// is `width` thousandths wide.
pub open spec fn sawtooth_frequency(width: int) -> int {
    if width > 0 {
        div_round(1_000_000, width)
    } else {
        0
    }
}

impl Sawtooth {
    /// The zig-zag with the given measures, unless its reference is its limit.
    pub fn new(limit: Pos, reference: Pos, amplitude: i32, frequency: i32, color: ColorItem) -> (r:
        Result<Sawtooth, ShapeError>)
        ensures
            r is Ok <==> limit != reference,
            r matches Ok(s) ==> s.limit == limit && s.reference == reference && s.amplitude
                == amplitude && s.frequency == frequency && s.color == color,
            r matches Err(e) ==> e == ShapeError::NoDirection,
    {
        if limit == reference {
            Err(ShapeError::NoDirection)
        } else {
            Ok(Sawtooth { limit, reference, amplitude, frequency, color })
        }
    }

    /// Whether `p` lies behind the boundary. A zig-zag whose reference is
    /// its limit has no direction, and holds no point.
    pub open spec fn spec_includes(&self, p: Pos) -> bool {
        let len = arm_length(self.limit, self.reference);
        len > 0 && zigzag(phase_at(self.limit, self.reference, p, self.frequency as int))
            * self.amplitude * len > dot_from(self.limit, p, self.reference) * 1000
    }

    /// Whether `p` lies behind the boundary.
    #[verifier::when_used_as_spec(spec_includes)]
    pub fn includes(&self, p: Pos) -> (r: bool)
        ensures
            r == self.spec_includes(p),
    {
        let len: i128 = isqrt(self.limit.dist2(self.reference) as u128) as i128;
        if len == 0 {
            return false;
        }
        let phase: i128 = phase_of(self.limit, self.reference, p, self.frequency, len);
        let height: i128 = zigzag_at(phase);
        let along: i128 = dot3(self.limit, p, self.reference);
        let a: i128 = self.amplitude as i128;
        assert(-1000 * 0x8000_0000 <= height * a <= 1000 * 0x8000_0000) by (nonlinear_arith)
            requires
                -1000 <= height <= 1000,
                -0x8000_0000 <= a <= 0x7fff_ffff,
        ;
        let ha: i128 = height * a;
        assert(-1000 * 0x8000_0000 * 0x100_0000_0000 <= ha * len <= 1000 * 0x8000_0000
            * 0x100_0000_0000) by (nonlinear_arith)
            requires
                -1000 * 0x8000_0000 <= ha <= 1000 * 0x8000_0000,
                0 < len < 0x100_0000_0000,
        ;
        assert(height * a * len == ha * len);
        ha * len > along * 1000
    }

    /// The zig-zag whose reference lies at `indic` degrees from its limit,
    /// for a pattern that is `width` thousandths wide.
    pub fn random(_rng: &mut ThreadRng, limit: Pos, indic: i32, width: i32, amplitude: i32, color: ColorItem) -> (r:
        Sawtooth)
        ensures
            r.limit == limit,
            r.reference == limit.spec_plus(Pos::spec_polar(indic as int, ARM as int)),
            r.amplitude == amplitude,
            r.frequency == sawtooth_frequency(width as int),
            r.color == color,
    {
        let frequency: i32 = if width > 0 {
            div_round_wide(1_000_000, width as i128) as i32
        } else {
            0
        };
        Sawtooth { limit, reference: limit.plus(Pos::polar(indic, ARM)), amplitude, frequency, color }
    }
}

impl Contains for Sawtooth {
    open spec fn covers(&self, p: Pos) -> bool {
        self.spec_includes(p)
    }

    open spec fn paint(&self) -> ColorItem {
        self.color
    }

    fn contains(&self, p: Pos, rng: &mut ThreadRng) -> (r: Option<Color>) {
        if self.includes(p) {
            Some(self.color.sample(rng))
        } else {
            None
        }
    }
}

/// One of the shapes that a scene can hold.
#[derive(Debug)]
pub enum Shape {
    Disc(Disc),
    HalfPlane(HalfPlane),
    Triangle(Triangle),
    Spiral(Spiral),
    Stripe(Stripe),
    Wave(Wave),
    Sawtooth(Sawtooth),
}

impl Contains for Shape {
    open spec fn covers(&self, p: Pos) -> bool {
        match self {
            Shape::Disc(s) => s.covers(p),
            Shape::HalfPlane(s) => s.covers(p),
            Shape::Triangle(s) => s.covers(p),
            Shape::Spiral(s) => s.covers(p),
            Shape::Stripe(s) => s.covers(p),
            Shape::Wave(s) => s.covers(p),
            Shape::Sawtooth(s) => s.covers(p),
        }
    }

    open spec fn paint(&self) -> ColorItem {
        match self {
            Shape::Disc(s) => s.color,
            Shape::HalfPlane(s) => s.color,
            Shape::Triangle(s) => s.color,
            Shape::Spiral(s) => s.color,
            Shape::Stripe(s) => s.color,
            Shape::Wave(s) => s.color,
            Shape::Sawtooth(s) => s.color,
        }
    }

    fn contains(&self, p: Pos, rng: &mut ThreadRng) -> (r: Option<Color>) {
        match self {
            Shape::Disc(s) => s.contains(p, rng),
            Shape::HalfPlane(s) => s.contains(p, rng),
            Shape::Triangle(s) => s.contains(p, rng),
            Shape::Spiral(s) => s.contains(p, rng),
            Shape::Stripe(s) => s.contains(p, rng),
            Shape::Wave(s) => s.contains(p, rng),
            Shape::Sawtooth(s) => s.contains(p, rng),
        }
    }
}

/// The shapes of an image, topmost first, over a background.
pub struct Scene {
    pub bg: ColorItem,
    pub items: Vec<Shape>,
}

/// Index of the first shape from `i` on that holds `p`; the number of
/// shapes if none does.
pub open spec fn first_hit(items: Seq<Shape>, p: Pos, i: int) -> int
    decreases items.len() - i,
{
    if i >= items.len() {
        items.len() as int
    } else if items[i].covers(p) {
        i
    } else {
        first_hit(items, p, i + 1)
    }
}

/// Every shape is coloured by a well-formed recipe.
pub open spec fn shapes_wf(items: Seq<Shape>) -> bool {
    forall|i: int| 0 <= i < items.len() ==> (#[trigger] items[i]).paint().wf()
}

impl Scene {
    /// The background and every shape are coloured by well-formed recipes.
    pub open spec fn wf(&self) -> bool {
        self.bg.wf() && shapes_wf(self.items@)
    }

    /// How the point `p` is coloured: as the topmost shape that holds it, or
    /// as the background where none does.
    pub open spec fn paint_at(&self, p: Pos) -> ColorItem {
        let k = first_hit(self.items@, p, 0);
        if k < self.items@.len() {
            self.items@[k].paint()
        } else {
            self.bg
        }
    }

    /// The scene that `cfg` describes: a background from its theme, and the
    /// shapes of its pattern.
    pub fn new(cfg: &crate::cfg::SceneCfg, rng: &mut ThreadRng) -> (r: Scene)
        requires
            cfg.wf(),
        ensures
            r.wf(),
            cfg.may_choose(r.bg),
            crate::paint::follows(*cfg, r.items@),
    {
        let bg: ColorItem = cfg.choose_color(rng);
        let items: Vec<Shape> = cfg.create_items(rng);
        Scene { bg, items }
    }

    /// A colour for the point `p`, sampled from the topmost shape that holds
    /// it, or from the background where none does.
    pub fn color(&self, p: Pos, rng: &mut ThreadRng) -> (r: Color)
        requires
            self.wf(),
        ensures
            self.paint_at(p).may_sample(r),
    {
        let mut i: usize = 0;
        while i < self.items.len()
            invariant
                0 <= i <= self.items.len(),
                self.wf(),
                first_hit(self.items@, p, 0) == first_hit(self.items@, p, i as int),
            decreases self.items.len() - i,
        {
            assert(self.items@[i as int].paint().wf());
            match self.items[i].contains(p, rng) {
                Some(c) => {
                    return c;
                },
                None => {},
            }
            i = i + 1;
        }
        self.bg.sample(rng)
    }
}

} // verus!
