//! The patterns: how the shapes of a scene are laid out.

use vstd::prelude::*;
use rand::rngs::ThreadRng;
use crate::cfg::{Pattern, SceneCfg};
use crate::fixed::{clip, clip_wide, div_floor_wide, sqrt_floor};
use crate::frame::Frame;
use crate::pos::{Pos, ARM};
use crate::random::{draw_angle, draw_below};
use crate::scene::{
    disc_radius, sawtooth_frequency, shorter_side, wave_frequency, ColorItem, Disc, HalfPlane,
    Sawtooth, Shape, Spiral, Stripe, Triangle, Wave,
};

verus! {

/// The shapes that stand for the given items, in their order.
pub open spec fn wrap_discs(v: Seq<Disc>) -> Seq<Shape> {
    Seq::new(v.len(), |k: int| Shape::Disc(v[k]))
}

/// Makes shapes of the items, in their order.
pub fn discs(v: Vec<Disc>) -> (r: Vec<Shape>)
    ensures
        r@ == wrap_discs(v@),
{
    let ghost all = v@;
    let mut v = v;
    let mut turned: Vec<Disc> = Vec::new();
    while v.len() > 0
        invariant
            v@.len() + turned@.len() == all.len(),
            forall|k: int| 0 <= k < v@.len() ==> v@[k] == all[k],
            forall|k: int| 0 <= k < turned@.len() ==> turned@[k] == all[all.len() - 1 - k],
        decreases v.len(),
    {
        let last = v.pop().unwrap();
        turned.push(last);
    }
    let mut r: Vec<Shape> = Vec::new();
    while turned.len() > 0
        invariant
            r@.len() + turned@.len() == all.len(),
            forall|k: int| 0 <= k < turned@.len() ==> turned@[k] == all[all.len() - 1 - k],
            forall|k: int| 0 <= k < r@.len() ==> r@[k] == Shape::Disc(all[k]),
        decreases turned.len(),
    {
        let item = turned.pop().unwrap();
        r.push(Shape::Disc(item));
    }
    assert(r@ =~= wrap_discs(all));
    r
}

/// The shapes that stand for the given items, in their order.
pub open spec fn wrap_half_planes(v: Seq<HalfPlane>) -> Seq<Shape> {
    Seq::new(v.len(), |k: int| Shape::HalfPlane(v[k]))
}

/// Makes shapes of the items, in their order.
pub fn half_planes(v: Vec<HalfPlane>) -> (r: Vec<Shape>)
    ensures
        r@ == wrap_half_planes(v@),
{
    let ghost all = v@;
    let mut v = v;
    let mut turned: Vec<HalfPlane> = Vec::new();
    while v.len() > 0
        invariant
            v@.len() + turned@.len() == all.len(),
            forall|k: int| 0 <= k < v@.len() ==> v@[k] == all[k],
            forall|k: int| 0 <= k < turned@.len() ==> turned@[k] == all[all.len() - 1 - k],
        decreases v.len(),
    {
        let last = v.pop().unwrap();
        turned.push(last);
    }
    let mut r: Vec<Shape> = Vec::new();
    while turned.len() > 0
        invariant
            r@.len() + turned@.len() == all.len(),
            forall|k: int| 0 <= k < turned@.len() ==> turned@[k] == all[all.len() - 1 - k],
            forall|k: int| 0 <= k < r@.len() ==> r@[k] == Shape::HalfPlane(all[k]),
        decreases turned.len(),
    {
        let item = turned.pop().unwrap();
        r.push(Shape::HalfPlane(item));
    }
    assert(r@ =~= wrap_half_planes(all));
    r
}

/// The shapes that stand for the given items, in their order.
pub open spec fn wrap_triangles(v: Seq<Triangle>) -> Seq<Shape> {
    Seq::new(v.len(), |k: int| Shape::Triangle(v[k]))
}

/// Makes shapes of the items, in their order.
pub fn triangles(v: Vec<Triangle>) -> (r: Vec<Shape>)
    ensures
        r@ == wrap_triangles(v@),
{
    let ghost all = v@;
    let mut v = v;
    let mut turned: Vec<Triangle> = Vec::new();
    while v.len() > 0
        invariant
            v@.len() + turned@.len() == all.len(),
            forall|k: int| 0 <= k < v@.len() ==> v@[k] == all[k],
            forall|k: int| 0 <= k < turned@.len() ==> turned@[k] == all[all.len() - 1 - k],
        decreases v.len(),
    {
        let last = v.pop().unwrap();
        turned.push(last);
    }
    let mut r: Vec<Shape> = Vec::new();
    while turned.len() > 0
        invariant
            r@.len() + turned@.len() == all.len(),
            forall|k: int| 0 <= k < turned@.len() ==> turned@[k] == all[all.len() - 1 - k],
            forall|k: int| 0 <= k < r@.len() ==> r@[k] == Shape::Triangle(all[k]),
        decreases turned.len(),
    {
        let item = turned.pop().unwrap();
        r.push(Shape::Triangle(item));
    }
    assert(r@ =~= wrap_triangles(all));
    r
}

/// The shapes that stand for the given items, in their order.
pub open spec fn wrap_spirals(v: Seq<Spiral>) -> Seq<Shape> {
    Seq::new(v.len(), |k: int| Shape::Spiral(v[k]))
}

/// Makes shapes of the items, in their order.
pub fn spirals(v: Vec<Spiral>) -> (r: Vec<Shape>)
    ensures
        r@ == wrap_spirals(v@),
{
    let ghost all = v@;
    let mut v = v;
    let mut turned: Vec<Spiral> = Vec::new();
    while v.len() > 0
        invariant
            v@.len() + turned@.len() == all.len(),
            forall|k: int| 0 <= k < v@.len() ==> v@[k] == all[k],
            forall|k: int| 0 <= k < turned@.len() ==> turned@[k] == all[all.len() - 1 - k],
        decreases v.len(),
    {
        let last = v.pop().unwrap();
        turned.push(last);
    }
    let mut r: Vec<Shape> = Vec::new();
    while turned.len() > 0
        invariant
            r@.len() + turned@.len() == all.len(),
            forall|k: int| 0 <= k < turned@.len() ==> turned@[k] == all[all.len() - 1 - k],
            forall|k: int| 0 <= k < r@.len() ==> r@[k] == Shape::Spiral(all[k]),
        decreases turned.len(),
    {
        let item = turned.pop().unwrap();
        r.push(Shape::Spiral(item));
    }
    assert(r@ =~= wrap_spirals(all));
    r
}

/// The shapes that stand for the given items, in their order.
pub open spec fn wrap_stripes(v: Seq<Stripe>) -> Seq<Shape> {
    Seq::new(v.len(), |k: int| Shape::Stripe(v[k]))
}

/// Makes shapes of the items, in their order.
pub fn stripes(v: Vec<Stripe>) -> (r: Vec<Shape>)
    ensures
        r@ == wrap_stripes(v@),
{
    let ghost all = v@;
    let mut v = v;
    let mut turned: Vec<Stripe> = Vec::new();
    while v.len() > 0
        invariant
            v@.len() + turned@.len() == all.len(),
            forall|k: int| 0 <= k < v@.len() ==> v@[k] == all[k],
            forall|k: int| 0 <= k < turned@.len() ==> turned@[k] == all[all.len() - 1 - k],
        decreases v.len(),
    {
        let last = v.pop().unwrap();
        turned.push(last);
    }
    let mut r: Vec<Shape> = Vec::new();
    while turned.len() > 0
        invariant
            r@.len() + turned@.len() == all.len(),
            forall|k: int| 0 <= k < turned@.len() ==> turned@[k] == all[all.len() - 1 - k],
            forall|k: int| 0 <= k < r@.len() ==> r@[k] == Shape::Stripe(all[k]),
        decreases turned.len(),
    {
        let item = turned.pop().unwrap();
        r.push(Shape::Stripe(item));
    }
    assert(r@ =~= wrap_stripes(all));
    r
}

/// The shapes that stand for the given items, in their order.
pub open spec fn wrap_waves(v: Seq<Wave>) -> Seq<Shape> {
    Seq::new(v.len(), |k: int| Shape::Wave(v[k]))
}

/// Makes shapes of the items, in their order.
pub fn waves(v: Vec<Wave>) -> (r: Vec<Shape>)
    ensures
        r@ == wrap_waves(v@),
{
    let ghost all = v@;
    let mut v = v;
    let mut turned: Vec<Wave> = Vec::new();
    while v.len() > 0
        invariant
            v@.len() + turned@.len() == all.len(),
            forall|k: int| 0 <= k < v@.len() ==> v@[k] == all[k],
            forall|k: int| 0 <= k < turned@.len() ==> turned@[k] == all[all.len() - 1 - k],
        decreases v.len(),
    {
        let last = v.pop().unwrap();
        turned.push(last);
    }
    let mut r: Vec<Shape> = Vec::new();
    while turned.len() > 0
        invariant
            r@.len() + turned@.len() == all.len(),
            forall|k: int| 0 <= k < turned@.len() ==> turned@[k] == all[all.len() - 1 - k],
            forall|k: int| 0 <= k < r@.len() ==> r@[k] == Shape::Wave(all[k]),
        decreases turned.len(),
    {
        let item = turned.pop().unwrap();
        r.push(Shape::Wave(item));
    }
    assert(r@ =~= wrap_waves(all));
    r
}

/// The shapes that stand for the given items, in their order.
pub open spec fn wrap_sawteeth(v: Seq<Sawtooth>) -> Seq<Shape> {
    Seq::new(v.len(), |k: int| Shape::Sawtooth(v[k]))
}

/// Makes shapes of the items, in their order.
pub fn sawteeth(v: Vec<Sawtooth>) -> (r: Vec<Shape>)
    ensures
        r@ == wrap_sawteeth(v@),
{
    let ghost all = v@;
    let mut v = v;
    let mut turned: Vec<Sawtooth> = Vec::new();
    while v.len() > 0
        invariant
            v@.len() + turned@.len() == all.len(),
            forall|k: int| 0 <= k < v@.len() ==> v@[k] == all[k],
            forall|k: int| 0 <= k < turned@.len() ==> turned@[k] == all[all.len() - 1 - k],
        decreases v.len(),
    {
        let last = v.pop().unwrap();
        turned.push(last);
    }
    let mut r: Vec<Shape> = Vec::new();
    while turned.len() > 0
        invariant
            r@.len() + turned@.len() == all.len(),
            forall|k: int| 0 <= k < turned@.len() ==> turned@[k] == all[all.len() - 1 - k],
            forall|k: int| 0 <= k < r@.len() ==> r@[k] == Shape::Sawtooth(all[k]),
        decreases turned.len(),
    {
        let item = turned.pop().unwrap();
        r.push(Shape::Sawtooth(item));
    }
    assert(r@ =~= wrap_sawteeth(all));
    r
}

/// The radius does not shrink along the list.
pub open spec fn discs_sorted(s: Seq<Disc>) -> bool {
    forall|i: int, j: int| 0 <= i <= j < s.len() ==> s[i].radius <= s[j].radius
}

/// Puts an item into a sorted list, behind those that are not larger.
fn insert_disc(items: &mut Vec<Disc>, item: Disc)
    requires
        discs_sorted(old(items)@),
    ensures
        discs_sorted(final(items)@),
        exists|k: int| 0 <= k <= old(items)@.len() && final(items)@ == #[trigger] old(items)@.insert(k, item),
{
    let mut k: usize = 0;
    while k < items.len() && items[k].radius <= item.radius
        invariant
            0 <= k <= items@.len(),
            items@ == old(items)@,
            forall|j: int| 0 <= j < k ==> items@[j].radius <= item.radius,
        decreases items@.len() - k,
    {
        k = k + 1;
    }
    let ghost before = items@;
    items.insert(k, item);
    assert(items@ == before.insert(k as int, item));
    assert forall|i: int, j: int| 0 <= i <= j < items@.len() implies items@[i].radius <= items@[j].radius by {
        if i < k && j > k {
            assert(items@[j] == before[j - 1]);
        }
    }
}

/// The width does not shrink along the list.
pub open spec fn spirals_sorted(s: Seq<Spiral>) -> bool {
    forall|i: int, j: int| 0 <= i <= j < s.len() ==> s[i].width <= s[j].width
}

/// Puts an item into a sorted list, behind those that are not larger.
fn insert_spiral(items: &mut Vec<Spiral>, item: Spiral)
    requires
        spirals_sorted(old(items)@),
    ensures
        spirals_sorted(final(items)@),
        exists|k: int| 0 <= k <= old(items)@.len() && final(items)@ == #[trigger] old(items)@.insert(k, item),
{
    let mut k: usize = 0;
    while k < items.len() && items[k].width <= item.width
        invariant
            0 <= k <= items@.len(),
            items@ == old(items)@,
            forall|j: int| 0 <= j < k ==> items@[j].width <= item.width,
        decreases items@.len() - k,
    {
        k = k + 1;
    }
    let ghost before = items@;
    items.insert(k, item);
    assert(items@ == before.insert(k as int, item));
    assert forall|i: int, j: int| 0 <= i <= j < items@.len() implies items@[i].width <= items@[j].width by {
        if i < k && j > k {
            assert(items@[j] == before[j - 1]);
        }
    }
}

/// Every item has a colour that the scene may choose.
pub open spec fn discs_chosen(cfg: SceneCfg, v: Seq<Disc>) -> bool {
    forall|k: int| 0 <= k < v.len() ==> cfg.may_choose((#[trigger] v[k]).color)
}

/// Every item has a colour that the scene may choose.
pub open spec fn half_planes_chosen(cfg: SceneCfg, v: Seq<HalfPlane>) -> bool {
    forall|k: int| 0 <= k < v.len() ==> cfg.may_choose((#[trigger] v[k]).color)
}

/// Every item has a colour that the scene may choose.
pub open spec fn triangles_chosen(cfg: SceneCfg, v: Seq<Triangle>) -> bool {
    forall|k: int| 0 <= k < v.len() ==> cfg.may_choose((#[trigger] v[k]).color)
}

/// Every item has a colour that the scene may choose.
pub open spec fn spirals_chosen(cfg: SceneCfg, v: Seq<Spiral>) -> bool {
    forall|k: int| 0 <= k < v.len() ==> cfg.may_choose((#[trigger] v[k]).color)
}

/// Every item has a colour that the scene may choose.
pub open spec fn stripes_chosen(cfg: SceneCfg, v: Seq<Stripe>) -> bool {
    forall|k: int| 0 <= k < v.len() ==> cfg.may_choose((#[trigger] v[k]).color)
}

/// Every item has a colour that the scene may choose.
pub open spec fn waves_chosen(cfg: SceneCfg, v: Seq<Wave>) -> bool {
    forall|k: int| 0 <= k < v.len() ==> cfg.may_choose((#[trigger] v[k]).color)
}

/// Every item has a colour that the scene may choose.
pub open spec fn sawteeth_chosen(cfg: SceneCfg, v: Seq<Sawtooth>) -> bool {
    forall|k: int| 0 <= k < v.len() ==> cfg.may_choose((#[trigger] v[k]).color)
}

/// The share `max` thousandths of the way `i` of `n`.
pub open spec fn hint(max: int, i: int, n: int) -> int {
    (max * i) / n
}

/// A disc as the free patterns scatter them: a centre somewhere over the
/// frame, a colour of the theme, and a radius that grows with the place
/// of the disc among the `nb_pattern` that are made.
pub open spec fn free_disc(cfg: SceneCfg, d: Disc, max: int) -> bool {
    &&& cfg.may_choose(d.color)
    &&& Pos::random_in(cfg.frame, d.center)
    &&& exists|i: int, trial: int|
        1 <= i <= cfg.nb_pattern && 0 <= trial < 1000 && d.radius == #[trigger] disc_radius(
            shorter_side(cfg.frame),
            hint(max, i, cfg.nb_pattern as int),
            trial,
        )
}

/// Discs all over the frame, the smallest first.
pub open spec fn free_circles(cfg: SceneCfg, items: Seq<Disc>) -> bool {
    &&& items.len() == cfg.nb_pattern
    &&& discs_sorted(items)
    &&& forall|k: int| 0 <= k < items.len() ==> free_disc(cfg, #[trigger] items[k], 500)
}

fn free_discs(rng: &mut ThreadRng, cfg: &SceneCfg, max: u32) -> (items: Vec<Disc>)
    requires
        cfg.wf(),
        max <= 1000,
    ensures
        items@.len() == cfg.nb_pattern,
        discs_sorted(items@),
        forall|k: int| 0 <= k < items@.len() ==> free_disc(*cfg, #[trigger] items@[k], max as int),
{
    let mut items: Vec<Disc> = Vec::new();
    let n: u64 = cfg.nb_pattern as u64;
    let mut i: u64 = 1;
    while i <= n
        invariant
            1 <= i <= n + 1,
            n == cfg.nb_pattern,
            max <= 1000,
            cfg.wf(),
            items@.len() == i - 1,
            discs_sorted(items@),
            forall|k: int| 0 <= k < items@.len() ==> free_disc(*cfg, #[trigger] items@[k], max as int),
        decreases n + 1 - i,
    {
        let c: ColorItem = cfg.choose_color(rng);
        assert(0 <= max * i <= 1000 * 0xffff_ffff) by (nonlinear_arith)
            requires
                0 <= max <= 1000,
                1 <= i <= 0xffff_ffff,
        ;
        assert((max * i) / (n as int) <= max) by (nonlinear_arith)
            requires
                0 <= max,
                1 <= i <= n,
        ;
        let size_hint: u32 = ((max as u64 * i) / n) as u32;
        let d: Disc = Disc::random(rng, &cfg.frame, c, size_hint);
        proof {
            let trial = choose|trial: int|
                0 <= trial < 1000 && d.radius == #[trigger] disc_radius(
                    shorter_side(cfg.frame),
                    size_hint as int,
                    trial,
                );
            assert(d.radius == disc_radius(
                shorter_side(cfg.frame),
                hint(max as int, i as int, cfg.nb_pattern as int),
                trial,
            ));
            assert(free_disc(*cfg, d, max as int));
        }
        let ghost before = items@;
        insert_disc(&mut items, d);
        proof {
            let k = choose|k: int| 0 <= k <= before.len() && items@ == #[trigger] before.insert(k, d);
            assert forall|j: int| 0 <= j < items@.len() implies free_disc(
                *cfg,
                #[trigger] items@[j],
                max as int,
            ) by {
                if j < k {
                    assert(items@[j] == before[j]);
                } else if j > k {
                    assert(items@[j] == before[j - 1]);
                }
            }
        }
        i = i + 1;
    }
    items
}

/// Discs scattered over the frame, the smallest first.
pub fn create_free_circles(rng: &mut ThreadRng, cfg: &SceneCfg) -> (items: Vec<Disc>)
    requires
        cfg.wf(),
    ensures
        free_circles(*cfg, items@),
        discs_chosen(*cfg, items@),
{
    free_discs(rng, cfg, 500)
}

/// The triangle lies in the circle of the disc, and is coloured as the disc.
pub open spec fn drawn_in(t: Triangle, circ: Disc) -> bool {
    t.color == circ.color && t.on_circle(circ.center, circ.radius as int)
}

/// Triangles all over the frame, each in the circle of a disc as the free
/// patterns scatter them, those in the smaller discs first.
pub open spec fn free_triangles(cfg: SceneCfg, items: Seq<Triangle>) -> bool {
    exists|circles: Seq<Disc>|
        {
            &&& circles.len() == cfg.nb_pattern
            &&& items.len() == cfg.nb_pattern
            &&& #[trigger] discs_sorted(circles)
            &&& forall|k: int| 0 <= k < circles.len() ==> free_disc(cfg, #[trigger] circles[k], 700)
            &&& forall|k: int| 0 <= k < items.len() ==> drawn_in(#[trigger] items[k], circles[k])
        }
}

/// Triangles scattered over the frame, each in the circle of a disc, those
/// of the smaller discs first.
pub fn create_free_triangles(rng: &mut ThreadRng, cfg: &SceneCfg) -> (items: Vec<Triangle>)
    requires
        cfg.wf(),
    ensures
        free_triangles(*cfg, items@),
        triangles_chosen(*cfg, items@),
{
    let mut circles: Vec<Disc> = free_discs(rng, cfg, 700);
    let ghost all = circles@;
    let mut turned: Vec<Triangle> = Vec::new();
    while circles.len() > 0
        invariant
            circles@.len() + turned@.len() == all.len(),
            forall|k: int| 0 <= k < circles@.len() ==> circles@[k] == all[k],
            forall|k: int| 0 <= k < all.len() ==> free_disc(*cfg, #[trigger] all[k], 700),
            forall|k: int|
                0 <= k < turned@.len() ==> drawn_in(#[trigger] turned@[k], all[all.len() - 1 - k]),
        decreases circles.len(),
    {
        let circ: Disc = circles.pop().unwrap();
        assert(circ == all[circles@.len() as int]);
        let ghost before = turned@;
        let t: Triangle = Triangle::random(rng, circ);
        turned.push(t);
        assert forall|k: int| 0 <= k < turned@.len() implies drawn_in(
            #[trigger] turned@[k],
            all[all.len() - 1 - k],
        ) by {
            if k < before.len() {
                assert(turned@[k] == before[k]);
            }
        }
    }
    // the triangles of the smaller discs come first again
    let mut items: Vec<Triangle> = Vec::new();
    let ghost made = turned@;
    while turned.len() > 0
        invariant
            items@.len() + turned@.len() == made.len(),
            made.len() == all.len(),
            forall|k: int| 0 <= k < turned@.len() ==> turned@[k] == made[k],
            forall|k: int|
                0 <= k < made.len() ==> drawn_in(#[trigger] made[k], all[all.len() - 1 - k]),
            forall|k: int| 0 <= k < items@.len() ==> drawn_in(#[trigger] items@[k], all[k]),
        decreases turned.len(),
    {
        let t: Triangle = turned.pop().unwrap();
        assert(t == made[turned@.len() as int]);
        let ghost before = items@;
        items.push(t);
        assert forall|k: int| 0 <= k < items@.len() implies drawn_in(#[trigger] items@[k], all[k]) by {
            if k < before.len() {
                assert(items@[k] == before[k]);
            }
        }
    }
    proof {
        assert forall|k: int| 0 <= k < items@.len() implies cfg.may_choose(
            (#[trigger] items@[k]).color,
        ) by {
            assert(drawn_in(items@[k], all[k]));
            assert(free_disc(*cfg, all[k], 700));
        }
        assert(discs_sorted(all));
    }
    items
}

/// Width of a free stripe or spiral: `width` thousandths of the height `h`
/// of the frame, taken from a half to one and a half times by `trial`.
pub open spec fn band_width(h: int, width: int, trial: int) -> int {
    clip((h * width * (trial + 500)) / 10_000)
}

/// Width of a free stripe or spiral for the draw `trial`, a number below a thousand.
pub fn band_width_of(h: usize, width: i32, trial: u32) -> (w: i32)
    requires
        trial < 1000,
    ensures
        w == band_width(h as int, width as int, trial as int),
{
    let hw: i128 = h as i128;
    assert(-0xffff_ffff_ffff_ffff * 0x8000_0000 <= hw * width <= 0xffff_ffff_ffff_ffff * 0x8000_0000)
        by (nonlinear_arith)
        requires
            0 <= hw <= 0xffff_ffff_ffff_ffff,
            -0x8000_0000 <= width <= 0x7fff_ffff,
    ;
    let area: i128 = hw * width as i128;
    let t: i128 = trial as i128 + 500;
    assert(-0xffff_ffff_ffff_ffff * 0x8000_0000 * 1500 <= area * t <= 0xffff_ffff_ffff_ffff
        * 0x8000_0000 * 1500) by (nonlinear_arith)
        requires
            -0xffff_ffff_ffff_ffff * 0x8000_0000 <= area <= 0xffff_ffff_ffff_ffff * 0x8000_0000,
            500 <= t < 1500,
    ;
    clip_wide(div_floor_wide(area * t, 10_000))
}

/// A stripe of the free pattern: somewhere over the frame, in any direction.
pub open spec fn free_stripe(cfg: SceneCfg, s: Stripe) -> bool {
    &&& cfg.may_choose(s.color)
    &&& Pos::random_in(cfg.frame, s.limit)
    &&& exists|trial: int|
        0 <= trial < 1000 && s.spans(
            #[trigger] band_width(cfg.frame.h as int, cfg.width_pattern as int, trial),
        )
}

/// Stripes all over the frame.
pub open spec fn free_stripes(cfg: SceneCfg, items: Seq<Stripe>) -> bool {
    &&& items.len() == cfg.nb_pattern
    &&& forall|k: int| 0 <= k < items.len() ==> free_stripe(cfg, #[trigger] items[k])
}

/// Stripes scattered over the frame.
pub fn create_free_stripes(rng: &mut ThreadRng, cfg: &SceneCfg) -> (items: Vec<Stripe>)
    requires
        cfg.wf(),
    ensures
        free_stripes(*cfg, items@),
        stripes_chosen(*cfg, items@),
{
    let mut items: Vec<Stripe> = Vec::new();
    let mut i: u32 = 0;
    while i < cfg.nb_pattern
        invariant
            0 <= i <= cfg.nb_pattern,
            cfg.wf(),
            items@.len() == i,
            forall|k: int| 0 <= k < items@.len() ==> free_stripe(*cfg, #[trigger] items@[k]),
        decreases cfg.nb_pattern - i,
    {
        let c: ColorItem = cfg.choose_color(rng);
        let trial: u32 = draw_below(rng, 1000) as u32;
        let w: i32 = band_width_of(cfg.frame.h, cfg.width_pattern, trial);
        let s: Stripe = Stripe::random(rng, &cfg.frame, c, w);
        assert(free_stripe(*cfg, s)) by {
            assert(s.spans(band_width(cfg.frame.h as int, cfg.width_pattern as int, trial as int)));
        }
        let ghost before = items@;
        items.push(s);
        assert forall|k: int| 0 <= k < items@.len() implies free_stripe(*cfg, #[trigger] items@[k]) by {
            if k < before.len() {
                assert(items@[k] == before[k]);
            }
        }
        i = i + 1;
    }
    items
}

/// A spiral of the free pattern: around a centre somewhere over the frame.
pub open spec fn free_spiral(cfg: SceneCfg, s: Spiral) -> bool {
    &&& cfg.may_choose(s.color)
    &&& Pos::random_in(cfg.frame, s.center)
    &&& s.tightness == cfg.tightness_spiral
    &&& exists|trial: int|
        0 <= trial < 1000 && s.width == #[trigger] band_width(
            cfg.frame.h as int,
            cfg.width_pattern as int,
            trial,
        )
}

/// Spirals all over the frame, the narrowest first.
pub open spec fn free_spirals(cfg: SceneCfg, items: Seq<Spiral>) -> bool {
    &&& items.len() == cfg.nb_pattern
    &&& spirals_sorted(items)
    &&& forall|k: int| 0 <= k < items.len() ==> free_spiral(cfg, #[trigger] items[k])
}

/// Spirals scattered over the frame, the narrowest first.
pub fn create_free_spirals(rng: &mut ThreadRng, cfg: &SceneCfg) -> (items: Vec<Spiral>)
    requires
        cfg.wf(),
    ensures
        free_spirals(*cfg, items@),
        spirals_chosen(*cfg, items@),
{
    let mut items: Vec<Spiral> = Vec::new();
    let mut i: u32 = 0;
    while i < cfg.nb_pattern
        invariant
            0 <= i <= cfg.nb_pattern,
            cfg.wf(),
            items@.len() == i,
            spirals_sorted(items@),
            forall|k: int| 0 <= k < items@.len() ==> free_spiral(*cfg, #[trigger] items@[k]),
        decreases cfg.nb_pattern - i,
    {
        let c: ColorItem = cfg.choose_color(rng);
        let trial: u32 = draw_below(rng, 1000) as u32;
        let w: i32 = band_width_of(cfg.frame.h, cfg.width_pattern, trial);
        let s: Spiral = Spiral::random(rng, &cfg.frame, c, w, cfg.tightness_spiral);
        assert(free_spiral(*cfg, s)) by {
            assert(s.width == band_width(cfg.frame.h as int, cfg.width_pattern as int, trial as int));
        }
        let ghost before = items@;
        insert_spiral(&mut items, s);
        proof {
            let k = choose|k: int| 0 <= k <= before.len() && items@ == #[trigger] before.insert(k, s);
            assert forall|j: int| 0 <= j < items@.len() implies free_spiral(
                *cfg,
                #[trigger] items@[j],
            ) by {
                if j < k {
                    assert(items@[j] == before[j]);
                } else if j > k {
                    assert(items@[j] == before[j - 1]);
                }
            }
        }
        i = i + 1;
    }
    items
}

/// Corner `k` of the frame: top left, top right, bottom left, bottom right.
pub open spec fn corner(f: Frame, k: int) -> Pos {
    Pos(
        clip((f.x + (if k % 2 == 1 { f.w as int } else { 0 })) * 100) as i32,
        clip((f.y + (if k >= 2 { f.h as int } else { 0 })) * 100) as i32,
    )
}

/// Distance from `c` to corner `k` of the frame, rounded down.
pub open spec fn corner_distance(f: Frame, c: Pos, k: int) -> int {
    sqrt_floor(c.spec_dist2(corner(f, k)))
}

/// The larger of two numbers.
pub open spec fn larger(a: int, b: int) -> int {
    if a >= b {
        a
    } else {
        b
    }
}

/// Distance from `c` to the corner of the frame that is farthest from it.
pub open spec fn farthest(f: Frame, c: Pos) -> int {
    larger(
        larger(larger(corner_distance(f, c, 0), corner_distance(f, c, 1)), corner_distance(f, c, 2)),
        corner_distance(f, c, 3),
    )
}

/// Radius of ring `i` of `n` that reach out to `d`.
pub open spec fn ring_radius(d: int, i: int, n: int) -> int {
    clip((d * i) / n)
}

fn corner_of(f: &Frame, k: u8) -> (p: Pos)
    requires
        k < 4,
    ensures
        p == corner(*f, k as int),
{
    let x: i128 = f.x as i128 + (if k % 2 == 1 {
        f.w as i128
    } else {
        0
    });
    let y: i128 = f.y as i128 + (if k >= 2 {
        f.h as i128
    } else {
        0
    });
    Pos(clip_wide(x * 100), clip_wide(y * 100))
}

/// Distance from `c` to the corner of the frame that is farthest from it.
pub fn farthest_corner(f: &Frame, c: Pos) -> (d: i64)
    ensures
        d == farthest(*f, c),
        0 <= d < 0x100_0000_0000,
{
    let mut d: i64 = c.dist(corner_of(f, 0));
    let d1: i64 = c.dist(corner_of(f, 1));
    if d1 > d {
        d = d1;
    }
    let d2: i64 = c.dist(corner_of(f, 2));
    if d2 > d {
        d = d2;
    }
    let d3: i64 = c.dist(corner_of(f, 3));
    if d3 > d {
        d = d3;
    }
    d
}

/// Rings around one centre, the innermost first: ring `k` of `nb_pattern`
/// reaches the share `k + 1` of the way to the farthest corner of the frame.
pub open spec fn concentric_circles(cfg: SceneCfg, items: Seq<Disc>) -> bool {
    &&& items.len() == cfg.nb_pattern
    &&& exists|center: Pos| #[trigger]
        Pos::random_in(cfg.frame, center) && forall|k: int|
            0 <= k < items.len() ==> (#[trigger] items[k]).center == center && cfg.may_choose(
                items[k].color,
            ) && items[k].radius == ring_radius(
                farthest(cfg.frame, center),
                k + 1,
                cfg.nb_pattern as int,
            )
}

/// The rings of `concentric_circles` grow outwards.
pub proof fn lemma_rings_grow(d: int, i: int, j: int, n: int)
    requires
        0 <= d,
        0 <= i <= j,
        0 < n,
    ensures
        ring_radius(d, i, n) <= ring_radius(d, j, n),
{
    assert(d * i <= d * j) by (nonlinear_arith)
        requires
            0 <= d,
            0 <= i <= j,
    ;
    assert((d * i) / n <= (d * j) / n) by (nonlinear_arith)
        requires
            d * i <= d * j,
            0 < n,
    ;
}

/// Discs around one centre somewhere over the frame, the innermost first.
pub fn create_concentric_circles(rng: &mut ThreadRng, cfg: &SceneCfg) -> (items: Vec<Disc>)
    requires
        cfg.wf(),
    ensures
        concentric_circles(*cfg, items@),
        discs_chosen(*cfg, items@),
        discs_sorted(items@),
{
    let mut items: Vec<Disc> = Vec::new();
    let center: Pos = Pos::random(&cfg.frame, rng);
    let d: i64 = farthest_corner(&cfg.frame, center);
    let n: u64 = cfg.nb_pattern as u64;
    let mut i: u64 = 1;
    while i <= n
        invariant
            1 <= i <= n + 1,
            n == cfg.nb_pattern,
            cfg.wf(),
            d == farthest(cfg.frame, center),
            0 <= d < 0x100_0000_0000,
            items@.len() == i - 1,
            forall|k: int|
                0 <= k < items@.len() ==> (#[trigger] items@[k]).center == center
                    && cfg.may_choose(items@[k].color) && items@[k].radius == ring_radius(
                    d as int,
                    k + 1,
                    n as int,
                ),
        decreases n + 1 - i,
    {
        assert(0 <= d * i <= 0x100_0000_0000 * 0xffff_ffff) by (nonlinear_arith)
            requires
                0 <= d < 0x100_0000_0000,
                1 <= i <= 0xffff_ffff,
        ;
        let reach: i128 = (d as i128 * i as i128) / (n as i128);
        let color: ColorItem = cfg.choose_color(rng);
        let ghost before = items@;
        items.push(Disc { center, radius: clip_wide(reach), color });
        assert forall|k: int| 0 <= k < items@.len() implies (#[trigger] items@[k]).center == center
            && cfg.may_choose(items@[k].color) && items@[k].radius == ring_radius(
            d as int,
            k + 1,
            n as int,
        ) by {
            if k < before.len() {
                assert(items@[k] == before[k]);
            }
        }
        i = i + 1;
    }
    proof {
        assert forall|a: int, b: int| 0 <= a <= b < items@.len() implies items@[a].radius
            <= items@[b].radius by {
            lemma_rings_grow(d as int, a + 1, b + 1, n as int);
        }
    }
    items
}

/// Half the sum of the sides of the frame, as a length.
pub open spec fn half_span(f: Frame) -> int {
    clip((f.h + f.w) * 50)
}

/// The two ends of the line across the middle of the frame at `dir` degrees.
pub open spec fn span_ends(f: Frame, dir: int) -> (Pos, Pos) {
    let d = Pos::spec_polar(dir, half_span(f));
    (f.spec_center().spec_plus(d), f.spec_center().spec_minus(d))
}

fn span_of(f: &Frame, dir: i32) -> (r: (Pos, Pos))
    requires
        -720 <= dir <= 720,
    ensures
        r == span_ends(*f, dir as int),
{
    let w: i128 = (f.h as i128 + f.w as i128) * 50;
    let d: Pos = Pos::polar(dir, clip_wide(w));
    let c: Pos = f.center();
    (c.plus(d), c.minus(d))
}

/// Stripe `i` of a row of stripes whose limits run from `ends.0` to
/// `ends.1`: a half plane that faces `indic` degrees.
pub open spec fn row_stripe(cfg: SceneCfg, hp: HalfPlane, ends: (Pos, Pos), i: int, indic: int) -> bool {
    &&& hp.limit == Pos::spec_lerp(ends.0, ends.1, i, cfg.nb_pattern as int)
    &&& cfg.may_choose(hp.color)
    &&& hp.faces(indic, cfg.var_stripes as int)
}

/// Stripes side by side across the frame, at some angle.
pub open spec fn parallel_stripes(cfg: SceneCfg, items: Seq<HalfPlane>) -> bool {
    &&& items.len() == cfg.nb_pattern + 1
    &&& exists|dir: int|
        0 <= dir < 360 && forall|i: int|
            0 <= i < items.len() ==> row_stripe(
                cfg,
                #[trigger] items[i],
                #[trigger] span_ends(cfg.frame, dir),
                i,
                180 + dir,
            )
}

/// Stripes side by side across the frame, one more than `nb_pattern`.
pub fn create_parallel_stripes(rng: &mut ThreadRng, cfg: &SceneCfg) -> (items: Vec<HalfPlane>)
    requires
        cfg.wf(),
    ensures
        parallel_stripes(*cfg, items@),
        half_planes_chosen(*cfg, items@),
{
    let mut items: Vec<HalfPlane> = Vec::new();
    let dir: i32 = draw_angle(rng);
    let ends = span_of(&cfg.frame, dir);
    let n: u64 = cfg.nb_pattern as u64;
    let mut i: u64 = 0;
    while i <= n
        invariant
            0 <= i <= n + 1,
            n == cfg.nb_pattern,
            0 <= dir < 360,
            cfg.wf(),
            ends == span_ends(cfg.frame, dir as int),
            items@.len() == i,
            forall|k: int|
                0 <= k < items@.len() ==> row_stripe(*cfg, #[trigger] items@[k], ends, k, 180 + dir),
        decreases n + 1 - i,
    {
        let c: ColorItem = cfg.choose_color(rng);
        let limit: Pos = Pos::lerp(ends.0, ends.1, i as u32, cfg.nb_pattern);
        let hp: HalfPlane = HalfPlane::random(rng, limit, 180 + dir, cfg.var_stripes, c);
        let ghost before = items@;
        items.push(hp);
        assert forall|k: int| 0 <= k < items@.len() implies row_stripe(
            *cfg,
            #[trigger] items@[k],
            ends,
            k,
            180 + dir,
        ) by {
            if k < before.len() {
                assert(items@[k] == before[k]);
            }
        }
        i = i + 1;
    }
    items
}

/// Two rows of stripes that cross at a right angle, their stripes in turn.
pub open spec fn crossed_stripes(cfg: SceneCfg, items: Seq<HalfPlane>) -> bool {
    &&& items.len() == 2 * (cfg.nb_pattern + 1)
    &&& exists|dir: int|
        0 <= dir < 360 && forall|i: int|
            0 <= i < cfg.nb_pattern + 1 ==> row_stripe(
                cfg,
                #[trigger] items[2 * i],
                #[trigger] span_ends(cfg.frame, dir),
                i,
                180 + dir,
            ) && row_stripe(
                cfg,
                items[2 * i + 1],
                (span_ends(cfg.frame, dir + 90).1, span_ends(cfg.frame, dir + 90).0),
                i,
                90 + dir,
            )
}

/// Two rows of stripes that cross at a right angle.
pub fn create_crossed_stripes(rng: &mut ThreadRng, cfg: &SceneCfg) -> (items: Vec<HalfPlane>)
    requires
        cfg.wf(),
    ensures
        crossed_stripes(*cfg, items@),
        half_planes_chosen(*cfg, items@),
{
    let mut items: Vec<HalfPlane> = Vec::new();
    let dir: i32 = draw_angle(rng);
    let ends = span_of(&cfg.frame, dir);
    let orth = span_of(&cfg.frame, dir + 90);
    let ends_orth: (Pos, Pos) = (orth.1, orth.0);
    let n: u64 = cfg.nb_pattern as u64;
    let mut i: u64 = 0;
    while i <= n
        invariant
            0 <= i <= n + 1,
            n == cfg.nb_pattern,
            0 <= dir < 360,
            cfg.wf(),
            ends == span_ends(cfg.frame, dir as int),
            ends_orth == (span_ends(cfg.frame, dir + 90).1, span_ends(cfg.frame, dir + 90).0),
            items@.len() == 2 * i,
            half_planes_chosen(*cfg, items@),
            forall|k: int|
                0 <= k < i ==> row_stripe(*cfg, #[trigger] items@[2 * k], ends, k, 180 + dir)
                    && row_stripe(*cfg, items@[2 * k + 1], ends_orth, k, 90 + dir),
        decreases n + 1 - i,
    {
        let c: ColorItem = cfg.choose_color(rng);
        let limit: Pos = Pos::lerp(ends.0, ends.1, i as u32, cfg.nb_pattern);
        let first: HalfPlane = HalfPlane::random(rng, limit, 180 + dir, cfg.var_stripes, c);
        let c: ColorItem = cfg.choose_color(rng);
        let limit: Pos = Pos::lerp(ends_orth.0, ends_orth.1, i as u32, cfg.nb_pattern);
        let second: HalfPlane = HalfPlane::random(rng, limit, 90 + dir, cfg.var_stripes, c);
        let ghost before = items@;
        items.push(first);
        items.push(second);
        assert forall|k: int| 0 <= k < items@.len() implies cfg.may_choose(
            (#[trigger] items@[k]).color,
        ) by {
            if k < before.len() {
                assert(items@[k] == before[k]);
            }
        }
        assert forall|k: int| 0 <= k < i + 1 implies row_stripe(
            *cfg,
            #[trigger] items@[2 * k],
            ends,
            k,
            180 + dir,
        ) && row_stripe(*cfg, items@[2 * k + 1], ends_orth, k, 90 + dir) by {
            if k < i {
                assert(items@[2 * k] == before[2 * k]);
                assert(items@[2 * k + 1] == before[2 * k + 1]);
            }
        }
        i = i + 1;
    }
    items
}

/// How far the boundaries of a row swing: the share `1 / (2 n)` of the way
/// between the ends of the row; nothing for a row of one.
pub open spec fn swing(ends: (Pos, Pos), n: int) -> int {
    if n <= 0 {
        0
    } else {
        let across = ends.1.spec_minus(ends.0);
        clip((sqrt_floor(across.spec_dot(across)) / n) / 2)
    }
}

fn swing_of(ends: (Pos, Pos), n: u32) -> (a: i32)
    ensures
        a == swing(ends, n as int),
{
    if n == 0 {
        0
    } else {
        let len: i64 = ends.1.minus(ends.0).norm();
        clip_wide(((len / n as i64) / 2) as i128)
    }
}

/// A fifth of the width of the pattern; nothing where that is not positive.
pub open spec fn ripple_width(cfg: SceneCfg) -> int {
    if cfg.width_pattern > 0 {
        cfg.width_pattern / 5
    } else {
        0
    }
}

/// Waves side by side across the frame, at some angle.
pub open spec fn parallel_waves(cfg: SceneCfg, items: Seq<Wave>) -> bool {
    &&& items.len() == cfg.nb_pattern + 1
    &&& exists|dir: int|
        0 <= dir < 360 && forall|i: int|
            0 <= i < items.len() ==> {
                let ends = #[trigger] span_ends(cfg.frame, dir);
                &&& (#[trigger] items[i]).limit == Pos::spec_lerp(
                    ends.0,
                    ends.1,
                    i,
                    cfg.nb_pattern as int,
                )
                &&& cfg.may_choose(items[i].color)
                &&& items[i].reference == items[i].limit.spec_plus(
                    Pos::spec_polar(180 + dir, ARM as int),
                )
                &&& items[i].amplitude == swing(ends, cfg.nb_pattern as int)
                &&& items[i].frequency == wave_frequency(ripple_width(cfg))
            }
}

/// Zig-zags side by side across the frame, at some angle.
pub open spec fn parallel_sawteeth(cfg: SceneCfg, items: Seq<Sawtooth>) -> bool {
    &&& items.len() == cfg.nb_pattern + 1
    &&& exists|dir: int|
        0 <= dir < 360 && forall|i: int|
            0 <= i < items.len() ==> {
                let ends = #[trigger] span_ends(cfg.frame, dir);
                &&& (#[trigger] items[i]).limit == Pos::spec_lerp(
                    ends.0,
                    ends.1,
                    i,
                    cfg.nb_pattern as int,
                )
                &&& cfg.may_choose(items[i].color)
                &&& items[i].reference == items[i].limit.spec_plus(
                    Pos::spec_polar(180 + dir, ARM as int),
                )
                &&& items[i].amplitude == swing(ends, cfg.nb_pattern as int)
                &&& items[i].frequency == sawtooth_frequency(ripple_width(cfg))
            }
}

/// Waves side by side across the frame, one more than `nb_pattern`.
pub fn create_waves(rng: &mut ThreadRng, cfg: &SceneCfg) -> (items: Vec<Wave>)
    requires
        cfg.wf(),
    ensures
        parallel_waves(*cfg, items@),
        waves_chosen(*cfg, items@),
{
    let mut items: Vec<Wave> = Vec::new();
    let dir: i32 = draw_angle(rng);
    let ends = span_of(&cfg.frame, dir);
    let amplitude: i32 = swing_of(ends, cfg.nb_pattern);
    let width: i32 = if cfg.width_pattern > 0 {
        cfg.width_pattern / 5
    } else {
        0
    };
    let n: u64 = cfg.nb_pattern as u64;
    let mut i: u64 = 0;
    while i <= n
        invariant
            0 <= i <= n + 1,
            n == cfg.nb_pattern,
            0 <= dir < 360,
            cfg.wf(),
            ends == span_ends(cfg.frame, dir as int),
            amplitude == swing(ends, cfg.nb_pattern as int),
            width == ripple_width(*cfg),
            items@.len() == i,
            forall|k: int|
                0 <= k < items@.len() ==> (#[trigger] items@[k]).limit == Pos::spec_lerp(
                    ends.0,
                    ends.1,
                    k,
                    cfg.nb_pattern as int,
                ) && cfg.may_choose(items@[k].color) && items@[k].reference
                    == items@[k].limit.spec_plus(Pos::spec_polar(180 + dir, ARM as int))
                    && items@[k].amplitude == amplitude && items@[k].frequency == wave_frequency(
                    width as int,
                ),
        decreases n + 1 - i,
    {
        let c: ColorItem = cfg.choose_color(rng);
        let limit: Pos = Pos::lerp(ends.0, ends.1, i as u32, cfg.nb_pattern);
        let item: Wave = Wave::random(rng, limit, 180 + dir, width, amplitude, c);
        let ghost before = items@;
        items.push(item);
        assert forall|k: int| 0 <= k < items@.len() implies (#[trigger] items@[k]).limit
            == Pos::spec_lerp(ends.0, ends.1, k, cfg.nb_pattern as int) && cfg.may_choose(
            items@[k].color,
        ) && items@[k].reference == items@[k].limit.spec_plus(
            Pos::spec_polar(180 + dir, ARM as int),
        ) && items@[k].amplitude == amplitude && items@[k].frequency == wave_frequency(width as int) by {
            if k < before.len() {
                assert(items@[k] == before[k]);
            }
        }
        i = i + 1;
    }
    assert(span_ends(cfg.frame, dir as int) == ends);
    items
}

/// Zig-zags side by side across the frame, one more than `nb_pattern`.
pub fn create_sawteeth(rng: &mut ThreadRng, cfg: &SceneCfg) -> (items: Vec<Sawtooth>)
    requires
        cfg.wf(),
    ensures
        parallel_sawteeth(*cfg, items@),
        sawteeth_chosen(*cfg, items@),
{
    let mut items: Vec<Sawtooth> = Vec::new();
    let dir: i32 = draw_angle(rng);
    let ends = span_of(&cfg.frame, dir);
    let amplitude: i32 = swing_of(ends, cfg.nb_pattern);
    let width: i32 = if cfg.width_pattern > 0 {
        cfg.width_pattern / 5
    } else {
        0
    };
    let n: u64 = cfg.nb_pattern as u64;
    let mut i: u64 = 0;
    while i <= n
        invariant
            0 <= i <= n + 1,
            n == cfg.nb_pattern,
            0 <= dir < 360,
            cfg.wf(),
            ends == span_ends(cfg.frame, dir as int),
            amplitude == swing(ends, cfg.nb_pattern as int),
            width == ripple_width(*cfg),
            items@.len() == i,
            forall|k: int|
                0 <= k < items@.len() ==> (#[trigger] items@[k]).limit == Pos::spec_lerp(
                    ends.0,
                    ends.1,
                    k,
                    cfg.nb_pattern as int,
                ) && cfg.may_choose(items@[k].color) && items@[k].reference
                    == items@[k].limit.spec_plus(Pos::spec_polar(180 + dir, ARM as int))
                    && items@[k].amplitude == amplitude && items@[k].frequency == sawtooth_frequency(
                    width as int,
                ),
        decreases n + 1 - i,
    {
        let c: ColorItem = cfg.choose_color(rng);
        let limit: Pos = Pos::lerp(ends.0, ends.1, i as u32, cfg.nb_pattern);
        let item: Sawtooth = Sawtooth::random(rng, limit, 180 + dir, width, amplitude, c);
        let ghost before = items@;
        items.push(item);
        assert forall|k: int| 0 <= k < items@.len() implies (#[trigger] items@[k]).limit
            == Pos::spec_lerp(ends.0, ends.1, k, cfg.nb_pattern as int) && cfg.may_choose(
            items@[k].color,
        ) && items@[k].reference == items@[k].limit.spec_plus(
            Pos::spec_polar(180 + dir, ARM as int),
        ) && items@[k].amplitude == amplitude && items@[k].frequency == sawtooth_frequency(width as int) by {
            if k < before.len() {
                assert(items@[k] == before[k]);
            }
        }
        i = i + 1;
    }
    assert(span_ends(cfg.frame, dir as int) == ends);
    items
}

/// The shapes are those that the pattern of the scene asks for.
pub open spec fn follows(cfg: SceneCfg, items: Seq<Shape>) -> bool {
    match cfg.pattern {
        Pattern::FreeCircles => exists|v: Seq<Disc>| #[trigger]
            free_circles(cfg, v) && items == wrap_discs(v),
        Pattern::FreeTriangles => exists|v: Seq<Triangle>| #[trigger]
            free_triangles(cfg, v) && items == wrap_triangles(v),
        Pattern::FreeStripes => exists|v: Seq<Stripe>| #[trigger]
            free_stripes(cfg, v) && items == wrap_stripes(v),
        Pattern::FreeSpirals => exists|v: Seq<Spiral>| #[trigger]
            free_spirals(cfg, v) && items == wrap_spirals(v),
        Pattern::ConcentricCircles => exists|v: Seq<Disc>| #[trigger]
            concentric_circles(cfg, v) && items == wrap_discs(v),
        Pattern::ParallelStripes => exists|v: Seq<HalfPlane>| #[trigger]
            parallel_stripes(cfg, v) && items == wrap_half_planes(v),
        Pattern::CrossedStripes => exists|v: Seq<HalfPlane>| #[trigger]
            crossed_stripes(cfg, v) && items == wrap_half_planes(v),
        Pattern::ParallelWaves => exists|v: Seq<Wave>| #[trigger]
            parallel_waves(cfg, v) && items == wrap_waves(v),
        Pattern::ParallelSawteeth => exists|v: Seq<Sawtooth>| #[trigger]
            parallel_sawteeth(cfg, v) && items == wrap_sawteeth(v),
    }
}

} // verus!
