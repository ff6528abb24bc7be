//! What is settled about a scene before it is built.

use vstd::prelude::*;
use rand::rngs::ThreadRng;
use crate::chooser::Chooser;
use crate::color::Color;
use crate::delaunay::{coordinates, delaunay_triangles, random_delaunay, scattered, triangle_tiles};
use crate::fixed::{clip, clip_wide, div_round_wide};
use crate::frame::Frame;
use crate::paint::{
    create_concentric_circles, create_crossed_stripes, create_free_circles, create_free_spirals,
    create_free_stripes, create_free_triangles, create_parallel_stripes, create_sawteeth,
    create_waves,
};
use crate::pentagon::{pentagons_type1, type1_plan};
use crate::pos::Pos;
use crate::random::{draw_angle, draw_below};
use crate::salt::Salt;
use crate::scene::{ColorItem, Contains, Shape};
use crate::svg::Path;
use crate::tesselate::{
    all_plain, hexagons_plan, hexagons_triangles_plan, outlines, rhombus_plan,
    squares_triangles_plan, tile_hexagons, tile_hybrid_hexagons_triangles,
    tile_hybrid_squares_triangles, tile_rhombus, tile_triangles, tiling_matches, triangles_plan,
    Lattice, TilingError,
};
use crate::ThemeItem;

verus! {

/// The patterns that the shapes of a scene can form.
#[derive(Clone, Copy, Debug, PartialEq, Eq, Structural)]
pub enum Pattern {
    FreeCircles,
    FreeTriangles,
    FreeStripes,
    FreeSpirals,
    ConcentricCircles,
    ParallelStripes,
    CrossedStripes,
    ParallelWaves,
    ParallelSawteeth,
}

/// The tilings of the frame.
#[derive(Clone, Copy, Debug, PartialEq, Eq, Structural)]
pub enum Tiling {
    Hexagons,
    Triangles,
    HexagonsAndTriangles,
    SquaresAndTriangles,
    Rhombus,
    Delaunay,
    Pentagons,
}

impl Pattern {
    /// The pattern with the given number, counted from zero in the order
    /// of their declaration; the last for any number beyond.
    pub open spec fn spec_nth(i: int) -> Pattern {
        if i == 0 {
            Pattern::FreeCircles
        } else if i == 1 {
            Pattern::FreeTriangles
        } else if i == 2 {
            Pattern::FreeStripes
        } else if i == 3 {
            Pattern::FreeSpirals
        } else if i == 4 {
            Pattern::ConcentricCircles
        } else if i == 5 {
            Pattern::ParallelStripes
        } else if i == 6 {
            Pattern::CrossedStripes
        } else if i == 7 {
            Pattern::ParallelWaves
        } else {
            Pattern::ParallelSawteeth
        }
    }

    /// The pattern with the given number.
    pub fn nth(i: u64) -> (r: Pattern)
        ensures
            r == Pattern::spec_nth(i as int),
    {
        if i == 0 {
            Pattern::FreeCircles
        } else if i == 1 {
            Pattern::FreeTriangles
        } else if i == 2 {
            Pattern::FreeStripes
        } else if i == 3 {
            Pattern::FreeSpirals
        } else if i == 4 {
            Pattern::ConcentricCircles
        } else if i == 5 {
            Pattern::ParallelStripes
        } else if i == 6 {
            Pattern::CrossedStripes
        } else if i == 7 {
            Pattern::ParallelWaves
        } else {
            Pattern::ParallelSawteeth
        }
    }

    /// Any of the nine patterns, each as likely as the others.
    pub fn choose_one(rng: &mut ThreadRng) -> (r: Pattern)
        ensures
            exists|i: int| 0 <= i < 9 && r == #[trigger] Pattern::spec_nth(i),
    {
        let i: u64 = draw_below(rng, 9);
        Pattern::nth(i)
    }
}

impl Tiling {
    /// The tiling with the given number, counted from zero in the order of
    /// their declaration; the last for any number beyond.
    pub open spec fn spec_nth(i: int) -> Tiling {
        if i == 0 {
            Tiling::Hexagons
        } else if i == 1 {
            Tiling::Triangles
        } else if i == 2 {
            Tiling::HexagonsAndTriangles
        } else if i == 3 {
            Tiling::SquaresAndTriangles
        } else if i == 4 {
            Tiling::Rhombus
        } else if i == 5 {
            Tiling::Delaunay
        } else {
            Tiling::Pentagons
        }
    }

    /// The tiling with the given number.
    pub fn nth(i: u64) -> (r: Tiling)
        ensures
            r == Tiling::spec_nth(i as int),
    {
        if i == 0 {
            Tiling::Hexagons
        } else if i == 1 {
            Tiling::Triangles
        } else if i == 2 {
            Tiling::HexagonsAndTriangles
        } else if i == 3 {
            Tiling::SquaresAndTriangles
        } else if i == 4 {
            Tiling::Rhombus
        } else if i == 5 {
            Tiling::Delaunay
        } else {
            Tiling::Pentagons
        }
    }

    /// Any of the seven tilings, each as likely as the others.
    pub fn choose_one(rng: &mut ThreadRng) -> (r: Tiling)
        ensures
            exists|i: int| 0 <= i < 7 && r == #[trigger] Tiling::spec_nth(i),
    {
        let i: u64 = draw_below(rng, 7);
        Tiling::nth(i)
    }
}

/// All that is settled about a scene: colours, frame, pattern and tiling
/// with their sizes. Lengths count hundredths of a canvas unit, widths of
/// patterns thousandths of the height of the frame.
pub struct SceneCfg {
    pub theme: Chooser<ThemeItem>,
    pub weight: u32,
    pub deviation: u32,
    pub frame: Frame,
    pub pattern: Pattern,
    pub tiling: Tiling,
    pub nb_pattern: u32,
    pub var_stripes: u32,
    pub size_tiling: i32,
    pub nb_delaunay: usize,
    pub width_pattern: i32,
    pub line_width: i32,
    pub line_color: Color,
    pub tightness_spiral: i32,
}

/// The short diagonal of a rhombus whose long diagonal is `size`: four
/// tenths of it and six tenths of `trial` thousandths of it.
pub open spec fn short_diagonal(size: int, trial: int) -> int {
    clip(crate::fixed::div_round(size * (400_000 + 600 * trial), 1_000_000))
}

impl SceneCfg {
    /// The theme is well formed, and every weight is a number of hundredths.
    pub open spec fn wf(&self) -> bool {
        &&& self.theme.wf()
        &&& self.weight <= 100
        &&& forall|i: int|
            0 <= i < self.theme@.len() ==> ((#[trigger] self.theme@[i]).0.2 matches Some(w) ==> w
                <= 100)
    }

    /// The recipe that `choose_color` makes of an item of the theme and a shade.
    pub open spec fn recipe(&self, item: ThemeItem, shade: Color) -> ColorItem {
        ColorItem {
            shade,
            deviation: match item.1 {
                Some(v) => v,
                None => self.deviation,
            },
            weight: match item.2 {
                Some(w) => w,
                None => self.weight,
            },
            theme: item.0,
            salt: item.3,
        }
    }

    /// `c` is a recipe that `choose_color` may return: a shade with every
    /// channel from 0 to 254, and the colour, the deviation, the weight
    /// and the salt of an item of the theme; black without salt where the
    /// theme is empty.
    pub open spec fn may_choose(&self, c: ColorItem) -> bool {
        &&& c.wf()
        &&& 0 <= c.shade.0 < 255 && 0 <= c.shade.1 < 255 && 0 <= c.shade.2 < 255
        &&& if self.theme@.len() == 0 {
            c.theme == Color(0, 0, 0) && c.deviation == self.deviation && c.weight == self.weight
                && c.salt@.len() == 0
        } else {
            exists|i: int|
                0 <= i < self.theme@.len() && c.theme == (#[trigger] self.theme@[i]).0.0
                    && c.deviation == self.recipe(self.theme@[i].0, c.shade).deviation && c.weight
                    == self.recipe(self.theme@[i].0, c.shade).weight && c.salt@
                    == self.theme@[i].0.3@
        }
    }

    /// A recipe for the colour of a shape: a random shade, to be mixed with a
    /// colour drawn from the theme.
    pub fn choose_color(&self, rng: &mut ThreadRng) -> (c: ColorItem)
        requires
            self.wf(),
        ensures
            self.may_choose(c),
    {
        match self.theme.choose_ref(rng) {
            None => {
                let shade: Color = Color::random(rng);
                ColorItem {
                    shade,
                    deviation: self.deviation,
                    weight: self.weight,
                    theme: Color(0, 0, 0),
                    salt: Salt::none(),
                }
            },
            Some(item) => {
                let shade: Color = Color::random(rng);
                let deviation: u32 = match item.1 {
                    Some(v) => v,
                    None => self.deviation,
                };
                let weight: u32 = match item.2 {
                    Some(w) => w,
                    None => self.weight,
                };
                ColorItem { shade, deviation, weight, theme: item.0, salt: item.3.duplicate() }
            },
        }
    }

    /// The shapes of the scene, as its pattern asks for them.
    pub fn create_items(&self, rng: &mut ThreadRng) -> (items: Vec<Shape>)
        requires
            self.wf(),
        ensures
            crate::scene::shapes_wf(items@),
            crate::paint::follows(*self, items@),
    {
        match self.pattern {
            Pattern::FreeCircles => {
                let v = create_free_circles(rng, self);
                let ghost made = v@;
                let items = crate::paint::discs(v);
                proof {
                    assert forall|k: int| 0 <= k < items@.len() implies (#[trigger] items@[k]).paint().wf() by {
                        assert(self.may_choose(made[k].color));
                    }
                    assert(crate::paint::free_circles(*self, made) && items@ == crate::paint::wrap_discs(made));
                }
                items
            },
            Pattern::FreeTriangles => {
                let v = create_free_triangles(rng, self);
                let ghost made = v@;
                let items = crate::paint::triangles(v);
                proof {
                    assert forall|k: int| 0 <= k < items@.len() implies (#[trigger] items@[k]).paint().wf() by {
                        assert(self.may_choose(made[k].color));
                    }
                    assert(crate::paint::free_triangles(*self, made) && items@ == crate::paint::wrap_triangles(made));
                }
                items
            },
            Pattern::FreeStripes => {
                let v = create_free_stripes(rng, self);
                let ghost made = v@;
                let items = crate::paint::stripes(v);
                proof {
                    assert forall|k: int| 0 <= k < items@.len() implies (#[trigger] items@[k]).paint().wf() by {
                        assert(self.may_choose(made[k].color));
                    }
                    assert(crate::paint::free_stripes(*self, made) && items@ == crate::paint::wrap_stripes(made));
                }
                items
            },
            Pattern::FreeSpirals => {
                let v = create_free_spirals(rng, self);
                let ghost made = v@;
                let items = crate::paint::spirals(v);
                proof {
                    assert forall|k: int| 0 <= k < items@.len() implies (#[trigger] items@[k]).paint().wf() by {
                        assert(self.may_choose(made[k].color));
                    }
                    assert(crate::paint::free_spirals(*self, made) && items@ == crate::paint::wrap_spirals(made));
                }
                items
            },
            Pattern::ConcentricCircles => {
                let v = create_concentric_circles(rng, self);
                let ghost made = v@;
                let items = crate::paint::discs(v);
                proof {
                    assert forall|k: int| 0 <= k < items@.len() implies (#[trigger] items@[k]).paint().wf() by {
                        assert(self.may_choose(made[k].color));
                    }
                    assert(crate::paint::concentric_circles(*self, made) && items@ == crate::paint::wrap_discs(made));
                }
                items
            },
            Pattern::ParallelStripes => {
                let v = create_parallel_stripes(rng, self);
                let ghost made = v@;
                let items = crate::paint::half_planes(v);
                proof {
                    assert forall|k: int| 0 <= k < items@.len() implies (#[trigger] items@[k]).paint().wf() by {
                        assert(self.may_choose(made[k].color));
                    }
                    assert(crate::paint::parallel_stripes(*self, made) && items@ == crate::paint::wrap_half_planes(made));
                }
                items
            },
            Pattern::CrossedStripes => {
                let v = create_crossed_stripes(rng, self);
                let ghost made = v@;
                let items = crate::paint::half_planes(v);
                proof {
                    assert forall|k: int| 0 <= k < items@.len() implies (#[trigger] items@[k]).paint().wf() by {
                        assert(self.may_choose(made[k].color));
                    }
                    assert(crate::paint::crossed_stripes(*self, made) && items@ == crate::paint::wrap_half_planes(made));
                }
                items
            },
            Pattern::ParallelWaves => {
                let v = create_waves(rng, self);
                let ghost made = v@;
                let items = crate::paint::waves(v);
                proof {
                    assert forall|k: int| 0 <= k < items@.len() implies (#[trigger] items@[k]).paint().wf() by {
                        assert(self.may_choose(made[k].color));
                    }
                    assert(crate::paint::parallel_waves(*self, made) && items@ == crate::paint::wrap_waves(made));
                }
                items
            },
            Pattern::ParallelSawteeth => {
                let v = create_sawteeth(rng, self);
                let ghost made = v@;
                let items = crate::paint::sawteeth(v);
                proof {
                    assert forall|k: int| 0 <= k < items@.len() implies (#[trigger] items@[k]).paint().wf() by {
                        assert(self.may_choose(made[k].color));
                    }
                    assert(crate::paint::parallel_sawteeth(*self, made) && items@ == crate::paint::wrap_sawteeth(made));
                }
                items
            },
        }
    }

    /// The plan of the tiling of the scene when it is turned by `rot`
    /// degrees, `trial` thousandths deciding how slim its rhombi are.
    pub open spec fn plan(&self, rot: int, trial: int) -> Result<Lattice, TilingError> {
        let size = self.size_tiling as int;
        match self.tiling {
            Tiling::Hexagons => hexagons_plan(size, rot),
            Tiling::Triangles => triangles_plan(size, rot),
            Tiling::HexagonsAndTriangles => hexagons_triangles_plan(size, rot),
            Tiling::SquaresAndTriangles => squares_triangles_plan(size, rot),
            Tiling::Rhombus => rhombus_plan(size, short_diagonal(size, trial), rot),
            Tiling::Delaunay => Err(TilingError::DegenerateInput),
            Tiling::Pentagons => type1_plan(size, rot),
        }
    }

    /// The tiling of the scene over a lattice, turned by `rot` degrees; for
    /// rhombi, `trial` thousandths decide how slim they are.
    pub fn lattice_tiling(&self, rot: i32, trial: u32) -> (r: Result<Vec<(Pos, Path)>, TilingError>)
        requires
            trial < 1000,
        ensures
            tiling_matches(r, self.frame, self.plan(crate::trig::turn(rot as int), trial as int)),
    {
        match self.tiling {
            Tiling::Hexagons => tile_hexagons(&self.frame, self.size_tiling, rot),
            Tiling::Triangles => tile_triangles(&self.frame, self.size_tiling, rot),
            Tiling::HexagonsAndTriangles => tile_hybrid_hexagons_triangles(
                &self.frame,
                self.size_tiling,
                rot,
            ),
            Tiling::SquaresAndTriangles => tile_hybrid_squares_triangles(
                &self.frame,
                self.size_tiling,
                rot,
            ),
            Tiling::Rhombus => {
                let size: i128 = self.size_tiling as i128;
                let factor: i128 = 400_000 + 600 * trial as i128;
                assert(-0x8000_0000 * 1_000_000 <= size * factor <= 0x8000_0000 * 1_000_000)
                    by (nonlinear_arith)
                    requires
                        -0x8000_0000 <= size <= 0x7fff_ffff,
                        400_000 <= factor <= 1_000_000,
                ;
                let sdiag: i32 = clip_wide(div_round_wide(size * factor, 1_000_000));
                tile_rhombus(&self.frame, self.size_tiling, sdiag, rot)
            },
            Tiling::Delaunay => Err(TilingError::DegenerateInput),
            Tiling::Pentagons => pentagons_type1(&self.frame, self.size_tiling, rot),
        }
    }

    /// The tiles of the scene: its tiling turned by a random angle, or the
    /// triangles between points scattered at random.
    pub fn make_tiling(&self, rng: &mut ThreadRng) -> (r: Result<Vec<(Pos, Path)>, TilingError>)
        ensures
            self.tiling != Tiling::Delaunay ==> exists|rot: int, trial: int|
                0 <= rot < 360 && 0 <= trial < 1000 && tiling_matches(
                    r,
                    self.frame,
                    #[trigger] self.plan(rot, trial),
                ),
            self.tiling == Tiling::Delaunay ==> exists|pts: Seq<Pos>| #[trigger]
                scattered(self.frame, pts, self.nb_delaunay as int) && match r {
                    Ok(tiles) => all_plain(tiles@) && delaunay_triangles(coordinates(pts)) is Some
                        && outlines(tiles@) == triangle_tiles(
                        pts,
                        delaunay_triangles(coordinates(pts))->Some_0,
                    ),
                    Err(e) => e == TilingError::DegenerateInput && delaunay_triangles(
                        coordinates(pts),
                    ) is None,
                },
    {
        match self.tiling {
            Tiling::Delaunay => random_delaunay(&self.frame, rng, self.nb_delaunay),
            _ => {
                let trial: u32 = draw_below(rng, 1000) as u32;
                let rot: i32 = draw_angle(rng);
                let r = self.lattice_tiling(rot, trial);
                assert(crate::trig::turn(rot as int) == rot);
                assert(tiling_matches(r, self.frame, self.plan(rot as int, trial as int)));
                r
            },
        }
    }
}

} // verus!
