//! Five families of pentagons that tile the plane.

use vstd::prelude::*;
use crate::fixed::{scale_len, scaled};
use crate::frame::Frame;
use crate::pos::{lemma_meet_periodic, lemma_polar_periodic, Pos};
use crate::shape::{side_of, Movable};
use crate::svg::Path;
use crate::tesselate::{
    cell_view, cell_wf, plan_view, tile_layout, tiling_matches, Lattice, Layout, Placement,
    TilingError,
};
use crate::trig::{lemma_turn_add, normalize, normalize_wide, turn, turn_sum};

verus! {

/// A pentagon, given by three of its sides and its five inner angles in
/// degrees. The first side leaves the first corner at `rot` degrees; the
/// last two sides follow from the angles.
pub struct Pentagon {
    pub rot: i32,
    pub sizes: [i32; 3],
    pub angles: [i32; 5],
}

/// Sum of the turns at the five corners of an outline with these inner angles.
pub open spec fn turning(angles: Seq<i32>) -> int {
    (180 - angles[0]) + (180 - angles[1]) + (180 - angles[2]) + (180 - angles[3]) + (180
        - angles[4])
}

/// The five turns add up to whole circles, so that the outline comes back
/// to the direction in which it set out.
pub open spec fn angles_close(angles: Seq<i32>) -> bool {
    turning(angles) % 360 == 0
}

/// Direction of side `i`, in degrees.
pub open spec fn heading(rot: int, angles: Seq<i32>, i: int) -> int
    decreases i,
{
    if i <= 0 {
        rot
    } else {
        heading(rot, angles, i - 1) + 180 - angles[i]
    }
}

/// The corners of the pentagon with its first corner at the origin: three
/// sides are walked, and the last corner is where the line back into the
/// first corner meets the line out of the fourth.
pub open spec fn corners(rot: int, sizes: Seq<i32>, angles: Seq<i32>) -> Option<Seq<Pos>> {
    let c0 = Pos(0, 0);
    let c1 = c0.spec_plus(Pos::spec_polar(heading(rot, angles, 0), sizes[0] as int));
    let c2 = c1.spec_plus(Pos::spec_polar(heading(rot, angles, 1), sizes[1] as int));
    let c3 = c2.spec_plus(Pos::spec_polar(heading(rot, angles, 2), sizes[2] as int));
    match Pos::spec_meet(c0, rot + angles[0], c3, heading(rot, angles, 3)) {
        None => None,
        Some(c4) => Some(seq![c0, c1, c2, c3, c4]),
    }
}

/// The mean of five points.
pub open spec fn middle(pts: Seq<Pos>) -> Pos {
    Pos(0, 0).spec_plus(pts[0]).spec_plus(pts[1]).spec_plus(pts[2]).spec_plus(pts[3]).spec_plus(
        pts[4],
    ).spec_over(5)
}

/// Five points seen from their mean.
pub open spec fn centred(pts: Seq<Pos>) -> Seq<Pos> {
    Seq::new(5, |i: int| pts[i].spec_minus(middle(pts)))
}

/// The outline of the pentagon around its middle, or why it has none.
pub open spec fn outline(rot: int, sizes: Seq<i32>, angles: Seq<i32>) -> Result<
    Seq<Pos>,
    TilingError,
> {
    if !angles_close(angles) {
        Err(TilingError::MalformedAngles)
    } else {
        match corners(rot, sizes, angles) {
            None => Err(TilingError::FailedIntersection),
            Some(pts) => Ok(centred(pts)),
        }
    }
}

impl Pentagon {
    /// Whether the five turns add up to whole circles.
    pub fn closes(&self) -> (r: bool)
        ensures
            r == angles_close(self.angles@),
    {
        let t: i128 = (180 - self.angles[0] as i128) + (180 - self.angles[1] as i128) + (180
            - self.angles[2] as i128) + (180 - self.angles[3] as i128) + (180 - self.angles[4] as i128);
        normalize_wide(t) == 0
    }

    /// The directions of the first four sides and of the line back into the
    /// first corner, each brought into `0..360`.
    fn headings(&self) -> (h: (i32, i32, i32, i32, i32))
        ensures
            h.0 == turn(heading(self.rot as int, self.angles@, 0)),
            h.1 == turn(heading(self.rot as int, self.angles@, 1)),
            h.2 == turn(heading(self.rot as int, self.angles@, 2)),
            h.3 == turn(heading(self.rot as int, self.angles@, 3)),
            h.4 == turn(self.rot + self.angles@[0]),
    {
        let ghost rot = self.rot as int;
        let ghost angles = self.angles@;
        let h0: i32 = normalize(self.rot);
        assert(heading(rot, angles, 0) == rot);
        let n1: i32 = normalize_wide(180 - self.angles[1] as i128);
        let h1: i32 = turn_sum(h0, n1);
        proof {
            lemma_turn_add(rot, 180 - angles[1]);
            assert(heading(rot, angles, 1) == heading(rot, angles, 0) + 180 - angles[1]);
        }
        let n2: i32 = normalize_wide(180 - self.angles[2] as i128);
        let h2: i32 = turn_sum(h1, n2);
        proof {
            lemma_turn_add(heading(rot, angles, 1), 180 - angles[2]);
            assert(heading(rot, angles, 2) == heading(rot, angles, 1) + 180 - angles[2]);
        }
        let n3: i32 = normalize_wide(180 - self.angles[3] as i128);
        let h3: i32 = turn_sum(h2, n3);
        proof {
            lemma_turn_add(heading(rot, angles, 2), 180 - angles[3]);
            assert(heading(rot, angles, 3) == heading(rot, angles, 2) + 180 - angles[3]);
        }
        let n0: i32 = normalize(self.angles[0]);
        let back: i32 = turn_sum(h0, n0);
        proof {
            lemma_turn_add(rot, angles[0] as int);
        }
        (h0, h1, h2, h3, back)
    }

    /// The corners of the pentagon, the first at the origin.
    fn walk(&self) -> (r: Option<Vec<Pos>>)
        ensures
            match r {
                Some(pts) => corners(self.rot as int, self.sizes@, self.angles@) == Some(pts@),
                None => corners(self.rot as int, self.sizes@, self.angles@) is None,
            },
    {
        let ghost rot = self.rot as int;
        let ghost angles = self.angles@;
        let ghost sizes = self.sizes@;
        let h = self.headings();
        proof {
            lemma_polar_periodic(h.0 as int, heading(rot, angles, 0), sizes[0] as int);
            lemma_polar_periodic(h.1 as int, heading(rot, angles, 1), sizes[1] as int);
            lemma_polar_periodic(h.2 as int, heading(rot, angles, 2), sizes[2] as int);
        }
        let c0: Pos = Pos::zero();
        let c1: Pos = c0.plus(Pos::polar(h.0, self.sizes[0]));
        let c2: Pos = c1.plus(Pos::polar(h.1, self.sizes[1]));
        let c3: Pos = c2.plus(Pos::polar(h.2, self.sizes[2]));
        proof {
            lemma_meet_periodic(c0, h.4 as int, rot + angles[0], c3, h.3 as int, heading(rot, angles, 3));
        }
        match Pos::intersect((c0, h.4), (c3, h.3)) {
            None => None,
            Some(c4) => {
                let mut pts: Vec<Pos> = Vec::new();
                pts.push(c0);
                pts.push(c1);
                pts.push(c2);
                pts.push(c3);
                pts.push(c4);
                assert(pts@ =~= seq![c0, c1, c2, c3, c4]);
                Some(pts)
            },
        }
    }

    /// The motif of the pentagon, its corners seen from their mean.
    pub fn to_movable(&self) -> (r: Result<Movable, TilingError>)
        ensures
            match r {
                Ok(m) => m.wf() && outline(self.rot as int, self.sizes@, self.angles@) == Ok::<
                    Seq<Pos>,
                    TilingError,
                >(m@),
                Err(e) => outline(self.rot as int, self.sizes@, self.angles@) == Err::<
                    Seq<Pos>,
                    TilingError,
                >(e),
            },
    {
        if !self.closes() {
            return Err(TilingError::MalformedAngles);
        }
        match self.walk() {
            None => Err(TilingError::FailedIntersection),
            Some(c) => {
                assert(c@.len() == 5);
                let mid: Pos = Pos::zero().plus(c[0]).plus(c[1]).plus(c[2]).plus(c[3]).plus(
                    c[4],
                ).over(5);
                let mut pts: Vec<Pos> = Vec::new();
                pts.push(c[0].minus(mid));
                pts.push(c[1].minus(mid));
                pts.push(c[2].minus(mid));
                pts.push(c[3].minus(mid));
                pts.push(c[4].minus(mid));
                assert(pts@ =~= centred(c@));
                match Movable::from(pts) {
                    Some(m) => Ok(m),
                    None => Err(TilingError::FailedIntersection),
                }
            },
        }
    }
}

/// The pentagons of a family: for each, by how many degrees it is turned
/// against the tiling, and its inner angles.
pub open spec fn family_view(family: Seq<(i32, [i32; 5])>) -> Seq<(int, Seq<i32>)> {
    Seq::new(family.len(), |k: int| (family[k].0 as int, family[k].1@))
}

/// The outlines of the first `n` pentagons of a family, or the error of the
/// first that has none.
pub open spec fn outlines_of(rot: int, sizes: Seq<i32>, family: Seq<(int, Seq<i32>)>, n: int) -> Result<
    Seq<Seq<Pos>>,
    TilingError,
>
    decreases n,
{
    if n <= 0 {
        Ok(Seq::empty())
    } else {
        match outlines_of(rot, sizes, family, n - 1) {
            Err(e) => Err(e),
            Ok(done) => match outline(rot + family[n - 1].0, sizes, family[n - 1].1) {
                Err(e) => Err(e),
                Ok(m) => Ok(done.push(m)),
            },
        }
    }
}

/// The outlines of a family.
pub open spec fn motifs_view(mv: Seq<Movable>) -> Seq<Seq<Pos>> {
    Seq::new(mv.len(), |k: int| mv[k]@)
}

/// Every outline has five corners.
pub open spec fn five_cornered(mv: Seq<Seq<Pos>>) -> bool {
    forall|k: int| 0 <= k < mv.len() ==> (#[trigger] mv[k]).len() == 5
}

/// The outlines of a family have five corners each.
pub proof fn lemma_outlines_five(rot: int, sizes: Seq<i32>, family: Seq<(int, Seq<i32>)>, n: int)
    requires
        outlines_of(rot, sizes, family, n) is Ok,
    ensures
        five_cornered(outlines_of(rot, sizes, family, n)->Ok_0),
        outlines_of(rot, sizes, family, n)->Ok_0.len() == if n <= 0 { 0 } else { n },
    decreases n,
{
    if n > 0 {
        lemma_outlines_five(rot, sizes, family, n - 1);
    }
}

/// Builds the motifs of a family of pentagons.
fn build(rot: i32, sizes: [i32; 3], family: &Vec<(i32, [i32; 5])>) -> (r: Result<
    Vec<Movable>,
    TilingError,
>)
    requires
        0 <= rot < 360,
        forall|k: int| 0 <= k < family@.len() ==> -360 <= (#[trigger] family@[k]).0 <= 360,
    ensures
        match r {
            Ok(mv) => outlines_of(
                rot as int,
                sizes@,
                family_view(family@),
                family@.len() as int,
            ) == Ok::<Seq<Seq<Pos>>, TilingError>(motifs_view(mv@)) && five_cornered(
                motifs_view(mv@),
            ) && mv@.len() == family@.len() && forall|k: int|
                0 <= k < mv@.len() ==> (#[trigger] mv@[k]).wf(),
            Err(e) => outlines_of(rot as int, sizes@, family_view(family@), family@.len() as int)
                == Err::<Seq<Seq<Pos>>, TilingError>(e),
        },
{
    let mut mv: Vec<Movable> = Vec::new();
    let mut k: usize = 0;
    assert(motifs_view(mv@) =~= Seq::<Seq<Pos>>::empty());
    while k < family.len()
        invariant
            0 <= k <= family@.len(),
            0 <= rot < 360,
            forall|i: int| 0 <= i < family@.len() ==> -360 <= (#[trigger] family@[i]).0 <= 360,
            mv@.len() == k,
            forall|i: int| 0 <= i < mv@.len() ==> (#[trigger] mv@[i]).wf(),
            outlines_of(rot as int, sizes@, family_view(family@), k as int) == Ok::<
                Seq<Seq<Pos>>,
                TilingError,
            >(motifs_view(mv@)),
        decreases family@.len() - k,
    {
        let ghost before = motifs_view(mv@);
        let pentagon = Pentagon { rot: rot + family[k].0, sizes, angles: family[k].1 };
        match pentagon.to_movable() {
            Err(e) => {
                proof {
                    lemma_first_error(rot as int, sizes@, family_view(family@), k as int + 1, family@.len() as int);
                }
                return Err(e);
            },
            Ok(m) => {
                mv.push(m);
                assert(motifs_view(mv@) =~= before.push(m@));
            },
        }
        k = k + 1;
    }
    proof {
        lemma_outlines_five(rot as int, sizes@, family_view(family@), family@.len() as int);
    }
    Ok(mv)
}

/// Once a pentagon of a family has no outline, neither has the family.
proof fn lemma_first_error(rot: int, sizes: Seq<i32>, family: Seq<(int, Seq<i32>)>, n: int, m: int)
    requires
        0 <= n <= m,
        outlines_of(rot, sizes, family, n) is Err,
    ensures
        outlines_of(rot, sizes, family, m) == outlines_of(rot, sizes, family, n),
    decreases m,
{
    if n < m {
        lemma_first_error(rot, sizes, family, n, m - 1);
    }
}

/// The plan of a family: its error if a pentagon has no outline, and else
/// the lattice that `arrange` makes of the outlines.
pub open spec fn family_plan(
    size: int,
    built: Result<Seq<Seq<Pos>>, TilingError>,
    arrange: spec_fn(Seq<Seq<Pos>>) -> Lattice,
) -> Result<Lattice, TilingError> {
    if size <= 0 {
        Err(TilingError::BadSize)
    } else {
        match built {
            Err(e) => Err(e),
            Ok(mv) => Ok(arrange(mv)),
        }
    }
}

/// The offset that puts corner `i` of an outline on the lattice point.
pub open spec fn onto(shape: Seq<Pos>, i: int) -> Pos {
    Pos(0, 0).spec_minus(shape[i])
}

/// Sides of the pentagons of the first family.
pub open spec fn type1_sizes(size: int) -> Seq<i32> {
    seq![scaled(size, 12, 10) as i32, size as i32, scaled(size, 9, 10) as i32]
}

/// Turns and angles of the pentagons of the first family.
pub open spec fn type1_family() -> Seq<(int, Seq<i32>)> {
    seq![(0int, seq![110i32, 80, 100, 110, 140]), (180int, seq![110i32, 80, 100, 110, 140])]
}

/// The first family: two pentagons, head to tail.
pub open spec fn type1_lattice(mv: Seq<Seq<Pos>>) -> Lattice {
    Lattice {
        cell: seq![
            (mv[0], onto(mv[0], 0).spec_plus(side_of(mv[0], 4).spec_over(2))),
            (mv[1], onto(mv[1], 0).spec_plus(side_of(mv[1], 4).spec_over(2))),
        ],
        idir: mv[0][3].spec_minus(mv[0][0]),
        jdir: mv[0][0].spec_minus(mv[1][4]).spec_plus(mv[1][2]).spec_minus(mv[0][1]),
    }
}

/// The plan of the first family for tiles of the given size, turned by `rot` degrees.
pub open spec fn type1_plan(size: int, rot: int) -> Result<Lattice, TilingError> {
    family_plan(
        size,
        outlines_of(rot, type1_sizes(size), type1_family(), 2),
        |mv: Seq<Seq<Pos>>| type1_lattice(mv),
    )
}

/// Sides of the pentagons of the second family.
pub open spec fn type2_sizes(size: int) -> Seq<i32> {
    seq![size as i32, scaled(size, 12, 10) as i32, size as i32]
}

/// Turns and angles of the pentagons of the second family.
pub open spec fn type2_family() -> Seq<(int, Seq<i32>)> {
    seq![
        (0int, seq![150i32, 70, 100, 110, 110]),
        (180int, seq![150i32, 70, 100, 110, 110]),
        (180int, seq![110i32, 100, 70, 150, 110]),
        (0int, seq![110i32, 100, 70, 150, 110]),
    ]
}

/// The second family: two pentagons and their mirror images.
pub open spec fn type2_lattice(mv: Seq<Seq<Pos>>) -> Lattice {
    Lattice {
        cell: seq![
            (mv[0], Pos(0, 0)),
            (mv[1], mv[0][2].spec_plus(side_of(mv[3], 4)).spec_minus(mv[1][1])),
            (mv[2], mv[0][0].spec_minus(mv[2][1])),
            (mv[3], mv[0][2].spec_minus(mv[3][4])),
        ],
        idir: mv[0][0].spec_minus(mv[2][1]).spec_plus(mv[2][2]).spec_minus(mv[0][3]),
        jdir: mv[0][4].spec_minus(mv[3][1]).spec_plus(mv[3][4]).spec_minus(mv[0][2]),
    }
}

/// The plan of the second family for tiles of the given size, turned by `rot` degrees.
pub open spec fn type2_plan(size: int, rot: int) -> Result<Lattice, TilingError> {
    family_plan(
        size,
        outlines_of(rot, type2_sizes(size), type2_family(), 4),
        |mv: Seq<Seq<Pos>>| type2_lattice(mv),
    )
}

/// Sides of the pentagons of the third family.
pub open spec fn type3_sizes(size: int) -> Seq<i32> {
    seq![scaled(size, 3, 10) as i32, size as i32, scaled(size, 7, 10) as i32]
}

/// Turns and angles of the pentagons of the third family.
pub open spec fn type3_family() -> Seq<(int, Seq<i32>)> {
    seq![
        (0int, seq![103i32, 120, 120, 77, 120]),
        (120int, seq![103i32, 120, 120, 77, 120]),
        (-120int, seq![103i32, 120, 120, 77, 120]),
    ]
}

/// The third family: three pentagons around a shared corner.
pub open spec fn type3_lattice(mv: Seq<Seq<Pos>>) -> Lattice {
    Lattice {
        cell: seq![(mv[0], onto(mv[0], 4)), (mv[1], onto(mv[1], 4)), (mv[2], onto(mv[2], 4))],
        idir: onto(mv[0], 4).spec_plus(mv[0][2]).spec_minus(mv[2][2]).spec_plus(mv[2][4]),
        jdir: onto(mv[0], 4).spec_plus(mv[0][2]).spec_minus(mv[1][2]).spec_plus(mv[1][4]),
    }
}

/// The plan of the third family for tiles of the given size, turned by `rot` degrees.
pub open spec fn type3_plan(size: int, rot: int) -> Result<Lattice, TilingError> {
    family_plan(
        size,
        outlines_of(rot, type3_sizes(size), type3_family(), 3),
        |mv: Seq<Seq<Pos>>| type3_lattice(mv),
    )
}

/// Sides of the pentagons of the fourth family.
pub open spec fn type4_sizes(size: int) -> Seq<i32> {
    seq![size as i32, size as i32, scaled(size, 9, 10) as i32]
}

/// Turns and angles of the pentagons of the fourth family.
pub open spec fn type4_family() -> Seq<(int, Seq<i32>)> {
    seq![
        (0int, seq![100i32, 90, 130, 90, 130]),
        (90int, seq![100i32, 90, 130, 90, 130]),
        (180int, seq![100i32, 90, 130, 90, 130]),
        (-90int, seq![100i32, 90, 130, 90, 130]),
    ]
}

/// The fourth family: four pentagons around a shared corner, on a square lattice.
pub open spec fn type4_lattice(mv: Seq<Seq<Pos>>, size: int) -> Lattice {
    Lattice {
        cell: seq![
            (mv[0], onto(mv[0], 1)),
            (mv[1], onto(mv[1], 1)),
            (mv[2], onto(mv[2], 1)),
            (mv[3], onto(mv[3], 1)),
        ],
        idir: Pos::spec_polar(0, scaled(size, 100, 1)),
        jdir: Pos::spec_polar(90, scaled(size, 100, 1)),
    }
}

/// The plan of the fourth family for tiles of the given size, turned by `rot` degrees.
pub open spec fn type4_plan(size: int, rot: int) -> Result<Lattice, TilingError> {
    family_plan(
        size,
        outlines_of(rot, type4_sizes(size), type4_family(), 4),
        |mv: Seq<Seq<Pos>>| type4_lattice(mv, size),
    )
}

/// Sides of the pentagons of the fifth family.
pub open spec fn type5_sizes(size: int) -> Seq<i32> {
    seq![size as i32, size as i32, size as i32]
}

/// Turns and angles of the pentagons of the fifth family.
pub open spec fn type5_family() -> Seq<(int, Seq<i32>)> {
    seq![
        (0int, seq![90i32, 120, 60, 150, 120]),
        (60int, seq![90i32, 120, 60, 150, 120]),
        (120int, seq![90i32, 120, 60, 150, 120]),
        (180int, seq![90i32, 120, 60, 150, 120]),
        (-120int, seq![90i32, 120, 60, 150, 120]),
        (-60int, seq![90i32, 120, 60, 150, 120]),
    ]
}

/// Where the fifth family puts a copy of pentagon `t` beside pentagon `k`.
pub open spec fn type5_beside(mv: Seq<Seq<Pos>>, k: int, t: int) -> Pos {
    onto(mv[k], 2).spec_plus(mv[k][4]).spec_minus(mv[t][4])
}

/// Copy `n` of the cell of the fifth family: six pentagons around a shared
/// corner, and beside each of them the second and the fourth after it.
pub open spec fn type5_copy(mv: Seq<Seq<Pos>>, n: int) -> (Seq<Pos>, Pos) {
    if n < 6 {
        (mv[n], onto(mv[n], 2))
    } else if n < 12 {
        (mv[(n - 6 + 2) % 6], type5_beside(mv, n - 6, (n - 6 + 2) % 6))
    } else {
        (mv[(n - 12 + 4) % 6], type5_beside(mv, n - 12, (n - 12 + 4) % 6))
    }
}

/// The fifth family: a flower of six pentagons with twelve more around it.
pub open spec fn type5_lattice(mv: Seq<Seq<Pos>>) -> Lattice {
    let base = onto(mv[1], 2).spec_plus(mv[1][4]).spec_minus(mv[5][4]).spec_plus(mv[5][1]);
    Lattice {
        cell: Seq::new(18, |n: int| type5_copy(mv, n)),
        idir: base.spec_minus(mv[1][1]).spec_plus(mv[1][4]).spec_minus(mv[3][4]).spec_plus(
            mv[3][2],
        ),
        jdir: base.spec_minus(mv[3][1]).spec_plus(mv[3][4]).spec_minus(mv[5][4]).spec_plus(
            mv[5][2],
        ),
    }
}

/// The plan of the fifth family for tiles of the given size, turned by `rot` degrees.
pub open spec fn type5_plan(size: int, rot: int) -> Result<Lattice, TilingError> {
    family_plan(
        size,
        outlines_of(rot, type5_sizes(size), type5_family(), 6),
        |mv: Seq<Seq<Pos>>| type5_lattice(mv),
    )
}

/// The angles of each of the five families close their pentagons.
pub proof fn lemma_families_close()
    ensures
        forall|k: int| 0 <= k < 2 ==> angles_close(#[trigger] type1_family()[k].1),
        forall|k: int| 0 <= k < 4 ==> angles_close(#[trigger] type2_family()[k].1),
        forall|k: int| 0 <= k < 3 ==> angles_close(#[trigger] type3_family()[k].1),
        forall|k: int| 0 <= k < 4 ==> angles_close(#[trigger] type4_family()[k].1),
        forall|k: int| 0 <= k < 6 ==> angles_close(#[trigger] type5_family()[k].1),
{
}

/// A copy of a motif at an offset from the lattice point.
fn place(shape: &Movable, offset: Pos) -> (p: Placement)
    ensures
        p.shape@ == shape@,
        p.shape.wf() == shape.wf(),
        p.offset == offset,
{
    Placement { shape: shape.duplicate(), offset }
}

fn type1_layout(size: i32, rot: i32) -> (r: Result<Layout, TilingError>)
    requires
        0 <= rot < 360,
    ensures
        plan_view(r) == type1_plan(size as int, rot as int),
        r matches Ok(l) ==> cell_wf(l.cell@),
{
    if size <= 0 {
        return Err(TilingError::BadSize);
    }
    let sizes: [i32; 3] = [scale_len(size, 12, 10), size, scale_len(size, 9, 10)];
    let angles: [i32; 5] = [110, 80, 100, 110, 140];
    let mut family: Vec<(i32, [i32; 5])> = Vec::new();
    family.push((0, angles));
    family.push((180, angles));
    assert(sizes@ =~= type1_sizes(size as int));
    assert(family_view(family@) =~= type1_family());
    match build(rot, sizes, &family) {
        Err(e) => Err(e),
        Ok(mv) => {
            let ghost shapes = motifs_view(mv@);
            assert(forall|k: int| 0 <= k < mv@.len() ==> (#[trigger] mv@[k])@ == shapes[k]);
            let idir: Pos = mv[0].vertex(3).minus(mv[0].vertex(0));
            let jdir: Pos = mv[0].vertex(0).minus(mv[1].vertex(4)).plus(mv[1].vertex(2)).minus(
                mv[0].vertex(1),
            );
            let mut cell: Vec<Placement> = Vec::new();
            cell.push(place(&mv[0], mv[0].vertex(0).neg().plus(mv[0].side(4).over(2))));
            cell.push(place(&mv[1], mv[1].vertex(0).neg().plus(mv[1].side(4).over(2))));
            let layout = Layout { cell, idir, jdir };
            assert(layout@.cell =~= type1_lattice(shapes).cell);
            Ok(layout)
        },
    }
}

fn type2_layout(size: i32, rot: i32) -> (r: Result<Layout, TilingError>)
    requires
        0 <= rot < 360,
    ensures
        plan_view(r) == type2_plan(size as int, rot as int),
        r matches Ok(l) ==> cell_wf(l.cell@),
{
    if size <= 0 {
        return Err(TilingError::BadSize);
    }
    let sizes: [i32; 3] = [size, scale_len(size, 12, 10), size];
    let angles: [i32; 5] = [150, 70, 100, 110, 110];
    let mirrored: [i32; 5] = [110, 100, 70, 150, 110];
    let mut family: Vec<(i32, [i32; 5])> = Vec::new();
    family.push((0, angles));
    family.push((180, angles));
    family.push((180, mirrored));
    family.push((0, mirrored));
    assert(sizes@ =~= type2_sizes(size as int));
    assert(family_view(family@) =~= type2_family());
    match build(rot, sizes, &family) {
        Err(e) => Err(e),
        Ok(mv) => {
            let ghost shapes = motifs_view(mv@);
            assert(forall|k: int| 0 <= k < mv@.len() ==> (#[trigger] mv@[k])@ == shapes[k]);
            let idir: Pos = mv[0].vertex(0).minus(mv[2].vertex(1)).plus(mv[2].vertex(2)).minus(
                mv[0].vertex(3),
            );
            let jdir: Pos = mv[0].vertex(4).minus(mv[3].vertex(1)).plus(mv[3].vertex(4)).minus(
                mv[0].vertex(2),
            );
            let mut cell: Vec<Placement> = Vec::new();
            cell.push(place(&mv[0], Pos::zero()));
            cell.push(place(&mv[1], mv[0].vertex(2).plus(mv[3].side(4)).minus(mv[1].vertex(1))));
            cell.push(place(&mv[2], mv[0].vertex(0).minus(mv[2].vertex(1))));
            cell.push(place(&mv[3], mv[0].vertex(2).minus(mv[3].vertex(4))));
            let layout = Layout { cell, idir, jdir };
            assert(layout@.cell =~= type2_lattice(shapes).cell);
            Ok(layout)
        },
    }
}

fn type3_layout(size: i32, rot: i32) -> (r: Result<Layout, TilingError>)
    requires
        0 <= rot < 360,
    ensures
        plan_view(r) == type3_plan(size as int, rot as int),
        r matches Ok(l) ==> cell_wf(l.cell@),
{
    if size <= 0 {
        return Err(TilingError::BadSize);
    }
    let sizes: [i32; 3] = [scale_len(size, 3, 10), size, scale_len(size, 7, 10)];
    let angles: [i32; 5] = [103, 120, 120, 77, 120];
    let mut family: Vec<(i32, [i32; 5])> = Vec::new();
    family.push((0, angles));
    family.push((120, angles));
    family.push((-120, angles));
    assert(sizes@ =~= type3_sizes(size as int));
    assert(family_view(family@) =~= type3_family());
    match build(rot, sizes, &family) {
        Err(e) => Err(e),
        Ok(mv) => {
            let ghost shapes = motifs_view(mv@);
            assert(forall|k: int| 0 <= k < mv@.len() ==> (#[trigger] mv@[k])@ == shapes[k]);
            let idir: Pos = mv[0].vertex(4).neg().plus(mv[0].vertex(2)).minus(mv[2].vertex(2)).plus(
                mv[2].vertex(4),
            );
            let jdir: Pos = mv[0].vertex(4).neg().plus(mv[0].vertex(2)).minus(mv[1].vertex(2)).plus(
                mv[1].vertex(4),
            );
            let mut cell: Vec<Placement> = Vec::new();
            cell.push(place(&mv[0], mv[0].vertex(4).neg()));
            cell.push(place(&mv[1], mv[1].vertex(4).neg()));
            cell.push(place(&mv[2], mv[2].vertex(4).neg()));
            let layout = Layout { cell, idir, jdir };
            assert(layout@.cell =~= type3_lattice(shapes).cell);
            Ok(layout)
        },
    }
}

fn type4_layout(size: i32, rot: i32) -> (r: Result<Layout, TilingError>)
    requires
        0 <= rot < 360,
    ensures
        plan_view(r) == type4_plan(size as int, rot as int),
        r matches Ok(l) ==> cell_wf(l.cell@),
{
    if size <= 0 {
        return Err(TilingError::BadSize);
    }
    let sizes: [i32; 3] = [size, size, scale_len(size, 9, 10)];
    let angles: [i32; 5] = [100, 90, 130, 90, 130];
    let mut family: Vec<(i32, [i32; 5])> = Vec::new();
    family.push((0, angles));
    family.push((90, angles));
    family.push((180, angles));
    family.push((-90, angles));
    assert(sizes@ =~= type4_sizes(size as int));
    assert(family_view(family@) =~= type4_family());
    match build(rot, sizes, &family) {
        Err(e) => Err(e),
        Ok(mv) => {
            let ghost shapes = motifs_view(mv@);
            assert(forall|k: int| 0 <= k < mv@.len() ==> (#[trigger] mv@[k])@ == shapes[k]);
            let idir: Pos = Pos::polar(0, scale_len(size, 100, 1));
            let jdir: Pos = Pos::polar(90, scale_len(size, 100, 1));
            let mut cell: Vec<Placement> = Vec::new();
            cell.push(place(&mv[0], mv[0].vertex(1).neg()));
            cell.push(place(&mv[1], mv[1].vertex(1).neg()));
            cell.push(place(&mv[2], mv[2].vertex(1).neg()));
            cell.push(place(&mv[3], mv[3].vertex(1).neg()));
            let layout = Layout { cell, idir, jdir };
            assert(layout@.cell =~= type4_lattice(shapes, size as int).cell);
            Ok(layout)
        },
    }
}

fn type5_layout(size: i32, rot: i32) -> (r: Result<Layout, TilingError>)
    requires
        0 <= rot < 360,
    ensures
        plan_view(r) == type5_plan(size as int, rot as int),
        r matches Ok(l) ==> cell_wf(l.cell@),
{
    if size <= 0 {
        return Err(TilingError::BadSize);
    }
    let sizes: [i32; 3] = [size, size, size];
    let angles: [i32; 5] = [90, 120, 60, 150, 120];
    let mut family: Vec<(i32, [i32; 5])> = Vec::new();
    family.push((0, angles));
    family.push((60, angles));
    family.push((120, angles));
    family.push((180, angles));
    family.push((-120, angles));
    family.push((-60, angles));
    assert(sizes@ =~= type5_sizes(size as int));
    assert(family_view(family@) =~= type5_family());
    match build(rot, sizes, &family) {
        Err(e) => Err(e),
        Ok(mv) => {
            let ghost shapes = motifs_view(mv@);
            assert(forall|k: int| 0 <= k < mv@.len() ==> (#[trigger] mv@[k])@ == shapes[k]);
            let base: Pos = mv[1].vertex(2).neg().plus(mv[1].vertex(4)).minus(mv[5].vertex(4)).plus(
                mv[5].vertex(1),
            );
            let idir: Pos = base.minus(mv[1].vertex(1)).plus(mv[1].vertex(4)).minus(
                mv[3].vertex(4),
            ).plus(mv[3].vertex(2));
            let jdir: Pos = base.minus(mv[3].vertex(1)).plus(mv[3].vertex(4)).minus(
                mv[5].vertex(4),
            ).plus(mv[5].vertex(2));
            let mut cell: Vec<Placement> = Vec::new();
            let mut n: usize = 0;
            while n < 18
                invariant
                    0 <= n <= 18,
                    mv@.len() == 6,
                    shapes == motifs_view(mv@),
                    five_cornered(shapes),
                    forall|k: int| 0 <= k < mv@.len() ==> (#[trigger] mv@[k]).wf(),
                    cell_wf(cell@),
                    cell@.len() == n,
                    forall|i: int| 0 <= i < n ==> (#[trigger] cell_view(cell@)[i]) == type5_copy(shapes, i),
                decreases 18 - n,
            {
                let ghost before = cell_view(cell@);
                let ghost cell_before = cell@;
                let (k, t): (usize, usize) = if n < 6 {
                    (n, n)
                } else if n < 12 {
                    (n - 6, (n - 6 + 2) % 6)
                } else {
                    (n - 12, (n - 12 + 4) % 6)
                };
                assert(shapes[k as int].len() == 5 && shapes[t as int].len() == 5);
                assert(mv@[k as int]@ == shapes[k as int] && mv@[t as int]@ == shapes[t as int]);
                let offset: Pos = if n < 6 {
                    mv[k].vertex(2).neg()
                } else {
                    mv[k].vertex(2).neg().plus(mv[k].vertex(4)).minus(mv[t].vertex(4))
                };
                cell.push(place(&mv[t], offset));
                assert forall|i: int| 0 <= i < n + 1 implies (#[trigger] cell_view(cell@)[i])
                    == type5_copy(shapes, i) by {
                    if i < n {
                        assert(cell@[i] == cell_before[i]);
                        assert(cell_view(cell@)[i] == before[i]);
                        assert(before[i] == type5_copy(shapes, i));
                    } else {
                        assert(cell_view(cell@)[i] == (shapes[t as int], offset));
                        assert(type5_copy(shapes, i) == (shapes[t as int], offset));
                    }
                }
                n = n + 1;
            }
            let layout = Layout { cell, idir, jdir };
            assert(layout@.cell =~= type5_lattice(shapes).cell);
            Ok(layout)
        },
    }
}

/// Tiles the frame with pentagons of the first family: two pentagons, head to tail.
pub fn pentagons_type1(f: &Frame, size: i32, rot: i32) -> (r: Result<Vec<(Pos, Path)>, TilingError>)
    ensures
        tiling_matches(r, *f, type1_plan(size as int, turn(rot as int))),
        r != Err::<Vec<(Pos, Path)>, TilingError>(TilingError::MalformedAngles),
{
    proof {
        lemma_type1_closes(size as int, turn(rot as int));
    }
    tile_layout(f, type1_layout(size, normalize(rot)))
}

/// Tiles the frame with pentagons of the second family: two pentagons and their mirror images.
pub fn pentagons_type2(f: &Frame, size: i32, rot: i32) -> (r: Result<Vec<(Pos, Path)>, TilingError>)
    ensures
        tiling_matches(r, *f, type2_plan(size as int, turn(rot as int))),
        r != Err::<Vec<(Pos, Path)>, TilingError>(TilingError::MalformedAngles),
{
    proof {
        lemma_type2_closes(size as int, turn(rot as int));
    }
    tile_layout(f, type2_layout(size, normalize(rot)))
}

/// Tiles the frame with pentagons of the third family: three pentagons around a shared corner.
pub fn pentagons_type3(f: &Frame, size: i32, rot: i32) -> (r: Result<Vec<(Pos, Path)>, TilingError>)
    ensures
        tiling_matches(r, *f, type3_plan(size as int, turn(rot as int))),
        r != Err::<Vec<(Pos, Path)>, TilingError>(TilingError::MalformedAngles),
{
    proof {
        lemma_type3_closes(size as int, turn(rot as int));
    }
    tile_layout(f, type3_layout(size, normalize(rot)))
}

/// Tiles the frame with pentagons of the fourth family: four pentagons around a shared corner.
pub fn pentagons_type4(f: &Frame, size: i32, rot: i32) -> (r: Result<Vec<(Pos, Path)>, TilingError>)
    ensures
        tiling_matches(r, *f, type4_plan(size as int, turn(rot as int))),
        r != Err::<Vec<(Pos, Path)>, TilingError>(TilingError::MalformedAngles),
{
    proof {
        lemma_type4_closes(size as int, turn(rot as int));
    }
    tile_layout(f, type4_layout(size, normalize(rot)))
}

/// Tiles the frame with pentagons of the fifth family: flowers of six pentagons.
pub fn pentagons_type5(f: &Frame, size: i32, rot: i32) -> (r: Result<Vec<(Pos, Path)>, TilingError>)
    ensures
        tiling_matches(r, *f, type5_plan(size as int, turn(rot as int))),
        r != Err::<Vec<(Pos, Path)>, TilingError>(TilingError::MalformedAngles),
{
    proof {
        lemma_type5_closes(size as int, turn(rot as int));
    }
    tile_layout(f, type5_layout(size, normalize(rot)))
}

/// A family whose angles close has no pentagon with malformed angles.
proof fn lemma_closing_family(rot: int, sizes: Seq<i32>, family: Seq<(int, Seq<i32>)>, n: int)
    requires
        forall|k: int| 0 <= k < n ==> angles_close(#[trigger] family[k].1),
    ensures
        outlines_of(rot, sizes, family, n) != Err::<Seq<Seq<Pos>>, TilingError>(
            TilingError::MalformedAngles,
        ),
    decreases n,
{
    if n > 0 {
        lemma_closing_family(rot, sizes, family, n - 1);
        assert(angles_close(family[n - 1].1));
    }
}

proof fn lemma_type1_closes(size: int, rot: int)
    ensures
        type1_plan(size, rot) != Err::<Lattice, TilingError>(TilingError::MalformedAngles),
{
    lemma_families_close();
    lemma_closing_family(rot, type1_sizes(size), type1_family(), 2);
}

proof fn lemma_type2_closes(size: int, rot: int)
    ensures
        type2_plan(size, rot) != Err::<Lattice, TilingError>(TilingError::MalformedAngles),
{
    lemma_families_close();
    lemma_closing_family(rot, type2_sizes(size), type2_family(), 4);
}

proof fn lemma_type3_closes(size: int, rot: int)
    ensures
        type3_plan(size, rot) != Err::<Lattice, TilingError>(TilingError::MalformedAngles),
{
    lemma_families_close();
    lemma_closing_family(rot, type3_sizes(size), type3_family(), 3);
}

proof fn lemma_type4_closes(size: int, rot: int)
    ensures
        type4_plan(size, rot) != Err::<Lattice, TilingError>(TilingError::MalformedAngles),
{
    lemma_families_close();
    lemma_closing_family(rot, type4_sizes(size), type4_family(), 4);
}

proof fn lemma_type5_closes(size: int, rot: int)
    ensures
        type5_plan(size, rot) != Err::<Lattice, TilingError>(TilingError::MalformedAngles),
{
    lemma_families_close();
    lemma_closing_family(rot, type5_sizes(size), type5_family(), 6);
}

} // verus!
