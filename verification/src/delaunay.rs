//! A tiling without a lattice: the triangles between scattered points.

use vstd::prelude::*;
use delaunator::{triangulate, Point};
use rand::rngs::ThreadRng;
use crate::fixed::{clip, clip_wide, div_round, div_round_wide};
use crate::frame::Frame;
use crate::pos::Pos;
use crate::svg::{Data, Path};
use crate::tesselate::{all_plain, outlines, TilingError};

verus! {

/// The corners of the triangles that `delaunator::triangulate` finds between
/// the points with these coordinates, three indices into the points for
/// each triangle; nothing where it finds no triangle at all.
pub uninterp spec fn delaunay_triangles(pts: Seq<(i32, i32)>) -> Option<Seq<usize>>;

/// The coordinates of the points.
pub open spec fn coordinates(pts: Seq<Pos>) -> Seq<(i32, i32)> {
    Seq::new(pts.len(), |i: int| (pts[i].0, pts[i].1))
}

/// Calls `delaunator::triangulate` on the points and hands back the field
/// `triangles` of its result.
///
/// The result depends on the coordinates alone, and each entry of the field
/// is the index of one of the points.
#[verifier::external_body]
fn triangulate_points(pts: &Vec<Pos>) -> (r: Option<Vec<usize>>)
    ensures
        r matches Some(t) ==> delaunay_triangles(coordinates(pts@)) == Some(t@),
        r is None ==> delaunay_triangles(coordinates(pts@)) is None,
        r matches Some(t) ==> forall|i: int| 0 <= i < t@.len() ==> (#[trigger] t@[i]) < pts@.len(),
{
    let points: Vec<Point> = pts.iter().map(|p| Point { x: p.0.into(), y: p.1.into() }).collect();
    triangulate(&points).map(|t| t.triangles)
}

/// The point in the middle of a triangle.
pub open spec fn centroid(a: Pos, b: Pos, c: Pos) -> Pos {
    Pos(
        clip(div_round(a.0 + b.0 + c.0, 3)) as i32,
        clip(div_round(a.1 + b.1 + c.1, 3)) as i32,
    )
}

/// Anchor and outline of triangle `k` of a triangulation.
pub open spec fn triangle_tile(pts: Seq<Pos>, corners: Seq<usize>, k: int) -> (Pos, Seq<Pos>) {
    let a = pts[corners[3 * k] as int];
    let b = pts[corners[3 * k + 1] as int];
    let c = pts[corners[3 * k + 2] as int];
    (centroid(a, b, c), seq![a, b, c])
}

/// The tiles of a triangulation: each triangle, anchored in its middle.
pub open spec fn triangle_tiles(pts: Seq<Pos>, corners: Seq<usize>) -> Seq<(Pos, Seq<Pos>)> {
    Seq::new((corners.len() / 3) as nat, |k: int| triangle_tile(pts, corners, k))
}

/// The points may have been scattered over the frame by `scatter`.
pub open spec fn scattered(f: Frame, pts: Seq<Pos>, n: int) -> bool {
    pts.len() == n && forall|i: int| 0 <= i < pts.len() ==> Pos::random_in(f, #[trigger] pts[i])
}

fn middle(a: Pos, b: Pos, c: Pos) -> (m: Pos)
    ensures
        m == centroid(a, b, c),
{
    let x: i128 = a.0 as i128 + b.0 as i128 + c.0 as i128;
    let y: i128 = a.1 as i128 + b.1 as i128 + c.1 as i128;
    Pos(clip_wide(div_round_wide(x, 3)), clip_wide(div_round_wide(y, 3)))
}

/// Turns a triangulation into tiles: one for each three corners, anchored
/// in the middle of the triangle.
pub fn delaunay_tiles(pts: &Vec<Pos>, corners: &Vec<usize>) -> (tiles: Vec<(Pos, Path)>)
    requires
        forall|i: int| 0 <= i < corners@.len() ==> (#[trigger] corners@[i]) < pts@.len(),
    ensures
        all_plain(tiles@),
        outlines(tiles@) == triangle_tiles(pts@, corners@),
{
    let mut tiles: Vec<(Pos, Path)> = Vec::new();
    let count: usize = corners.len() / 3;
    let mut k: usize = 0;
    while k < count
        invariant
            0 <= k <= count,
            count == corners.len() / 3,
            forall|i: int| 0 <= i < corners@.len() ==> (#[trigger] corners@[i]) < pts@.len(),
            all_plain(tiles@),
            tiles@.len() == k,
            forall|i: int| 0 <= i < k ==> (#[trigger] outlines(tiles@)[i]) == triangle_tile(
                pts@,
                corners@,
                i,
            ),
        decreases count - k,
    {
        let ghost before = tiles@;
        assert(3 * k + 2 < corners.len() <= usize::MAX);
        let first: usize = 3 * k;
        let a: Pos = pts[corners[first]];
        let b: Pos = pts[corners[first + 1]];
        let c: Pos = pts[corners[first + 2]];
        let data: Data = Data::new(a).with_line_to(b).with_line_to(c);
        assert(data@ =~= seq![a, b, c]);
        tiles.push((middle(a, b, c), Path::new(data)));
        assert forall|i: int| 0 <= i < k + 1 implies (#[trigger] outlines(tiles@)[i])
            == triangle_tile(pts@, corners@, i) by {
            if i < k {
                assert(tiles@[i] == before[i]);
                assert(outlines(before)[i] == triangle_tile(pts@, corners@, i));
            }
        }
        k = k + 1;
    }
    assert(outlines(tiles@) =~= triangle_tiles(pts@, corners@));
    tiles
}

/// Scatters `n` points over the frame and its margin.
pub fn scatter(f: &Frame, rng: &mut ThreadRng, n: usize) -> (pts: Vec<Pos>)
    ensures
        scattered(*f, pts@, n as int),
{
    let mut pts: Vec<Pos> = Vec::new();
    let mut i: usize = 0;
    while i < n
        invariant
            0 <= i <= n,
            scattered(*f, pts@, i as int),
        decreases n - i,
    {
        let p: Pos = Pos::random(f, rng);
        pts.push(p);
        i = i + 1;
    }
    pts
}

/// Tiles the frame with the triangles between the given points.
pub fn triangulate_tiling(pts: &Vec<Pos>) -> (r: Result<Vec<(Pos, Path)>, TilingError>)
    ensures
        match r {
            Ok(tiles) => all_plain(tiles@) && delaunay_triangles(coordinates(pts@)) is Some
                && outlines(tiles@) == triangle_tiles(
                pts@,
                delaunay_triangles(coordinates(pts@))->Some_0,
            ),
            Err(e) => e == TilingError::DegenerateInput && delaunay_triangles(
                coordinates(pts@),
            ) is None,
        },
{
    match triangulate_points(pts) {
        None => Err(TilingError::DegenerateInput),
        Some(corners) => Ok(delaunay_tiles(pts, &corners)),
    }
}

/// Tiles the frame with the triangles between `n` points scattered at random.
pub fn random_delaunay(f: &Frame, rng: &mut ThreadRng, n: usize) -> (r: Result<
    Vec<(Pos, Path)>,
    TilingError,
>)
    ensures
        exists|pts: Seq<Pos>| #[trigger]
            scattered(*f, pts, n as int) && match r {
                Ok(tiles) => all_plain(tiles@) && delaunay_triangles(coordinates(pts)) is Some
                    && outlines(tiles@) == triangle_tiles(
                    pts,
                    delaunay_triangles(coordinates(pts))->Some_0,
                ),
                Err(e) => e == TilingError::DegenerateInput && delaunay_triangles(
                    coordinates(pts),
                ) is None,
            },
{
    let pts: Vec<Pos> = scatter(f, rng, n);
    let r = triangulate_tiling(&pts);
    assert(scattered(*f, pts@, n as int));
    r
}

} // verus!
