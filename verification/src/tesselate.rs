//! Tilings of the frame: a motif repeated over a lattice, or the triangles
//! between points scattered at random.

use vstd::prelude::*;
use vstd::set_lib::{lemma_int_range, lemma_len_subset, set_int_range};
use std::collections::HashSet;
use crate::fixed::{clip, sum_len};
use crate::frame::Frame;
use crate::pos::Pos;
use crate::shape::{moved, polygon, rhombus_corners, Movable};
use crate::svg::Path;
use crate::trig::{
    div_cos, mul_cos, mul_sin, mul_tan, normalize, over_cosine, times_cosine, times_sine,
    times_tangent, turn,
};

verus! {

/// Why a tiling could not be built.
#[derive(Clone, Copy, Debug, PartialEq, Eq, Structural)]
pub enum TilingError {
    /// The size of the motif is zero or negative.
    BadSize,
    /// The two directions of the lattice are parallel, or one of them is zero.
    DegenerateBasis,
    /// Two edges that should close an outline run parallel.
    FailedIntersection,
    /// The angles of a pentagon do not close its outline.
    MalformedAngles,
    /// The points that were scattered span no triangle.
    DegenerateInput,
}

/// One copy of a motif in the cell of a lattice: its outline and where its
/// anchor lies, seen from the lattice point.
pub struct Placement {
    pub shape: Movable,
    pub offset: Pos,
}

/// The outlines and offsets of the copies in a cell.
pub open spec fn cell_view(cell: Seq<Placement>) -> Seq<(Seq<Pos>, Pos)> {
    Seq::new(cell.len(), |k: int| (cell[k].shape@, cell[k].offset))
}

/// Every copy in the cell has an outline.
pub open spec fn cell_wf(cell: Seq<Placement>) -> bool {
    forall|k: int| 0 <= k < cell.len() ==> (#[trigger] cell[k]).shape.wf()
}

/// The anchor and outline of one copy of a motif at the lattice point `at`.
pub open spec fn tile_at(copy: (Seq<Pos>, Pos), at: Pos) -> (Pos, Seq<Pos>) {
    (at.spec_plus(copy.1), moved(copy.0, at.spec_plus(copy.1)))
}

/// The tiles of a whole cell at the lattice point `at`.
pub open spec fn motif_at(cell: Seq<(Seq<Pos>, Pos)>, at: Pos) -> Seq<(Pos, Seq<Pos>)> {
    Seq::new(cell.len(), |k: int| tile_at(cell[k], at))
}

/// The tiles of the cell at each of the lattice points, in their order.
pub open spec fn tiling_of(points: Seq<Pos>, cell: Seq<(Seq<Pos>, Pos)>) -> Seq<(Pos, Seq<Pos>)>
    decreases points.len(),
{
    if points.len() == 0 {
        Seq::empty()
    } else {
        tiling_of(points.drop_last(), cell) + motif_at(cell, points.last())
    }
}

/// Anchor and outline of each tile.
pub open spec fn outlines(tiles: Seq<(Pos, Path)>) -> Seq<(Pos, Seq<Pos>)> {
    Seq::new(tiles.len(), |i: int| (tiles[i].0, tiles[i].1.data@))
}

/// No tile has been given a colour or a stroke yet.
pub open spec fn all_plain(tiles: Seq<(Pos, Path)>) -> bool {
    forall|i: int| 0 <= i < tiles.len() ==> (#[trigger] tiles[i]).1.is_plain()
}

/// The lattice point next to `p` in direction `k`: up, down, right, left.
pub open spec fn step(p: Pos, idir: Pos, jdir: Pos, k: int) -> Pos {
    if k == 0 {
        p.spec_plus(jdir)
    } else if k == 1 {
        p.spec_minus(jdir)
    } else if k == 2 {
        p.spec_plus(idir)
    } else {
        p.spec_minus(idir)
    }
}

/// `q` is one of the four lattice points next to `p`.
pub open spec fn next_to(p: Pos, q: Pos, idir: Pos, jdir: Pos) -> bool {
    q == step(p, idir, jdir, 0) || q == step(p, idir, jdir, 1) || q == step(p, idir, jdir, 2) || q
        == step(p, idir, jdir, 3)
}

/// Point `i` of the walk lies in the widened frame, and the next one is next to it.
pub open spec fn walk_link(f: Frame, idir: Pos, jdir: Pos, path: Seq<Pos>, i: int) -> bool {
    f.spec_is_inside(path[i]) && next_to(path[i], path[i + 1], idir, jdir)
}

/// A walk over the lattice from the centre of the frame, one lattice step
/// at a time, that does not leave the widened frame before its last point.
pub open spec fn is_walk(f: Frame, idir: Pos, jdir: Pos, path: Seq<Pos>) -> bool {
    &&& path.len() > 0
    &&& path[0] == f.spec_center()
    &&& forall|i: int| 0 <= i < path.len() - 1 ==> #[trigger] walk_link(f, idir, jdir, path, i)
}

/// Some walk ends at `p`.
pub open spec fn reached(f: Frame, idir: Pos, jdir: Pos, p: Pos) -> bool {
    exists|path: Seq<Pos>| #[trigger] is_walk(f, idir, jdir, path) && path.last() == p
}

/// `p` is a lattice point of the widened frame that a walk within it reaches.
pub open spec fn is_anchor(f: Frame, idir: Pos, jdir: Pos, p: Pos) -> bool {
    f.spec_is_inside(p) && reached(f, idir, jdir, p)
}

/// `points` lists the lattice points at which the cell is drawn: each
/// point that a walk within the widened frame reaches, once.
pub open spec fn is_lattice(f: Frame, idir: Pos, jdir: Pos, points: Seq<Pos>) -> bool {
    &&& points.no_duplicates()
    &&& forall|p: Pos| points.contains(p) <==> is_anchor(f, idir, jdir, p)
}

/// The state of the fill: the lattice points that were met, those that
/// wait for their turn, the last to go first, and those at which the cell
/// was drawn, in the order in which that was done.
pub struct Fill {
    pub seen: Set<Pos>,
    pub waiting: Seq<Pos>,
    pub points: Seq<Pos>,
}

/// The fill before its first step: the centre of the frame waits.
pub open spec fn fill_start(f: Frame) -> Fill {
    Fill {
        seen: Set::empty().insert(f.spec_center()),
        waiting: seq![f.spec_center()],
        points: Seq::empty(),
    }
}

/// The fill after it met `q`: a point that was not met before waits.
pub open spec fn fill_visit(st: Fill, q: Pos) -> Fill {
    if st.seen.contains(q) {
        st
    } else {
        Fill { seen: st.seen.insert(q), waiting: st.waiting.push(q), points: st.points }
    }
}

/// The fill one step on: the point that waited last has its turn. If it
/// lies in the widened frame, the cell is drawn at it, and its neighbours
/// are met: up, down, right, left.
pub open spec fn fill_step(st: Fill, f: Frame, idir: Pos, jdir: Pos) -> Fill {
    if st.waiting.len() == 0 {
        st
    } else {
        let pos = st.waiting.last();
        if f.spec_is_inside(pos) {
            fill_visit(
                fill_visit(
                    fill_visit(
                        fill_visit(
                            Fill {
                                seen: st.seen,
                                waiting: st.waiting.drop_last(),
                                points: st.points.push(pos),
                            },
                            step(pos, idir, jdir, 0),
                        ),
                        step(pos, idir, jdir, 1),
                    ),
                    step(pos, idir, jdir, 2),
                ),
                step(pos, idir, jdir, 3),
            )
        } else {
            Fill { seen: st.seen, waiting: st.waiting.drop_last(), points: st.points }
        }
    }
}

/// The fill after `n` steps.
pub open spec fn fill_run(f: Frame, idir: Pos, jdir: Pos, n: nat) -> Fill
    decreases n,
{
    if n == 0 {
        fill_start(f)
    } else {
        fill_step(fill_run(f, idir, jdir, (n - 1) as nat), f, idir, jdir)
    }
}

/// `points` lists the lattice points in the order in which the fill draws
/// the cell at them, up to the step after which no point waits any more.
pub open spec fn fill_order(f: Frame, idir: Pos, jdir: Pos, points: Seq<Pos>) -> bool {
    exists|n: nat|
        (#[trigger] fill_run(f, idir, jdir, n)).waiting.len() == 0 && fill_run(
            f,
            idir,
            jdir,
            n,
        ).points == points
}

/// `tiles` is the cell drawn once at each lattice point of the frame, in
/// the order of the fill.
pub open spec fn is_grid_tiling(
    tiles: Seq<(Pos, Path)>,
    f: Frame,
    cell: Seq<(Seq<Pos>, Pos)>,
    idir: Pos,
    jdir: Pos,
) -> bool {
    &&& all_plain(tiles)
    &&& exists|points: Seq<Pos>| #[trigger]
        is_lattice(f, idir, jdir, points) && fill_order(f, idir, jdir, points) && outlines(tiles)
            == tiling_of(points, cell)
}

/// The fill leaves no gap: next to a lattice point at which the cell is
/// drawn, it is drawn at every lattice point that lies in the widened frame.
pub proof fn lemma_no_gaps(f: Frame, idir: Pos, jdir: Pos, points: Seq<Pos>, p: Pos, k: int)
    requires
        is_lattice(f, idir, jdir, points),
        points.contains(p),
        0 <= k < 4,
        f.spec_is_inside(step(p, idir, jdir, k)),
    ensures
        points.contains(step(p, idir, jdir, k)),
{
    assert(is_anchor(f, idir, jdir, p));
    let path = choose|path: Seq<Pos>| #[trigger] is_walk(f, idir, jdir, path) && path.last() == p;
    let q = step(p, idir, jdir, k);
    let longer = path.push(q);
    assert forall|i: int| 0 <= i < longer.len() - 1 implies #[trigger] walk_link(
        f,
        idir,
        jdir,
        longer,
        i,
    ) by {
        if i < path.len() - 1 {
            assert(walk_link(f, idir, jdir, path, i));
        }
    }
    assert(is_walk(f, idir, jdir, longer) && longer.last() == q);
    assert(is_anchor(f, idir, jdir, q));
}

/// The cell is drawn at the centre of the frame, and at every lattice
/// point at which it is drawn it is drawn once, within the widened frame.
pub proof fn lemma_drawn_once(f: Frame, idir: Pos, jdir: Pos, points: Seq<Pos>)
    requires
        is_lattice(f, idir, jdir, points),
    ensures
        f.spec_is_inside(f.spec_center()) ==> points.contains(f.spec_center()),
        forall|i: int| 0 <= i < points.len() ==> f.spec_is_inside(#[trigger] points[i]),
        forall|i: int, j: int|
            0 <= i < points.len() && 0 <= j < points.len() && i != j ==> points[i] != points[j],
{
    let start = seq![f.spec_center()];
    assert(is_walk(f, idir, jdir, start) && start.last() == f.spec_center());
    assert forall|i: int| 0 <= i < points.len() implies f.spec_is_inside(#[trigger] points[i]) by {
        assert(points.contains(points[i]));
    }
}

/// Number of steps of the grid that the widened frame has room for.
pub open spec fn frame_room(f: Frame) -> int {
    (f.w * 120) * (f.h * 120)
}

/// The place of a point of the widened frame among the steps of the grid,
/// counted column by column.
pub open spec fn room_index(f: Frame, p: Pos) -> int {
    (p.0 - (f.x * 100 - f.w * 10) - 1) * (f.h * 120) + (p.1 - (f.y * 100 - f.h * 10) - 1)
}

/// Points of the widened frame have places within its room, each its own.
proof fn lemma_room_index(f: Frame, p: Pos, q: Pos)
    requires
        f.spec_is_inside(p),
        f.spec_is_inside(q),
    ensures
        0 <= room_index(f, p) < frame_room(f),
        room_index(f, p) == room_index(f, q) ==> p == q,
{
    let height = f.h * 120;
    let width = f.w * 120;
    let a = p.0 - (f.x * 100 - f.w * 10) - 1;
    let b = p.1 - (f.y * 100 - f.h * 10) - 1;
    let c = q.0 - (f.x * 100 - f.w * 10) - 1;
    let d = q.1 - (f.y * 100 - f.h * 10) - 1;
    assert(0 <= a < width && 0 <= b < height && 0 <= c < width && 0 <= d < height);
    assert(0 <= a * height + b < width * height) by (nonlinear_arith)
        requires
            0 <= a < width,
            0 <= b < height,
    ;
    assert(a * height + b == c * height + d ==> a == c && b == d) by (nonlinear_arith)
        requires
            0 <= b < height,
            0 <= d < height,
    ;
}

/// The fill ends after the cell was drawn at no more points than the
/// widened frame has room for: a hundred and twenty steps of the grid for
/// each canvas unit of its width, times as many for its height.
pub proof fn lemma_fill_bounded(f: Frame, idir: Pos, jdir: Pos, points: Seq<Pos>)
    requires
        is_lattice(f, idir, jdir, points),
    ensures
        points.len() <= frame_room(f),
{
    let places = Seq::new(points.len(), |i: int| room_index(f, points[i]));
    assert forall|i: int| 0 <= i < points.len() implies f.spec_is_inside(#[trigger] points[i]) by {
        assert(points.contains(points[i]));
    }
    assert forall|i: int, j: int|
        0 <= i < places.len() && 0 <= j < places.len() && i != j implies places[i]
        != places[j] by {
        lemma_room_index(f, points[i], points[j]);
    }
    places.unique_seq_to_set();
    assert(places.to_set().subset_of(set_int_range(0, frame_room(f)))) by {
        assert forall|x: int| places.to_set().contains(x) implies set_int_range(
            0,
            frame_room(f),
        ).contains(x) by {
            let i = choose|i: int| 0 <= i < places.len() && places[i] == x;
            lemma_room_index(f, points[i], points[i]);
        }
    }
    if points.len() > 0 {
        lemma_room_index(f, points[0], points[0]);
    }
    if frame_room(f) > 0 {
        lemma_int_range(0, frame_room(f));
        lemma_len_subset(places.to_set(), set_int_range(0, frame_room(f)));
    }
}

/// The number that stands for a point in the set of visited points.
pub open spec fn key(p: Pos) -> int {
    (p.0 + 0x8000_0000) * 0x1_0000_0000 + (p.1 + 0x8000_0000)
}

/// Number of keys.
pub open spec fn key_space() -> int {
    0x1_0000_0000_0000_0000
}

/// Different points have different keys.
pub proof fn lemma_key_injective(p: Pos, q: Pos)
    requires
        key(p) == key(q),
    ensures
        p == q,
        0 <= key(p) < key_space(),
{
}

/// Whether the key of `p` is in the set.
pub open spec fn visited(seen: Set<u64>, p: Pos) -> bool {
    seen.contains(key(p) as u64)
}

/// A visited point needs no more work: it lies outside the widened frame, or
/// the cell was drawn at it and its four neighbours were visited.
pub open spec fn settled(
    seen: Set<u64>,
    points: Seq<Pos>,
    f: Frame,
    idir: Pos,
    jdir: Pos,
    p: Pos,
) -> bool {
    f.spec_is_inside(p) ==> {
        &&& points.contains(p)
        &&& visited(seen, step(p, idir, jdir, 0))
        &&& visited(seen, step(p, idir, jdir, 1))
        &&& visited(seen, step(p, idir, jdir, 2))
        &&& visited(seen, step(p, idir, jdir, 3))
    }
}

fn key_of(p: Pos) -> (k: u64)
    ensures
        k == key(p),
{
    ((p.0 as i64 + 0x8000_0000) as u64) * 0x1_0000_0000 + ((p.1 as i64 + 0x8000_0000) as u64)
}

/// A walk stays a walk when a neighbour of its last point is added, if that
/// last point lies in the widened frame.
proof fn lemma_extend_walk(f: Frame, idir: Pos, jdir: Pos, path: Seq<Pos>, q: Pos)
    requires
        is_walk(f, idir, jdir, path),
        f.spec_is_inside(path.last()),
        next_to(path.last(), q, idir, jdir),
    ensures
        is_walk(f, idir, jdir, path.push(q)),
        path.push(q).last() == q,
{
    let longer = path.push(q);
    assert forall|i: int| 0 <= i < longer.len() - 1 implies #[trigger] walk_link(
        f,
        idir,
        jdir,
        longer,
        i,
    ) by {
        if i < path.len() - 1 {
            assert(walk_link(f, idir, jdir, path, i));
        }
    }
}

/// Once every visited point is settled, every point of a walk was visited.
proof fn lemma_walk_visited(
    seen: Set<u64>,
    points: Seq<Pos>,
    f: Frame,
    idir: Pos,
    jdir: Pos,
    path: Seq<Pos>,
    i: int,
)
    requires
        is_walk(f, idir, jdir, path),
        0 <= i < path.len(),
        visited(seen, f.spec_center()),
        forall|p: Pos| visited(seen, p) ==> #[trigger] settled(seen, points, f, idir, jdir, p),
    ensures
        visited(seen, path[i]),
    decreases i,
{
    if i > 0 {
        lemma_walk_visited(seen, points, f, idir, jdir, path, i - 1);
        assert(walk_link(f, idir, jdir, path, i - 1));
        assert(settled(seen, points, f, idir, jdir, path[i - 1]));
    }
}

/// Visits `q` unless it was visited before: its key joins the set and the
/// point itself the stack of points that wait for their turn.
fn note(q: Pos, seen: &mut HashSet<u64>, waiting: &mut Vec<Pos>)
    ensures
        visited(old(seen)@, q) ==> final(seen)@ == old(seen)@ && final(waiting)@ == old(waiting)@,
        !visited(old(seen)@, q) ==> final(seen)@ == old(seen)@.insert(key(q) as u64)
            && final(waiting)@ == old(waiting)@.push(q),
{
    broadcast use vstd::std_specs::hash::group_hash_axioms;

    let k: u64 = key_of(q);
    if !seen.contains(&k) {
        seen.insert(k);
        waiting.push(q);
    }
}

/// Draws every copy of the cell at the lattice point `at`.
fn emit(cell: &Vec<Placement>, at: Pos, tiles: &mut Vec<(Pos, Path)>)
    requires
        cell_wf(cell@),
        all_plain(old(tiles)@),
    ensures
        all_plain(final(tiles)@),
        outlines(final(tiles)@) == outlines(old(tiles)@) + motif_at(cell_view(cell@), at),
{
    let mut k: usize = 0;
    while k < cell.len()
        invariant
            0 <= k <= cell.len(),
            cell_wf(cell@),
            all_plain(tiles@),
            outlines(tiles@) == outlines(old(tiles)@) + motif_at(cell_view(cell@), at).take(
                k as int,
            ),
        decreases cell.len() - k,
    {
        let ghost before = tiles@;
        assert(cell@[k as int].shape.wf());
        let tile = cell[k].shape.render(at.plus(cell[k].offset));
        tiles.push(tile);
        proof {
            let whole = motif_at(cell_view(cell@), at);
            assert(whole.take(k as int + 1) =~= whole.take(k as int).push(whole[k as int]));
            assert(outlines(tiles@) =~= outlines(before).push(whole[k as int]));
        }
        k = k + 1;
    }
    proof {
        let whole = motif_at(cell_view(cell@), at);
        assert(whole.take(cell.len() as int) =~= whole);
    }
}

/// The set of visited keys and the stack stand for the state of the fill.
spec fn stands_for(seen: Set<u64>, waiting: Seq<Pos>, points: Seq<Pos>, st: Fill) -> bool {
    &&& st.waiting == waiting
    &&& st.points == points
    &&& forall|p: Pos| st.seen.contains(p) <==> visited(seen, p)
}

/// Visiting a point changes the set and the stack as the fill says.
proof fn lemma_visit_stands(
    seen: Set<u64>,
    waiting: Seq<Pos>,
    points: Seq<Pos>,
    st: Fill,
    q: Pos,
    seen2: Set<u64>,
    waiting2: Seq<Pos>,
)
    requires
        stands_for(seen, waiting, points, st),
        visited(seen, q) ==> seen2 == seen && waiting2 == waiting,
        !visited(seen, q) ==> seen2 == seen.insert(key(q) as u64) && waiting2 == waiting.push(q),
    ensures
        stands_for(seen2, waiting2, points, fill_visit(st, q)),
{
    if !visited(seen, q) {
        let next = fill_visit(st, q);
        lemma_key_injective(q, q);
        assert forall|p: Pos| next.seen.contains(p) <==> visited(seen2, p) by {
            lemma_key_injective(p, p);
            if key(p) == key(q) {
                lemma_key_injective(p, q);
            }
            assert(st.seen.contains(p) <==> visited(seen, p));
        }
    }
}

/// What the flood fill knows while points still wait for their turn. The
/// point `pending`, if any, was taken from the stack and is being worked on.
spec fn fill_inv(
    seen: Set<u64>,
    keys: Set<int>,
    waiting: Seq<Pos>,
    points: Seq<Pos>,
    f: Frame,
    idir: Pos,
    jdir: Pos,
    pending: Option<Pos>,
) -> bool {
    &&& visited(seen, f.spec_center())
    &&& forall|p: Pos| visited(seen, p) ==> #[trigger] reached(f, idir, jdir, p)
    &&& forall|p: Pos|
        visited(seen, p) ==> waiting.contains(p) || pending == Some(p) || #[trigger] settled(
            seen,
            points,
            f,
            idir,
            jdir,
            p,
        )
    &&& waiting.no_duplicates()
    &&& forall|i: int| 0 <= i < waiting.len() ==> visited(seen, #[trigger] waiting[i])
    &&& forall|i: int| 0 <= i < waiting.len() ==> !points.contains(#[trigger] waiting[i])
    &&& points.no_duplicates()
    &&& forall|i: int|
        0 <= i < points.len() ==> f.spec_is_inside(#[trigger] points[i]) && visited(
            seen,
            points[i],
        )
    &&& keys.finite()
    &&& forall|k: u64| seen.contains(k) <==> keys.contains(k as int)
    &&& forall|x: int| keys.contains(x) ==> 0 <= x < key_space()
}

/// Visiting a neighbour of a point of the widened frame keeps what the flood
/// fill knows, and leaves fewer keys unused if the neighbour is new.
proof fn lemma_note_keeps(
    seen: Set<u64>,
    keys: Set<int>,
    waiting: Seq<Pos>,
    points: Seq<Pos>,
    f: Frame,
    idir: Pos,
    jdir: Pos,
    from: Pos,
    q: Pos,
    seen2: Set<u64>,
    waiting2: Seq<Pos>,
) -> (keys2: Set<int>)
    requires
        fill_inv(seen, keys, waiting, points, f, idir, jdir, Some(from)),
        visited(seen, from),
        f.spec_is_inside(from),
        next_to(from, q, idir, jdir),
        visited(seen, q) ==> seen2 == seen && waiting2 == waiting,
        !visited(seen, q) ==> seen2 == seen.insert(key(q) as u64) && waiting2 == waiting.push(q),
    ensures
        fill_inv(seen2, keys2, waiting2, points, f, idir, jdir, Some(from)),
        visited(seen2, q),
        forall|p: Pos| visited(seen, p) ==> visited(seen2, p),
        keys2.len() <= key_space(),
        visited(seen, q) ==> keys2 == keys && waiting2 == waiting,
        !visited(seen, q) ==> keys2.len() == keys.len() + 1,
{
    lemma_int_range(0, key_space());
    if visited(seen, q) {
        assert(keys.subset_of(set_int_range(0, key_space())));
        lemma_len_subset(keys, set_int_range(0, key_space()));
        keys
    } else {
        let keys2 = keys.insert(key(q));
        lemma_key_injective(q, q);
        assert(keys2.subset_of(set_int_range(0, key_space())));
        lemma_len_subset(keys2, set_int_range(0, key_space()));
        assert(!keys.contains(key(q)));
        // the new point is reached through the point whose neighbour it is
        assert(reached(f, idir, jdir, from));
        let path = choose|path: Seq<Pos>| #[trigger]
            is_walk(f, idir, jdir, path) && path.last() == from;
        lemma_extend_walk(f, idir, jdir, path, q);
        assert(reached(f, idir, jdir, q));
        assert forall|p: Pos| visited(seen2, p) implies #[trigger] reached(f, idir, jdir, p) by {
            if !visited(seen, p) {
                lemma_key_injective(p, q);
            }
        }
        assert forall|p: Pos| visited(seen2, p) implies waiting2.contains(p) || Some(from) == Some(
            p,
        ) || #[trigger] settled(seen2, points, f, idir, jdir, p) by {
            if visited(seen, p) {
                if waiting.contains(p) {
                    let i = choose|i: int| 0 <= i < waiting.len() && waiting[i] == p;
                    assert(waiting2[i] == p);
                } else if from != p {
                    assert(settled(seen, points, f, idir, jdir, p));
                }
            } else {
                lemma_key_injective(p, q);
                assert(waiting2[waiting.len() as int] == q);
            }
        }
        assert(waiting2.no_duplicates()) by {
            assert forall|i: int, j: int|
                0 <= i < waiting2.len() && 0 <= j < waiting2.len() && i != j implies waiting2[i]
                != waiting2[j] by {
                if i < waiting.len() {
                    assert(visited(seen, waiting[i]));
                }
                if j < waiting.len() {
                    assert(visited(seen, waiting[j]));
                }
            }
        }
        assert forall|i: int| 0 <= i < waiting2.len() implies visited(
            seen2,
            #[trigger] waiting2[i],
        ) by {
            if i < waiting.len() {
                assert(visited(seen, waiting[i]));
            }
        }
        assert forall|i: int| 0 <= i < waiting2.len() implies !points.contains(
            #[trigger] waiting2[i],
        ) by {
            if i < waiting.len() {
                assert(!points.contains(waiting[i]));
            } else if points.contains(q) {
                let j = choose|j: int| 0 <= j < points.len() && points[j] == q;
                assert(visited(seen, points[j]));
            }
        }
        assert forall|k: u64| seen2.contains(k) <==> keys2.contains(k as int) by {}
        keys2
    }
}

/// Taking a point from the stack keeps what the flood fill knows: a point
/// outside the widened frame is settled at once, and one inside is drawn and
/// stays pending until its neighbours were visited.
proof fn lemma_pop_keeps(
    seen: Set<u64>,
    keys: Set<int>,
    before: Seq<Pos>,
    points: Seq<Pos>,
    f: Frame,
    idir: Pos,
    jdir: Pos,
)
    requires
        fill_inv(seen, keys, before, points, f, idir, jdir, None),
        before.len() > 0,
    ensures
        visited(seen, before.last()),
        !points.contains(before.last()),
        !f.spec_is_inside(before.last()) ==> fill_inv(
            seen,
            keys,
            before.drop_last(),
            points,
            f,
            idir,
            jdir,
            None,
        ),
        f.spec_is_inside(before.last()) ==> fill_inv(
            seen,
            keys,
            before.drop_last(),
            points.push(before.last()),
            f,
            idir,
            jdir,
            Some(before.last()),
        ),
{
    let pos = before.last();
    let waiting = before.drop_last();
    assert(before[before.len() - 1] == pos);
    let longer = points.push(pos);
    assert forall|i: int| 0 <= i < waiting.len() implies visited(seen, #[trigger] waiting[i])
        && !points.contains(waiting[i]) && waiting[i] != pos by {
        assert(waiting[i] == before[i]);
    }
    assert forall|p: Pos| before.contains(p) && p != pos implies waiting.contains(p) by {
        let i = choose|i: int| 0 <= i < before.len() && before[i] == p;
        assert(waiting[i] == p);
    }
    if f.spec_is_inside(pos) {
        assert forall|p: Pos| visited(seen, p) implies waiting.contains(p) || Some(pos) == Some(p)
            || #[trigger] settled(seen, longer, f, idir, jdir, p) by {
            if !before.contains(p) {
                assert(settled(seen, points, f, idir, jdir, p));
                if points.contains(p) {
                    let j = choose|j: int| 0 <= j < points.len() && points[j] == p;
                    assert(longer[j] == p);
                }
            }
        }
        assert forall|i: int| 0 <= i < waiting.len() implies !longer.contains(
            #[trigger] waiting[i],
        ) by {
            if longer.contains(waiting[i]) {
                let j = choose|j: int| 0 <= j < longer.len() && longer[j] == waiting[i];
                if j < points.len() {
                    assert(points[j] == waiting[i]);
                }
            }
        }
        assert(longer.no_duplicates()) by {
            assert forall|i: int, j: int|
                0 <= i < longer.len() && 0 <= j < longer.len() && i != j implies longer[i]
                != longer[j] by {
                if i < points.len() {
                    assert(points[i] == longer[i]);
                }
                if j < points.len() {
                    assert(points[j] == longer[j]);
                }
            }
        }
        assert forall|i: int| 0 <= i < longer.len() implies f.spec_is_inside(#[trigger] longer[i])
            && visited(seen, longer[i]) by {
            if i < points.len() {
                assert(points[i] == longer[i]);
            }
        }
    } else {
        assert forall|p: Pos| visited(seen, p) implies waiting.contains(p) || None::<Pos> == Some(p)
            || #[trigger] settled(seen, points, f, idir, jdir, p) by {}
    }
}

/// Tiles the frame with a cell of motifs repeated over a lattice.
///
/// The fill starts at the centre of the frame and goes from each lattice
/// point of the widened frame to its four neighbours, by `idir` and `jdir`
/// and their opposites. The cell is drawn once at each such point.
pub fn periodic_grid_tiling(f: &Frame, cell: &Vec<Placement>, idir: Pos, jdir: Pos) -> (r: Result<
    Vec<(Pos, Path)>,
    TilingError,
>)
    requires
        cell_wf(cell@),
    ensures
        r is Ok <==> idir.spec_cross(jdir) != 0,
        r matches Ok(tiles) ==> is_grid_tiling(tiles@, *f, cell_view(cell@), idir, jdir),
        r matches Err(e) ==> e == TilingError::DegenerateBasis,
{
    broadcast use vstd::std_specs::hash::group_hash_axioms;

    if idir.cross(jdir) == 0 {
        return Err(TilingError::DegenerateBasis);
    }
    let mut tiles: Vec<(Pos, Path)> = Vec::new();
    let center: Pos = f.center();
    let mut seen: HashSet<u64> = HashSet::new();
    let mut waiting: Vec<Pos> = Vec::new();
    seen.insert(key_of(center));
    waiting.push(center);
    let ghost mut points: Seq<Pos> = Seq::empty();
    let ghost mut keys: Set<int> = Set::empty().insert(key(center));
    let ghost mut steps: nat = 0;
    proof {
        lemma_key_injective(center, center);
        assert(waiting@ =~= seq![center]);
        assert forall|p: Pos| fill_start(*f).seen.contains(p) <==> visited(seen@, p) by {
            if visited(seen@, p) {
                lemma_key_injective(p, center);
            }
        }
        lemma_int_range(0, key_space());
        assert(keys.subset_of(set_int_range(0, key_space())));
        lemma_len_subset(keys, set_int_range(0, key_space()));
        let start = seq![center];
        assert(is_walk(*f, idir, jdir, start) && start.last() == center);
        assert forall|p: Pos| visited(seen@, p) implies #[trigger] reached(*f, idir, jdir, p) by {
            lemma_key_injective(p, center);
        }
        assert forall|p: Pos| visited(seen@, p) implies waiting@.contains(p) || None::<Pos> == Some(
            p,
        ) || #[trigger] settled(seen@, points, *f, idir, jdir, p) by {
            lemma_key_injective(p, center);
            assert(waiting@[0] == center);
        }
        assert(outlines(tiles@) =~= tiling_of(points, cell_view(cell@)));
    }
    while waiting.len() > 0
        invariant
            cell_wf(cell@),
            fill_inv(seen@, keys, waiting@, points, *f, idir, jdir, None),
            keys.len() <= key_space(),
            all_plain(tiles@),
            outlines(tiles@) == tiling_of(points, cell_view(cell@)),
            stands_for(seen@, waiting@, points, fill_run(*f, idir, jdir, steps)),
        decreases key_space() - keys.len(), waiting.len(),
    {
        proof {
            lemma_pop_keeps(seen@, keys, waiting@, points, *f, idir, jdir);
        }
        let ghost before = waiting@;
        let ghost st = fill_run(*f, idir, jdir, steps);
        let pos: Pos = waiting.pop().unwrap();
        assert(waiting@ =~= before.drop_last());
        proof {
            steps = steps + 1;
        }
        if f.is_inside(pos) {
            emit(cell, pos, &mut tiles);
            proof {
                assert(points.push(pos).drop_last() =~= points);
                points = points.push(pos);
            }
            let ghost s0 = seen@;
            let ghost w0 = waiting@;
            let ghost t0 = Fill { seen: st.seen, waiting: st.waiting.drop_last(), points };
            note(pos.plus(jdir), &mut seen, &mut waiting);
            proof {
                keys = lemma_note_keeps(s0, keys, w0, points, *f, idir, jdir, pos, pos.spec_plus(jdir), seen@, waiting@);
                lemma_visit_stands(s0, w0, points, t0, pos.spec_plus(jdir), seen@, waiting@);
            }
            let ghost s1 = seen@;
            let ghost w1 = waiting@;
            let ghost t1 = fill_visit(t0, pos.spec_plus(jdir));
            note(pos.minus(jdir), &mut seen, &mut waiting);
            proof {
                keys = lemma_note_keeps(s1, keys, w1, points, *f, idir, jdir, pos, pos.spec_minus(jdir), seen@, waiting@);
                lemma_visit_stands(s1, w1, points, t1, pos.spec_minus(jdir), seen@, waiting@);
            }
            let ghost s2 = seen@;
            let ghost w2 = waiting@;
            let ghost t2 = fill_visit(t1, pos.spec_minus(jdir));
            note(pos.plus(idir), &mut seen, &mut waiting);
            proof {
                keys = lemma_note_keeps(s2, keys, w2, points, *f, idir, jdir, pos, pos.spec_plus(idir), seen@, waiting@);
                lemma_visit_stands(s2, w2, points, t2, pos.spec_plus(idir), seen@, waiting@);
            }
            let ghost s3 = seen@;
            let ghost w3 = waiting@;
            let ghost t3 = fill_visit(t2, pos.spec_plus(idir));
            note(pos.minus(idir), &mut seen, &mut waiting);
            proof {
                keys = lemma_note_keeps(s3, keys, w3, points, *f, idir, jdir, pos, pos.spec_minus(idir), seen@, waiting@);
                lemma_visit_stands(s3, w3, points, t3, pos.spec_minus(idir), seen@, waiting@);
                assert(fill_run(*f, idir, jdir, steps) == fill_visit(t3, pos.spec_minus(idir)));
                assert(visited(seen@, step(pos, idir, jdir, 0)));
                assert(visited(seen@, step(pos, idir, jdir, 1)));
                assert(visited(seen@, step(pos, idir, jdir, 2)));
                assert(visited(seen@, step(pos, idir, jdir, 3)));
                assert(points[points.len() - 1] == pos);
                assert(settled(seen@, points, *f, idir, jdir, pos));
            }
        }
    }
    proof {
        assert forall|p: Pos| points.contains(p) <==> is_anchor(*f, idir, jdir, p) by {
            if points.contains(p) {
                let i = choose|i: int| 0 <= i < points.len() && points[i] == p;
                assert(f.spec_is_inside(points[i]) && visited(seen@, points[i]));
            }
            if is_anchor(*f, idir, jdir, p) {
                let path = choose|path: Seq<Pos>| #[trigger]
                    is_walk(*f, idir, jdir, path) && path.last() == p;
                assert forall|q: Pos| visited(seen@, q) implies #[trigger] settled(
                    seen@,
                    points,
                    *f,
                    idir,
                    jdir,
                    q,
                ) by {
                    assert(!waiting@.contains(q));
                }
                lemma_walk_visited(seen@, points, *f, idir, jdir, path, path.len() - 1);
                assert(settled(seen@, points, *f, idir, jdir, p));
            }
        }
        assert(is_lattice(*f, idir, jdir, points));
        assert(fill_run(*f, idir, jdir, steps).waiting.len() == 0);
        assert(fill_order(*f, idir, jdir, points));
    }
    Ok(tiles)
}

/// A cell of motifs and the two directions in which it repeats.
pub struct Layout {
    pub cell: Vec<Placement>,
    pub idir: Pos,
    pub jdir: Pos,
}

/// What a layout stands for: the outline and offset of each copy in the
/// cell, and the two directions of the lattice.
pub struct Lattice {
    pub cell: Seq<(Seq<Pos>, Pos)>,
    pub idir: Pos,
    pub jdir: Pos,
}

impl View for Layout {
    type V = Lattice;

    open spec fn view(&self) -> Lattice {
        Lattice { cell: cell_view(self.cell@), idir: self.idir, jdir: self.jdir }
    }
}

/// What a layout that may have failed stands for.
pub open spec fn plan_view(layout: Result<Layout, TilingError>) -> Result<Lattice, TilingError> {
    match layout {
        Ok(l) => Ok(l@),
        Err(e) => Err(e),
    }
}

/// `r` is what tiling the frame after `plan` gives: the error of the plan
/// if it has one, an error if the directions of the lattice are parallel,
/// and else the cell drawn once at each lattice point of the frame.
pub open spec fn tiling_matches(
    r: Result<Vec<(Pos, Path)>, TilingError>,
    f: Frame,
    plan: Result<Lattice, TilingError>,
) -> bool {
    match plan {
        Err(e) => r == Err::<Vec<(Pos, Path)>, TilingError>(e),
        Ok(lattice) => if lattice.idir.spec_cross(lattice.jdir) == 0 {
            r == Err::<Vec<(Pos, Path)>, TilingError>(TilingError::DegenerateBasis)
        } else {
            r is Ok && is_grid_tiling(r->Ok_0@, f, lattice.cell, lattice.idir, lattice.jdir)
        },
    }
}

/// Tiles the frame after a layout, or hands on the error in its place.
pub fn tile_layout(f: &Frame, layout: Result<Layout, TilingError>) -> (r: Result<
    Vec<(Pos, Path)>,
    TilingError,
>)
    requires
        layout matches Ok(l) ==> cell_wf(l.cell@),
    ensures
        tiling_matches(r, *f, plan_view(layout)),
{
    match layout {
        Err(e) => Err(e),
        Ok(l) => periodic_grid_tiling(f, &l.cell, l.idir, l.jdir),
    }
}

/// Twice a length.
pub open spec fn twice(a: int) -> int {
    clip(2 * a)
}

/// Distance between neighbouring hexagons of side `size`.
pub open spec fn hexagon_pitch(size: int) -> int {
    times_cosine(twice(size), 30)
}

/// Hexagons of side `size`, the first corner of each at `rot` degrees.
pub open spec fn hexagons_plan(size: int, rot: int) -> Result<Lattice, TilingError> {
    if size <= 0 {
        Err(TilingError::BadSize)
    } else {
        Ok(
            Lattice {
                cell: seq![(polygon(6, rot, 60, size), Pos(0, 0))],
                idir: Pos::spec_polar(rot - 30, hexagon_pitch(size)),
                jdir: Pos::spec_polar(rot + 30, hexagon_pitch(size)),
            },
        )
    }
}

/// Triangles whose corners lie `size` away from their centres, pointing two ways in turn.
pub open spec fn triangles_plan(size: int, rot: int) -> Result<Lattice, TilingError> {
    if size <= 0 {
        Err(TilingError::BadSize)
    } else {
        let idir = Pos::spec_polar(rot - 30, hexagon_pitch(size));
        let adjust = Pos::spec_polar(rot + 60, times_sine(size, 30)).spec_plus(idir.spec_over(2));
        Ok(
            Lattice {
                cell: seq![
                    (polygon(3, rot + 60, 120, size), Pos(0, 0)),
                    (polygon(3, rot, 120, size), adjust),
                ],
                idir,
                jdir: Pos::spec_polar(rot + 30, hexagon_pitch(size)),
            },
        )
    }
}

/// Hexagons of side `size` with a small triangle in each of the gaps between them.
pub open spec fn hexagons_triangles_plan(size: int, rot: int) -> Result<Lattice, TilingError> {
    if size <= 0 {
        Err(TilingError::BadSize)
    } else {
        let adjust = Pos::spec_polar(rot + 30, over_cosine(size, 30));
        Ok(
            Lattice {
                cell: seq![
                    (polygon(6, rot, 60, size), Pos(0, 0)),
                    (polygon(3, rot + 30, 120, times_sine(size, 30)), adjust),
                    (polygon(3, rot + 90, 120, times_sine(size, 30)), Pos(0, 0).spec_minus(adjust)),
                ],
                idir: Pos::spec_polar(rot, twice(size)),
                jdir: Pos::spec_polar(rot + 60, twice(size)),
            },
        )
    }
}

/// Half the side of the squares in the tiling of squares and triangles.
pub open spec fn square_half(size: int) -> int {
    times_cosine(size, 45)
}

/// Height of the gap between a square and the centre of the triangle beside it.
pub open spec fn square_gap(size: int) -> int {
    times_tangent(square_half(size), 30)
}

/// Distance from the centre of a triangle beside a square to its corners.
pub open spec fn square_arm(size: int) -> int {
    over_cosine(square_half(size), 30)
}

/// Distance from a lattice point to the far triangles of its cell.
pub open spec fn square_far(size: int) -> int {
    clip(clip(square_arm(size) + twice(square_half(size))) + twice(square_gap(size)))
}

/// Distance from a lattice point to the squares of its cell.
pub open spec fn square_mid(size: int) -> int {
    clip(clip(square_arm(size) + square_gap(size)) + square_half(size))
}

/// Distance from a lattice point to the outer triangles of its cell.
pub open spec fn square_near(size: int) -> int {
    clip(twice(square_half(size)) + square_arm(size))
}

/// The three copies that the cell of squares and triangles holds in its
/// sixth `i`: an inner triangle, a square and an outer triangle.
pub open spec fn square_ring(size: int, rot: int, i: int) -> Seq<(Seq<Pos>, Pos)> {
    seq![
        (
            polygon(3, rot + (if i % 2 == 0 { 60int } else { 0int }), 120, square_arm(size)),
            Pos::spec_polar(rot + 60 * i, square_arm(size)),
        ),
        (
            polygon(
                4,
                rot + (if i % 3 == 0 { 0int } else if i % 3 == 1 { 60int } else { -60int }) + 45,
                90,
                size,
            ),
            Pos::spec_polar(rot + 60 * i, square_mid(size)),
        ),
        (
            polygon(3, rot + (if i % 2 == 0 { 90int } else { 30int }), 120, square_arm(size)),
            Pos::spec_polar(rot + 60 * i + 30, square_near(size)),
        ),
    ]
}

/// The first `n` sixths of the cell of squares and triangles, after its two far triangles.
pub open spec fn square_cell(size: int, rot: int, n: int) -> Seq<(Seq<Pos>, Pos)>
    decreases n,
{
    if n <= 0 {
        seq![
            (polygon(3, rot, 120, square_arm(size)), Pos::spec_polar(rot, square_far(size))),
            (
                polygon(3, rot + 60, 120, square_arm(size)),
                Pos(0, 0).spec_minus(Pos::spec_polar(rot, square_far(size))),
            ),
        ]
    } else {
        square_cell(size, rot, n - 1) + square_ring(size, rot, n - 1)
    }
}

/// Squares of diagonal `2 * size` in three directions, with triangles between them.
pub open spec fn squares_triangles_plan(size: int, rot: int) -> Result<Lattice, TilingError> {
    if size <= 0 {
        Err(TilingError::BadSize)
    } else {
        let along = Pos::spec_polar(rot, square_far(size));
        Ok(
            Lattice {
                cell: square_cell(size, rot, 6),
                idir: along.spec_plus(Pos::spec_polar(rot + 60, square_far(size))),
                jdir: along.spec_plus(Pos::spec_polar(rot - 60, square_far(size))),
            },
        )
    }
}

/// Rhombi whose diagonals reach `ldiag` along `rot` degrees and `sdiag` across.
pub open spec fn rhombus_plan(ldiag: int, sdiag: int, rot: int) -> Result<Lattice, TilingError> {
    if ldiag <= 0 || sdiag <= 0 {
        Err(TilingError::BadSize)
    } else {
        let across = Pos::spec_polar(rot + 90, sdiag);
        Ok(
            Lattice {
                cell: seq![(rhombus_corners(ldiag, sdiag, rot), Pos(0, 0))],
                idir: Pos::spec_polar(rot, ldiag).spec_plus(across),
                jdir: Pos::spec_polar(rot, -ldiag).spec_plus(across),
            },
        )
    }
}

fn double(a: i32) -> (r: i32)
    ensures
        r == twice(a as int),
{
    sum_len(a, a)
}

fn place(shape: Movable, offset: Pos) -> (p: Placement)
    ensures
        p.shape == shape,
        p.offset == offset,
{
    Placement { shape, offset }
}

fn hexagons_layout(size: i32, rot: i32) -> (r: Result<Layout, TilingError>)
    requires
        0 <= rot < 360,
    ensures
        plan_view(r) == hexagons_plan(size as int, rot as int),
        r matches Ok(l) ==> cell_wf(l.cell@),
{
    if size <= 0 {
        return Err(TilingError::BadSize);
    }
    let pitch: i32 = mul_cos(double(size), 30);
    let mut cell: Vec<Placement> = Vec::new();
    cell.push(place(Movable::hexagon(size, rot), Pos::zero()));
    let layout = Layout { cell, idir: Pos::polar(rot - 30, pitch), jdir: Pos::polar(rot + 30, pitch) };
    assert(layout@.cell =~= hexagons_plan(size as int, rot as int)->Ok_0.cell);
    Ok(layout)
}

fn triangles_layout(size: i32, rot: i32) -> (r: Result<Layout, TilingError>)
    requires
        0 <= rot < 360,
    ensures
        plan_view(r) == triangles_plan(size as int, rot as int),
        r matches Ok(l) ==> cell_wf(l.cell@),
{
    if size <= 0 {
        return Err(TilingError::BadSize);
    }
    let pitch: i32 = mul_cos(double(size), 30);
    let idir: Pos = Pos::polar(rot - 30, pitch);
    let jdir: Pos = Pos::polar(rot + 30, pitch);
    let adjust: Pos = Pos::polar(rot + 60, mul_sin(size, 30)).plus(idir.over(2));
    let mut cell: Vec<Placement> = Vec::new();
    cell.push(place(Movable::triangle(size, rot + 60), Pos::zero()));
    cell.push(place(Movable::triangle(size, rot), adjust));
    let layout = Layout { cell, idir, jdir };
    assert(layout@.cell =~= triangles_plan(size as int, rot as int)->Ok_0.cell);
    Ok(layout)
}

fn hexagons_triangles_layout(size: i32, rot: i32) -> (r: Result<Layout, TilingError>)
    requires
        0 <= rot < 360,
    ensures
        plan_view(r) == hexagons_triangles_plan(size as int, rot as int),
        r matches Ok(l) ==> cell_wf(l.cell@),
{
    if size <= 0 {
        return Err(TilingError::BadSize);
    }
    let idir: Pos = Pos::polar(rot, double(size));
    let jdir: Pos = Pos::polar(rot + 60, double(size));
    let adjust: Pos = Pos::polar(rot + 30, div_cos(size, 30));
    let small: i32 = mul_sin(size, 30);
    let mut cell: Vec<Placement> = Vec::new();
    cell.push(place(Movable::hexagon(size, rot), Pos::zero()));
    cell.push(place(Movable::triangle(small, rot + 30), adjust));
    cell.push(place(Movable::triangle(small, rot + 90), adjust.neg()));
    let layout = Layout { cell, idir, jdir };
    assert(layout@.cell =~= hexagons_triangles_plan(size as int, rot as int)->Ok_0.cell);
    Ok(layout)
}

fn squares_triangles_layout(size: i32, rot: i32) -> (r: Result<Layout, TilingError>)
    requires
        0 <= rot < 360,
    ensures
        plan_view(r) == squares_triangles_plan(size as int, rot as int),
        r matches Ok(l) ==> cell_wf(l.cell@),
{
    if size <= 0 {
        return Err(TilingError::BadSize);
    }
    let a: i32 = mul_cos(size, 45);
    let b: i32 = mul_tan(a, 30);
    let c: i32 = div_cos(a, 30);
    let far: i32 = sum_len(sum_len(c, double(a)), double(b));
    let mid: i32 = sum_len(sum_len(c, b), a);
    let near: i32 = sum_len(double(a), c);
    let along: Pos = Pos::polar(rot, far);
    let idir: Pos = along.plus(Pos::polar(rot + 60, far));
    let jdir: Pos = along.plus(Pos::polar(rot - 60, far));
    let mut cell: Vec<Placement> = Vec::new();
    cell.push(place(Movable::triangle(c, rot), along));
    cell.push(place(Movable::triangle(c, rot + 60), along.neg()));
    assert(cell_view(cell@) =~= square_cell(size as int, rot as int, 0));
    let mut i: i32 = 0;
    while i < 6
        invariant
            0 <= i <= 6,
            0 <= rot < 360,
            a == square_half(size as int),
            b == square_gap(size as int),
            c == square_arm(size as int),
            mid == square_mid(size as int),
            near == square_near(size as int),
            cell_wf(cell@),
            cell_view(cell@) == square_cell(size as int, rot as int, i as int),
        decreases 6 - i,
    {
        let ghost before = cell_view(cell@);
        let inner: Movable = if i % 2 == 0 {
            Movable::triangle(c, rot + 60)
        } else {
            Movable::triangle(c, rot)
        };
        let square: Movable = if i % 3 == 0 {
            Movable::square(size, rot)
        } else if i % 3 == 1 {
            Movable::square(size, rot + 60)
        } else {
            Movable::square(size, rot - 60)
        };
        let outer: Movable = if i % 2 == 0 {
            Movable::triangle(c, rot + 90)
        } else {
            Movable::triangle(c, rot + 30)
        };
        cell.push(place(inner, Pos::polar(rot + 60 * i, c)));
        cell.push(place(square, Pos::polar(rot + 60 * i, mid)));
        cell.push(place(outer, Pos::polar(rot + 60 * i + 30, near)));
        assert(cell_view(cell@) =~= before + square_ring(size as int, rot as int, i as int));
        i = i + 1;
    }
    Ok(Layout { cell, idir, jdir })
}

fn rhombus_layout(ldiag: i32, sdiag: i32, rot: i32) -> (r: Result<Layout, TilingError>)
    requires
        0 <= rot < 360,
    ensures
        plan_view(r) == rhombus_plan(ldiag as int, sdiag as int, rot as int),
        r matches Ok(l) ==> cell_wf(l.cell@),
{
    if ldiag <= 0 || sdiag <= 0 {
        return Err(TilingError::BadSize);
    }
    let across: Pos = Pos::polar(rot + 90, sdiag);
    let idir: Pos = Pos::polar(rot, ldiag).plus(across);
    let jdir: Pos = Pos::polar(rot, -ldiag).plus(across);
    let mut cell: Vec<Placement> = Vec::new();
    cell.push(place(Movable::rhombus(ldiag, sdiag, rot), Pos::zero()));
    let layout = Layout { cell, idir, jdir };
    assert(layout@.cell =~= rhombus_plan(ldiag as int, sdiag as int, rot as int)->Ok_0.cell);
    Ok(layout)
}

/// Tiles the frame with hexagons of side `size`, turned by `rot` degrees.
pub fn tile_hexagons(f: &Frame, size: i32, rot: i32) -> (r: Result<Vec<(Pos, Path)>, TilingError>)
    ensures
        tiling_matches(r, *f, hexagons_plan(size as int, turn(rot as int))),
{
    tile_layout(f, hexagons_layout(size, normalize(rot)))
}

/// Tiles the frame with triangles, turned by `rot` degrees.
pub fn tile_triangles(f: &Frame, size: i32, rot: i32) -> (r: Result<Vec<(Pos, Path)>, TilingError>)
    ensures
        tiling_matches(r, *f, triangles_plan(size as int, turn(rot as int))),
{
    tile_layout(f, triangles_layout(size, normalize(rot)))
}

/// Tiles the frame with hexagons and the triangles that fill the gaps between them.
pub fn tile_hybrid_hexagons_triangles(f: &Frame, size: i32, rot: i32) -> (r: Result<
    Vec<(Pos, Path)>,
    TilingError,
>)
    ensures
        tiling_matches(r, *f, hexagons_triangles_plan(size as int, turn(rot as int))),
{
    tile_layout(f, hexagons_triangles_layout(size, normalize(rot)))
}

/// Tiles the frame with squares in three directions and the triangles between them.
pub fn tile_hybrid_squares_triangles(f: &Frame, size: i32, rot: i32) -> (r: Result<
    Vec<(Pos, Path)>,
    TilingError,
>)
    ensures
        tiling_matches(r, *f, squares_triangles_plan(size as int, turn(rot as int))),
{
    tile_layout(f, squares_triangles_layout(size, normalize(rot)))
}

/// Tiles the frame with rhombi.
pub fn tile_rhombus(f: &Frame, ldiag: i32, sdiag: i32, rot: i32) -> (r: Result<
    Vec<(Pos, Path)>,
    TilingError,
>)
    ensures
        tiling_matches(r, *f, rhombus_plan(ldiag as int, sdiag as int, turn(rot as int))),
{
    tile_layout(f, rhombus_layout(ldiag, sdiag, normalize(rot)))
}

} // verus!
