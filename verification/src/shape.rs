//! Motifs: outlines that can be drawn around any anchor.

use vstd::prelude::*;
use crate::pos::Pos;
use crate::svg::{Data, Path};

verus! {

/// The corners of a motif, each as an offset from the anchor. There is at
/// least one.
pub struct Movable(Vec<Pos>);

/// The corners of a regular polygon around the origin: `n` of them, the
/// first at `start` degrees, each `step` degrees after the one before, all
/// `size` away from the origin.
pub open spec fn polygon(n: int, start: int, step: int, size: int) -> Seq<Pos> {
    Seq::new(n as nat, |i: int| Pos::spec_polar(start + step * i, size))
}

/// The outline `shape` moved to `reference`.
pub open spec fn moved(shape: Seq<Pos>, reference: Pos) -> Seq<Pos> {
    Seq::new(shape.len(), |i: int| reference.spec_plus(shape[i]))
}

/// The vector from corner `i` of an outline to the next one around it.
pub open spec fn side_of(shape: Seq<Pos>, i: int) -> Pos {
    if i + 1 == shape.len() {
        shape[0].spec_minus(shape[i])
    } else {
        shape[i + 1].spec_minus(shape[i])
    }
}

/// The corners of a rhombus around the origin, whose diagonals reach `ldiag`
/// along `rot` degrees and `sdiag` across.
pub open spec fn rhombus_corners(ldiag: int, sdiag: int, rot: int) -> Seq<Pos> {
    seq![
        Pos::spec_polar(rot, ldiag),
        Pos::spec_polar(rot + 90, sdiag),
        Pos::spec_polar(rot + 180, ldiag),
        Pos::spec_polar(rot + 270, sdiag),
    ]
}

impl View for Movable {
    type V = Seq<Pos>;

    closed spec fn view(&self) -> Seq<Pos> {
        self.0@
    }
}

impl Movable {
    /// A motif has at least one corner.
    pub closed spec fn wf(&self) -> bool {
        self.0@.len() > 0
    }

    /// The motif with the given corners, if there are any.
    pub fn from(pts: Vec<Pos>) -> (r: Option<Movable>)
        ensures
            r is Some <==> pts@.len() > 0,
            r matches Some(m) ==> m.wf() && m@ == pts@,
    {
        if pts.len() > 0 {
            Some(Movable(pts))
        } else {
            None
        }
    }

    /// Number of corners.
    pub fn len(&self) -> (n: usize)
        ensures
            n == self@.len(),
    {
        self.0.len()
    }

    /// Corner `i`, as an offset from the anchor.
    pub fn vertex(&self, i: usize) -> (p: Pos)
        requires
            i < self@.len(),
        ensures
            p == self@[i as int],
    {
        self.0[i]
    }

    /// The vector from corner `i` to the next one around the outline.
    pub fn side(&self, i: usize) -> (p: Pos)
        requires
            i < self@.len(),
        ensures
            p == side_of(self@, i as int),
    {
        let next: usize = if i == self.0.len() - 1 {
            0
        } else {
            i + 1
        };
        self.0[next].minus(self.0[i])
    }

    /// The anchor and the outline of the motif placed at `reference`.
    pub fn render(&self, reference: Pos) -> (r: (Pos, Path))
        requires
            self.wf(),
        ensures
            r.0 == reference,
            r.1.data@ == moved(self@, reference),
            r.1.is_plain(),
    {
        let mut data = Data::new(reference.plus(self.0[0]));
        let mut i: usize = 1;
        while i < self.0.len()
            invariant
                1 <= i <= self.0.len(),
                data@.len() == i,
                forall|k: int| 0 <= k < i ==> data@[k] == reference.spec_plus(self.0@[k]),
            decreases self.0.len() - i,
        {
            data.line_to(reference.plus(self.0[i]));
            i = i + 1;
        }
        assert(data@ =~= moved(self@, reference));
        (reference, Path::new(data))
    }

    /// A copy of the motif.
    pub fn duplicate(&self) -> (r: Movable)
        ensures
            r@ == self@,
            r.wf() == self.wf(),
    {
        let mut pts: Vec<Pos> = Vec::new();
        let mut i: usize = 0;
        while i < self.0.len()
            invariant
                0 <= i <= self.0.len(),
                pts@ == self.0@.take(i as int),
            decreases self.0.len() - i,
        {
            pts.push(self.0[i]);
            assert(self.0@.take(i as int + 1) =~= self.0@.take(i as int).push(self.0@[i as int]));
            i = i + 1;
        }
        assert(self.0@.take(self.0.len() as int) =~= self.0@);
        Movable(pts)
    }

    /// A regular polygon of `n` corners, the first at `start` degrees.
    fn regular(n: u8, start: i32, step: i32, size: i32) -> (r: Movable)
        requires
            1 <= n <= 6,
            0 <= step <= 360,
        ensures
            r.wf(),
            r@ == polygon(n as int, start as int, step as int, size as int),
    {
        let mut pts: Vec<Pos> = Vec::new();
        let mut i: u8 = 0;
        while i < n
            invariant
                0 <= i <= n <= 6,
                0 <= step <= 360,
                pts@.len() == i,
                forall|k: int| 0 <= k < i ==> pts@[k] == Pos::spec_polar(start + step * k, size as int),
            decreases n - i,
        {
            assert(0 <= step * i <= 360 * 6) by (nonlinear_arith)
                requires
                    0 <= step <= 360,
                    0 <= i <= 6,
            ;
            pts.push(Pos::polar_sum(start, step * i as i32, size));
            i = i + 1;
        }
        assert(pts@ =~= polygon(n as int, start as int, step as int, size as int));
        Movable(pts)
    }

    /// A regular hexagon with its first corner at `rot` degrees.
    pub fn hexagon(size: i32, rot: i32) -> (r: Movable)
        ensures
            r.wf(),
            r@ == polygon(6, rot as int, 60, size as int),
    {
        Movable::regular(6, rot, 60, size)
    }

    /// A regular triangle with its first corner at `rot` degrees.
    pub fn triangle(size: i32, rot: i32) -> (r: Movable)
        ensures
            r.wf(),
            r@ == polygon(3, rot as int, 120, size as int),
    {
        Movable::regular(3, rot, 120, size)
    }

    /// A square with its sides along `rot` degrees and across.
    pub fn square(size: i32, rot: i32) -> (r: Movable)
        ensures
            r.wf(),
            r@ == polygon(4, rot + 45, 90, size as int),
    {
        let mut pts: Vec<Pos> = Vec::new();
        pts.push(Pos::polar_sum(rot, 45, size));
        pts.push(Pos::polar_sum(rot, 135, size));
        pts.push(Pos::polar_sum(rot, 225, size));
        pts.push(Pos::polar_sum(rot, 315, size));
        assert(pts@ =~= polygon(4, rot + 45, 90, size as int));
        Movable(pts)
    }

    /// A rhombus whose diagonals reach `ldiag` along `rot` degrees and `sdiag` across.
    pub fn rhombus(ldiag: i32, sdiag: i32, rot: i32) -> (r: Movable)
        ensures
            r.wf(),
            r@ == rhombus_corners(ldiag as int, sdiag as int, rot as int),
    {
        let mut pts: Vec<Pos> = Vec::new();
        pts.push(Pos::polar_sum(rot, 0, ldiag));
        pts.push(Pos::polar_sum(rot, 90, sdiag));
        pts.push(Pos::polar_sum(rot, 180, ldiag));
        pts.push(Pos::polar_sum(rot, 270, sdiag));
        assert(pts@ =~= rhombus_corners(ldiag as int, sdiag as int, rot as int));
        Movable(pts)
    }
}

} // verus!
