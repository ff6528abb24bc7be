//! The rectangle of the canvas that is to be filled.

use vstd::prelude::*;
use crate::fixed::{clip, clip_wide};
use crate::pos::Pos;

verus! {

/// An axis-aligned rectangle, in whole canvas units.
#[derive(Clone, Copy, Debug, PartialEq, Eq, Structural)]
pub struct Frame {
    pub x: usize,
    pub y: usize,
    pub w: usize,
    pub h: usize,
}

impl Frame {
    /// The midpoint of the frame.
    pub open spec fn spec_center(&self) -> Pos {
        Pos(
            clip((self.x + self.w / 2) * 100) as i32,
            clip((self.y + self.h / 2) * 100) as i32,
        )
    }

    /// Whether `pos` lies in the frame widened by a tenth of its width on the
    /// left and on the right, and by a tenth of its height above and below.
    pub open spec fn spec_is_inside(&self, pos: Pos) -> bool {
        &&& self.x * 100 - self.w * 10 < pos.0
        &&& pos.0 < (self.x + self.w) * 100 + self.w * 10
        &&& self.y * 100 - self.h * 10 < pos.1
        &&& pos.1 < (self.y + self.h) * 100 + self.h * 10
    }

    /// The corners of the frame: left, top, right, bottom.
    pub fn into_tuple(self) -> (r: (usize, usize, usize, usize))
        requires
            self.x + self.w <= usize::MAX,
            self.y + self.h <= usize::MAX,
        ensures
            r == (self.x, self.y, (self.x + self.w) as usize, (self.y + self.h) as usize),
    {
        (self.x, self.y, self.x + self.w, self.y + self.h)
    }

    /// The midpoint of the frame.
    #[verifier::when_used_as_spec(spec_center)]
    pub fn center(&self) -> (p: Pos)
        ensures
            p == self.spec_center(),
    {
        let cx: i128 = (self.x as i128 + (self.w / 2) as i128) * 100;
        let cy: i128 = (self.y as i128 + (self.h / 2) as i128) * 100;
        Pos(clip_wide(cx), clip_wide(cy))
    }

    /// Whether `pos` lies in the frame or not far outside of it.
    #[verifier::when_used_as_spec(spec_is_inside)]
    pub fn is_inside(&self, pos: Pos) -> (r: bool)
        ensures
            r == self.spec_is_inside(pos),
    {
        let xerr: i128 = self.w as i128 * 10;
        let yerr: i128 = self.h as i128 * 10;
        let left: i128 = self.x as i128 * 100 - xerr;
        let right: i128 = (self.x as i128 + self.w as i128) * 100 + xerr;
        let top: i128 = self.y as i128 * 100 - yerr;
        let bottom: i128 = (self.y as i128 + self.h as i128) * 100 + yerr;
        left < pos.0 as i128 && (pos.0 as i128) < right && top < pos.1 as i128 && (pos.1 as i128)
            < bottom
    }
}

} // verus!
