//! Procedural wallpaper synthesis: a frame is tiled with a repeating motif
//! and every tile is coloured by testing its anchor against a stack of shapes.

use vstd::prelude::*;
use vstd::string::StringSliceAdditionalSpecFns;

pub mod cfg;
pub mod chooser;
pub mod color;
pub mod delaunay;
pub mod deserializer;
pub mod fixed;
pub mod frame;
pub mod log;
pub mod optionfmt;
pub mod paint;
pub mod pentagon;
pub mod pos;
pub mod random;
pub mod replay;
pub mod salt;
pub mod scene;
pub mod shape;
pub mod svg;
pub mod tesselate;
pub mod text;
pub mod trig;

verus! {

/// A colour of a theme, with the deviation and the weight that replace
/// those of the scene where they are given, and its salt.
#[derive(Clone, Debug)]
pub struct ThemeItem(pub color::Color, pub Option<u32>, pub Option<u32>, pub salt::Salt);

impl View for ThemeItem {
    type V = (color::Color, Option<u32>, Option<u32>, Seq<salt::SaltItem>);

    open spec fn view(&self) -> Self::V {
        (self.0, self.1, self.2, self.3@)
    }
}

impl ThemeItem {
    /// A copy of the item.
    pub fn duplicate(&self) -> (r: ThemeItem)
        ensures
            r@ == self@,
    {
        ThemeItem(self.0, self.1, self.2, self.3.duplicate())
    }
}

/// What the program reports while it works.
#[derive(Clone, Copy, Debug, Default, PartialEq, Eq, Structural)]
pub struct Verbosity {
    pub info: bool,
    pub warn: bool,
    pub prog: bool,
    pub details: bool,
}

/// Whether one of the letters `a` and `b` occurs among the first `n` of `s`.
pub open spec fn asks_for(s: Seq<u8>, a: u8, b: u8, n: int) -> bool {
    exists|i: int| 0 <= i < n && i < s.len() && (s[i] == a || s[i] == b)
}

/// Index of the first letter of `s` that is none of `I`, `W`, `P`, `D` and
/// `A`, from `i` on; the length of `s` if there is none.
pub open spec fn first_unknown(s: Seq<u8>, i: int) -> int
    decreases s.len() - i,
{
    if i >= s.len() {
        s.len() as int
    } else if s[i] == 73 || s[i] == 87 || s[i] == 80 || s[i] == 68 || s[i] == 65 {
        first_unknown(s, i + 1)
    } else {
        i
    }
}

impl Verbosity {
    /// Reads the letters of a descriptor: `I` for information, `W` for
    /// warnings, `P` for progress, `D` for details, and `A` for all of them.
    /// Other letters switch nothing on.
    pub fn from(s: &str) -> (v: Verbosity)
        ensures
            v == Verbosity::from_letters(s.spec_bytes()),
    {
        Verbosity::parse(s.as_bytes()).0
    }

    /// What a descriptor switches on.
    pub open spec fn from_letters(s: Seq<u8>) -> Verbosity {
        Verbosity {
            info: asks_for(s, 73, 65, s.len() as int),
            warn: asks_for(s, 87, 65, s.len() as int),
            prog: asks_for(s, 80, 65, s.len() as int),
            details: asks_for(s, 68, 65, s.len() as int),
        }
    }

    /// Reads the letters of a descriptor, and says where the first letter
    /// stands that has no meaning.
    pub fn parse(s: &[u8]) -> (r: (Verbosity, Option<usize>))
        ensures
            r.0 == Verbosity::from_letters(s@),
            r.1 is None <==> first_unknown(s@, 0) == s@.len(),
            r.1 matches Some(i) ==> i == first_unknown(s@, 0),
    {
        let mut v = Verbosity { info: false, warn: false, prog: false, details: false };
        let mut unknown: Option<usize> = None;
        let mut i: usize = 0;
        while i < s.len()
            invariant
                0 <= i <= s@.len(),
                v.info == asks_for(s@, 73, 65, i as int),
                v.warn == asks_for(s@, 87, 65, i as int),
                v.prog == asks_for(s@, 80, 65, i as int),
                v.details == asks_for(s@, 68, 65, i as int),
                unknown is None ==> first_unknown(s@, 0) == first_unknown(s@, i as int),
                unknown matches Some(k) ==> k == first_unknown(s@, 0) && k < s@.len(),
            decreases s@.len() - i,
        {
            let c: u8 = s[i];
            if c == 65 {
                v.info = true;
                v.warn = true;
                v.prog = true;
                v.details = true;
            } else if c == 73 {
                v.info = true;
            } else if c == 87 {
                v.warn = true;
            } else if c == 80 {
                v.prog = true;
            } else if c == 68 {
                v.details = true;
            } else if unknown.is_none() {
                unknown = Some(i);
            }
            i = i + 1;
        }
        (v, unknown)
    }
}

} // verus!
