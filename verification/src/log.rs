//! A scene written down as words, to be read again later.
//!
//! Every word is followed by one space. A frame, a recipe for a colour, a
//! list of salt and a shape each end with the word `#`; a shape starts
//! with its name.

use vstd::prelude::*;
use vstd::string::StringExecFns;
use vstd::string::StringSliceAdditionalSpecFns;
use crate::color::Color;
use crate::frame::Frame;
use crate::pos::Pos;
use crate::salt::{Salt, SaltItem};
use crate::scene::{
    shapes_wf, ColorItem, Contains, Disc, HalfPlane, Sawtooth, Shape, Spiral, Stripe, Triangle,
    Wave,
};
use crate::text::{
    copy_range, find_word_end, number_of, parse_number, push_signed, same, with_signed, word_end,
};

verus! {

/// What is kept of a scene: its frame, its background and its shapes.
pub struct Logger {
    pub frame: Frame,
    pub bg: ColorItem,
    pub objects: Vec<Shape>,
}

/// `acc` followed by a whole number and a space.
#[verifier::opaque]
pub open spec fn with_int(acc: Seq<char>, v: int) -> Seq<char> {
    with_signed(acc, v) + " "@
}

/// `acc` followed by the two coordinates of a point.
#[verifier::opaque]
pub open spec fn with_pos(acc: Seq<char>, p: Pos) -> Seq<char> {
    with_int(with_int(acc, p.0 as int), p.1 as int)
}

/// `acc` followed by the three channels of a colour.
#[verifier::opaque]
pub open spec fn with_color(acc: Seq<char>, c: Color) -> Seq<char> {
    with_int(with_int(with_int(acc, c.0 as int), c.1 as int), c.2 as int)
}

/// `acc` followed by a salt item: its colour, its likeliness and its variability.
#[verifier::opaque]
pub open spec fn with_salt_item(acc: Seq<char>, s: SaltItem) -> Seq<char> {
    with_int(with_int(with_color(acc, s.color), s.likeliness as int), s.variability as int)
}

/// `acc` followed by the first `n` items of a list of salt.
pub open spec fn with_salt_items(acc: Seq<char>, items: Seq<SaltItem>, n: int) -> Seq<char>
    decreases n,
{
    if n <= 0 {
        acc
    } else {
        with_salt_item(with_salt_items(acc, items, n - 1), items[n - 1])
    }
}

/// `acc` followed by a recipe: shade, theme, salt, deviation and weight.
#[verifier::opaque]
pub open spec fn with_color_item(acc: Seq<char>, c: ColorItem) -> Seq<char> {
    with_int(
        with_int(
            with_salt_items(
                with_color(with_color(acc, c.shade), c.theme),
                c.salt@,
                c.salt@.len() as int,
            ) + "# "@,
            c.deviation as int,
        ),
        c.weight as int,
    ) + "# "@
}

/// `acc` followed by a frame.
#[verifier::opaque]
pub open spec fn with_frame(acc: Seq<char>, f: Frame) -> Seq<char> {
    with_int(with_int(with_int(with_int(acc, f.x as int), f.y as int), f.w as int), f.h as int)
        + "# "@
}

fn write_int(out: &mut String, v: i128)
    requires
        v > i128::MIN,
    ensures
        final(out)@ == with_int(old(out)@, v as int),
{
    reveal(with_int);
    push_signed(out, v);
    out.append(" ");
}

fn write_pos(out: &mut String, p: Pos)
    ensures
        final(out)@ == with_pos(old(out)@, p),
{
    reveal(with_pos);
    write_int(out, p.0 as i128);
    write_int(out, p.1 as i128);
}

fn write_color(out: &mut String, c: Color)
    ensures
        final(out)@ == with_color(old(out)@, c),
{
    reveal(with_color);
    write_int(out, c.0 as i128);
    write_int(out, c.1 as i128);
    write_int(out, c.2 as i128);
}

fn write_color_item(out: &mut String, c: &ColorItem)
    ensures
        final(out)@ == with_color_item(old(out)@, *c),
{
    reveal(with_color_item);
    reveal(with_salt_item);
    write_color(out, c.shade);
    write_color(out, c.theme);
    let ghost start = out@;
    let mut i: usize = 0;
    while i < c.salt.0.len()
        invariant
            0 <= i <= c.salt@.len(),
            out@ == with_salt_items(start, c.salt@, i as int),
        decreases c.salt@.len() - i,
    {
        let s: SaltItem = c.salt.0[i];
        proof {
            reveal(with_salt_item);
        }
        write_color(out, s.color);
        write_int(out, s.likeliness as i128);
        write_int(out, s.variability as i128);
        i = i + 1;
    }
    out.append("# ");
    write_int(out, c.deviation as i128);
    write_int(out, c.weight as i128);
    out.append("# ");
}

fn write_frame(out: &mut String, f: &Frame)
    ensures
        final(out)@ == with_frame(old(out)@, *f),
{
    reveal(with_frame);
    write_int(out, f.x as i128);
    write_int(out, f.y as i128);
    write_int(out, f.w as i128);
    write_int(out, f.h as i128);
    out.append("# ");
}

/// `acc` followed by a shape: its name, its measures, its recipe and `#`.
#[verifier::opaque]
pub open spec fn with_shape(acc: Seq<char>, shape: Shape) -> Seq<char> {
    match shape {
        Shape::Disc(s) => with_color_item(
            with_int(with_pos(acc + "Disc "@, s.center), s.radius as int),
            s.color,
        ) + "# "@,
        Shape::HalfPlane(s) => with_color_item(
            with_pos(with_pos(acc + "HalfPlane "@, s.limit), s.reference),
            s.color,
        ) + "# "@,
        Shape::Triangle(s) => with_color_item(
            with_pos(with_pos(with_pos(acc + "Triangle "@, s.a), s.b), s.c),
            s.color,
        ) + "# "@,
        Shape::Spiral(s) => with_color_item(
            with_int(with_int(with_pos(acc + "Spiral "@, s.center), s.width as int), s.tightness as int),
            s.color,
        ) + "# "@,
        Shape::Stripe(s) => with_color_item(
            with_pos(with_pos(acc + "Stripe "@, s.limit), s.reference),
            s.color,
        ) + "# "@,
        Shape::Wave(s) => with_color_item(
            with_int(with_int(with_pos(with_pos(acc + "Wave "@, s.limit), s.reference), s.amplitude as int), s.frequency as int),
            s.color,
        ) + "# "@,
        Shape::Sawtooth(s) => with_color_item(
            with_int(with_int(with_pos(with_pos(acc + "Sawtooth "@, s.limit), s.reference), s.amplitude as int), s.frequency as int),
            s.color,
        ) + "# "@,
    }
}

/// `acc` followed by the first `n` shapes.
pub open spec fn with_shapes(acc: Seq<char>, shapes: Seq<Shape>, n: int) -> Seq<char>
    decreases n,
{
    if n <= 0 {
        acc
    } else {
        with_shape(with_shapes(acc, shapes, n - 1), shapes[n - 1])
    }
}

fn write_shape(out: &mut String, shape: &Shape)
    ensures
        final(out)@ == with_shape(old(out)@, *shape),
{
    reveal(with_shape);
    match shape {
        Shape::Disc(s) => {
            out.append("Disc ");
            write_pos(out, s.center);
            write_int(out, s.radius as i128);
            write_color_item(out, &s.color);
            out.append("# ");
        },
        Shape::HalfPlane(s) => {
            out.append("HalfPlane ");
            write_pos(out, s.limit);
            write_pos(out, s.reference);
            write_color_item(out, &s.color);
            out.append("# ");
        },
        Shape::Triangle(s) => {
            out.append("Triangle ");
            write_pos(out, s.a);
            write_pos(out, s.b);
            write_pos(out, s.c);
            write_color_item(out, &s.color);
            out.append("# ");
        },
        Shape::Spiral(s) => {
            out.append("Spiral ");
            write_pos(out, s.center);
            write_int(out, s.width as i128);
            write_int(out, s.tightness as i128);
            write_color_item(out, &s.color);
            out.append("# ");
        },
        Shape::Stripe(s) => {
            out.append("Stripe ");
            write_pos(out, s.limit);
            write_pos(out, s.reference);
            write_color_item(out, &s.color);
            out.append("# ");
        },
        Shape::Wave(s) => {
            out.append("Wave ");
            write_pos(out, s.limit);
            write_pos(out, s.reference);
            write_int(out, s.amplitude as i128);
            write_int(out, s.frequency as i128);
            write_color_item(out, &s.color);
            out.append("# ");
        },
        Shape::Sawtooth(s) => {
            out.append("Sawtooth ");
            write_pos(out, s.limit);
            write_pos(out, s.reference);
            write_int(out, s.amplitude as i128);
            write_int(out, s.frequency as i128);
            write_color_item(out, &s.color);
            out.append("# ");
        },
    }
}

impl Logger {
    /// The scene written down: frame, background, number of shapes, shapes.
    pub open spec fn text(&self) -> Seq<char> {
        with_shapes(
            with_int(
                with_color_item(with_frame(Seq::empty(), self.frame), self.bg),
                self.objects@.len() as int,
            ),
            self.objects@,
            self.objects@.len() as int,
        )
    }

    /// Writes the scene down.
    pub fn to_text(&self) -> (r: String)
        ensures
            r@ == self.text(),
    {
        let mut out: String = String::new();
        write_frame(&mut out, &self.frame);
        write_color_item(&mut out, &self.bg);
        write_int(&mut out, self.objects.len() as i128);
        let ghost start = out@;
        let mut i: usize = 0;
        while i < self.objects.len()
            invariant
                0 <= i <= self.objects@.len(),
                out@ == with_shapes(start, self.objects@, i as int),
            decreases self.objects@.len() - i,
        {
            write_shape(&mut out, &self.objects[i]);
            i = i + 1;
        }
        out
    }
}

/// A text and the place up to which it has been read.
pub struct Reader<'a> {
    pub text: &'a [u8],
    pub at: usize,
}

/// The whole number that a word spells, with or without a minus sign, if
/// it lies between `-max` and `max`.
pub open spec fn int_of(w: Seq<u8>, max: nat) -> Option<int> {
    if w.len() > 0 && w[0] == 45 {
        match number_of(w.subrange(1, w.len() as int), max) {
            Some(v) => Some(-(v as int)),
            None => None,
        }
    } else {
        match number_of(w, max) {
            Some(v) => Some(v as int),
            None => None,
        }
    }
}

/// Reads a whole number between `-max` and `max`.
pub fn parse_int(w: &[u8], max: u64) -> (r: Option<i128>)
    ensures
        match r {
            Some(v) => int_of(w@, max as nat) == Some(v as int),
            None => int_of(w@, max as nat) is None,
        },
{
    if w.len() > 0 && w[0] == 45 {
        let rest: Vec<u8> = copy_range(w, 1, w.len());
        match parse_number(rest.as_slice(), max) {
            Some(v) => Some(-(v as i128)),
            None => None,
        }
    } else {
        match parse_number(w, max) {
            Some(v) => Some(v as i128),
            None => None,
        }
    }
}

/// What a recipe for a colour holds.
pub struct Recipe {
    pub shade: Color,
    pub deviation: u32,
    pub theme: Color,
    pub weight: u32,
    pub salt: Seq<SaltItem>,
}

/// What a recipe holds.
pub open spec fn recipe_view(c: ColorItem) -> Recipe {
    Recipe { shade: c.shade, deviation: c.deviation, theme: c.theme, weight: c.weight, salt: c.salt@ }
}

/// What a shape holds.
pub enum ShapeView {
    Disc { center: Pos, radius: i32, color: Recipe },
    HalfPlane { limit: Pos, reference: Pos, color: Recipe },
    Triangle { a: Pos, b: Pos, c: Pos, color: Recipe },
    Spiral { center: Pos, width: i32, tightness: i32, color: Recipe },
    Stripe { limit: Pos, reference: Pos, color: Recipe },
    Wave { limit: Pos, reference: Pos, amplitude: i32, frequency: i32, color: Recipe },
    Sawtooth { limit: Pos, reference: Pos, amplitude: i32, frequency: i32, color: Recipe },
}

/// What a shape holds.
pub open spec fn shape_view(shape: Shape) -> ShapeView {
    match shape {
        Shape::Disc(s) => ShapeView::Disc { center: s.center, radius: s.radius, color: recipe_view(s.color) },
        Shape::HalfPlane(s) => ShapeView::HalfPlane { limit: s.limit, reference: s.reference, color: recipe_view(s.color) },
        Shape::Triangle(s) => ShapeView::Triangle { a: s.a, b: s.b, c: s.c, color: recipe_view(s.color) },
        Shape::Spiral(s) => ShapeView::Spiral { center: s.center, width: s.width, tightness: s.tightness, color: recipe_view(s.color) },
        Shape::Stripe(s) => ShapeView::Stripe { limit: s.limit, reference: s.reference, color: recipe_view(s.color) },
        Shape::Wave(s) => ShapeView::Wave { limit: s.limit, reference: s.reference, amplitude: s.amplitude, frequency: s.frequency, color: recipe_view(s.color) },
        Shape::Sawtooth(s) => ShapeView::Sawtooth { limit: s.limit, reference: s.reference, amplitude: s.amplitude, frequency: s.frequency, color: recipe_view(s.color) },
    }
}

/// What the shapes of a list hold.
pub open spec fn shapes_view(shapes: Seq<Shape>) -> Seq<ShapeView> {
    Seq::new(shapes.len(), |i: int| shape_view(shapes[i]))
}

/// Where the word after the one at `at` starts.
pub open spec fn after(s: Seq<u8>, at: int) -> int {
    if word_end(s, at, 32) < s.len() {
        word_end(s, at, 32) + 1
    } else {
        word_end(s, at, 32)
    }
}

/// The word at `at`: the text up to the next space. Nothing at the end of the text.
pub open spec fn word_at(s: Seq<u8>, at: int) -> Option<Seq<u8>> {
    if 0 <= at < s.len() {
        Some(s.subrange(at, word_end(s, at, 32)))
    } else {
        None
    }
}

/// The word at `at` as a whole number between `-max` and `max`, and where the next word starts.
pub open spec fn whole_at(s: Seq<u8>, at: int, max: nat) -> Option<(int, int)> {
    match word_at(s, at) {
        Some(w) => match int_of(w, max) {
            Some(v) => Some((v, after(s, at))),
            None => None,
        },
        None => None,
    }
}

/// Where the next word starts if the word at `at` is `#`.
pub open spec fn hash_at(s: Seq<u8>, at: int) -> Option<int> {
    if word_at(s, at) == Some(seq![35u8]) {
        Some(after(s, at))
    } else {
        None
    }
}

/// The word at `at` as a coordinate or a channel.
pub open spec fn coordinate_at(s: Seq<u8>, at: int) -> Option<(i32, int)> {
    match whole_at(s, at, 0x8000_0000) {
        Some((v, next)) => if v <= 0x7fff_ffff {
            Some((v as i32, next))
        } else {
            None
        },
        None => None,
    }
}

/// The word at `at` as a number that is not negative.
pub open spec fn count_at(s: Seq<u8>, at: int) -> Option<(u32, int)> {
    match whole_at(s, at, 0xffff_ffff) {
        Some((v, next)) => if v >= 0 {
            Some((v as u32, next))
        } else {
            None
        },
        None => None,
    }
}

/// The word at `at` as a size.
pub open spec fn size_at(s: Seq<u8>, at: int) -> Option<(usize, int)> {
    match whole_at(s, at, usize::MAX as nat) {
        Some((v, next)) => if v >= 0 {
            Some((v as usize, next))
        } else {
            None
        },
        None => None,
    }
}

/// The two words at `at` as a point.
#[verifier::opaque]
pub open spec fn pos_at(s: Seq<u8>, at: int) -> Option<(Pos, int)> {
    match coordinate_at(s, at) {
        None => None,
        Some((x, a0)) => 
        match coordinate_at(s, a0) {
            None => None,
            Some((y, a1)) => Some((Pos(x, y), a1)),
        },
    }
}

/// The three words at `at` as a colour.
#[verifier::opaque]
pub open spec fn color_at(s: Seq<u8>, at: int) -> Option<(Color, int)> {
    match coordinate_at(s, at) {
        None => None,
        Some((r, a0)) => 
        match coordinate_at(s, a0) {
            None => None,
            Some((g, a1)) => 
            match coordinate_at(s, a1) {
                None => None,
                Some((b, a2)) => Some((Color(r, g, b), a2)),
            },
        },
    }
}

/// The five words at `at` as a salt item.
#[verifier::opaque]
pub open spec fn salt_item_at(s: Seq<u8>, at: int) -> Option<(SaltItem, int)> {
    match color_at(s, at) {
        None => None,
        Some((color, a0)) => 
        match count_at(s, a0) {
            None => None,
            Some((likeliness, a1)) => 
            match count_at(s, a1) {
                None => None,
                Some((variability, a2)) => Some((SaltItem { color, likeliness, variability }, a2)),
            },
        },
    }
}

/// The salt items from `at` up to the next `#`, behind those of `acc`; at
/// most `fuel` of them.
pub open spec fn salt_at(s: Seq<u8>, at: int, acc: Seq<SaltItem>, fuel: nat) -> Option<
    (Seq<SaltItem>, int),
>
    decreases fuel,
{
    match hash_at(s, at) {
        Some(next) => Some((acc, next)),
        None => if fuel == 0 {
            None
        } else {
            match salt_item_at(s, at) {
                Some((item, next)) => salt_at(s, next, acc.push(item), (fuel - 1) as nat),
                None => None,
            }
        },
    }
}

/// The words at `at` as a recipe for a colour: shade, theme, salt,
/// deviation, a weight of a hundred at most, and `#`.
#[verifier::opaque]
pub open spec fn recipe_at(s: Seq<u8>, at: int) -> Option<(Recipe, int)> {
    match color_at(s, at) {
        None => None,
        Some((shade, a0)) => match color_at(s, a0) {
            None => None,
            Some((theme, a1)) => match salt_at(s, a1, Seq::empty(), s.len()) {
                None => None,
                Some((salt, a2)) => match count_at(s, a2) {
                    None => None,
                    Some((deviation, a3)) => match count_at(s, a3) {
                        None => None,
                        Some((weight, a4)) => match hash_at(s, a4) {
                            None => None,
                            Some(a5) => if weight <= 100 {
                                Some((Recipe { shade, deviation, theme, weight, salt }, a5))
                            } else {
                                None
                            },
                        },
                    },
                },
            },
        },
    }
}

/// The words at `at` as a frame.
#[verifier::opaque]
pub open spec fn frame_at(s: Seq<u8>, at: int) -> Option<(Frame, int)> {
    match size_at(s, at) {
        None => None,
        Some((x, a0)) => 
        match size_at(s, a0) {
            None => None,
            Some((y, a1)) => 
            match size_at(s, a1) {
                None => None,
                Some((w, a2)) => 
                match size_at(s, a2) {
                    None => None,
                    Some((h, a3)) => 
                    match hash_at(s, a3) {
                        None => None,
                        Some(a4) => Some((Frame { x, y, w, h }, a4)),
                    },
                },
            },
        },
    }
}

/// The words at `at` as what a shape of this kind holds, behind its name.
#[verifier::opaque]
pub open spec fn disc_at(s: Seq<u8>, at: int) -> Option<(ShapeView, int)> {
    match pos_at(s, at) {
        None => None,
        Some((center, a0)) => 
        match coordinate_at(s, a0) {
            None => None,
            Some((radius, a1)) => 
            match recipe_at(s, a1) {
                None => None,
                Some((color, a2)) => 
                match hash_at(s, a2) {
                    None => None,
                    Some(a3) => Some((ShapeView::Disc { center, radius, color }, a3)),
                },
            },
        },
    }
}

/// The words at `at` as what a shape of this kind holds, behind its name.
#[verifier::opaque]
pub open spec fn halfplane_at(s: Seq<u8>, at: int) -> Option<(ShapeView, int)> {
    match pos_at(s, at) {
        None => None,
        Some((limit, a0)) => 
        match pos_at(s, a0) {
            None => None,
            Some((reference, a1)) => 
            match recipe_at(s, a1) {
                None => None,
                Some((color, a2)) => 
                match hash_at(s, a2) {
                    None => None,
                    Some(a3) => Some((ShapeView::HalfPlane { limit, reference, color }, a3)),
                },
            },
        },
    }
}

/// The words at `at` as what a shape of this kind holds, behind its name.
#[verifier::opaque]
pub open spec fn triangle_at(s: Seq<u8>, at: int) -> Option<(ShapeView, int)> {
    match pos_at(s, at) {
        None => None,
        Some((a, a0)) => 
        match pos_at(s, a0) {
            None => None,
            Some((b, a1)) => 
            match pos_at(s, a1) {
                None => None,
                Some((c, a2)) => 
                match recipe_at(s, a2) {
                    None => None,
                    Some((color, a3)) => 
                    match hash_at(s, a3) {
                        None => None,
                        Some(a4) => Some((ShapeView::Triangle { a, b, c, color }, a4)),
                    },
                },
            },
        },
    }
}

/// The words at `at` as what a shape of this kind holds, behind its name.
#[verifier::opaque]
pub open spec fn spiral_at(s: Seq<u8>, at: int) -> Option<(ShapeView, int)> {
    match pos_at(s, at) {
        None => None,
        Some((center, a0)) => 
        match coordinate_at(s, a0) {
            None => None,
            Some((width, a1)) => 
            match coordinate_at(s, a1) {
                None => None,
                Some((tightness, a2)) => 
                match recipe_at(s, a2) {
                    None => None,
                    Some((color, a3)) => 
                    match hash_at(s, a3) {
                        None => None,
                        Some(a4) => Some((ShapeView::Spiral { center, width, tightness, color }, a4)),
                    },
                },
            },
        },
    }
}

/// The words at `at` as what a shape of this kind holds, behind its name.
#[verifier::opaque]
pub open spec fn stripe_at(s: Seq<u8>, at: int) -> Option<(ShapeView, int)> {
    match pos_at(s, at) {
        None => None,
        Some((limit, a0)) => 
        match pos_at(s, a0) {
            None => None,
            Some((reference, a1)) => 
            match recipe_at(s, a1) {
                None => None,
                Some((color, a2)) => 
                match hash_at(s, a2) {
                    None => None,
                    Some(a3) => Some((ShapeView::Stripe { limit, reference, color }, a3)),
                },
            },
        },
    }
}

/// The words at `at` as what a shape of this kind holds, behind its name.
#[verifier::opaque]
pub open spec fn wave_at(s: Seq<u8>, at: int) -> Option<(ShapeView, int)> {
    match pos_at(s, at) {
        None => None,
        Some((limit, a0)) => 
        match pos_at(s, a0) {
            None => None,
            Some((reference, a1)) => 
            match coordinate_at(s, a1) {
                None => None,
                Some((amplitude, a2)) => 
                match coordinate_at(s, a2) {
                    None => None,
                    Some((frequency, a3)) => 
                    match recipe_at(s, a3) {
                        None => None,
                        Some((color, a4)) => 
                        match hash_at(s, a4) {
                            None => None,
                            Some(a5) => Some((ShapeView::Wave { limit, reference, amplitude, frequency, color }, a5)),
                        },
                    },
                },
            },
        },
    }
}

/// The words at `at` as what a shape of this kind holds, behind its name.
#[verifier::opaque]
pub open spec fn sawtooth_at(s: Seq<u8>, at: int) -> Option<(ShapeView, int)> {
    match pos_at(s, at) {
        None => None,
        Some((limit, a0)) => 
        match pos_at(s, a0) {
            None => None,
            Some((reference, a1)) => 
            match coordinate_at(s, a1) {
                None => None,
                Some((amplitude, a2)) => 
                match coordinate_at(s, a2) {
                    None => None,
                    Some((frequency, a3)) => 
                    match recipe_at(s, a3) {
                        None => None,
                        Some((color, a4)) => 
                        match hash_at(s, a4) {
                            None => None,
                            Some(a5) => Some((ShapeView::Sawtooth { limit, reference, amplitude, frequency, color }, a5)),
                        },
                    },
                },
            },
        },
    }
}

/// The words at `at` as a shape: its name, and what it holds.
#[verifier::opaque]
pub open spec fn shape_at(s: Seq<u8>, at: int) -> Option<(ShapeView, int)> {
    match word_at(s, at) {
        None => None,
        Some(name) => if name == "Disc".spec_bytes() {
            disc_at(s, after(s, at))
        } else if name == "HalfPlane".spec_bytes() {
            halfplane_at(s, after(s, at))
        } else if name == "Triangle".spec_bytes() {
            triangle_at(s, after(s, at))
        } else if name == "Spiral".spec_bytes() {
            spiral_at(s, after(s, at))
        } else if name == "Stripe".spec_bytes() {
            stripe_at(s, after(s, at))
        } else if name == "Wave".spec_bytes() {
            wave_at(s, after(s, at))
        } else if name == "Sawtooth".spec_bytes() {
            sawtooth_at(s, after(s, at))
        } else {
            None
        },
    }
}

/// The `n` shapes from `at` on, behind those of `acc`.
pub open spec fn shapes_at(s: Seq<u8>, at: int, acc: Seq<ShapeView>, n: nat) -> Option<Seq<ShapeView>>
    decreases n,
{
    if n == 0 {
        Some(acc)
    } else {
        match shape_at(s, at) {
            Some((shape, next)) => shapes_at(s, next, acc.push(shape), (n - 1) as nat),
            None => None,
        }
    }
}

/// What the scene holds that a text writes down: frame, background, number
/// of shapes, and as many shapes. Nothing where the text is not of that form.
pub open spec fn scene_of(s: Seq<u8>) -> Option<(Frame, Recipe, Seq<ShapeView>)> {
    match frame_at(s, 0) {
        None => None,
        Some((frame, a0)) => match recipe_at(s, a0) {
            None => None,
            Some((bg, a1)) => match size_at(s, a1) {
                None => None,
                Some((n, a2)) => match shapes_at(s, a2, Seq::empty(), n as nat) {
                    None => None,
                    Some(shapes) => Some((frame, bg, shapes)),
                },
            },
        },
    }
}

impl<'a> Reader<'a> {
    /// The place in the text is one that exists.
    pub open spec fn wf(&self) -> bool {
        self.at <= self.text@.len()
    }

    /// The reader at the start of a text.
    pub fn new(text: &'a [u8]) -> (r: Reader<'a>)
        ensures
            r.wf(),
            r.text@ == text@,
            r.at == 0,
    {
        Reader { text, at: 0 }
    }

    /// The next word: the text up to the next space. Nothing at the end of the text.
    pub fn word(&mut self) -> (r: Option<Vec<u8>>)
        requires
            old(self).wf(),
        ensures
            final(self).wf(),
            final(self).text@ == old(self).text@,
            match r {
                None => word_at(old(self).text@, old(self).at as int) is None && final(self).at
                    == old(self).at,
                Some(w) => word_at(old(self).text@, old(self).at as int) == Some(w@)
                    && final(self).at == after(old(self).text@, old(self).at as int)
                    && final(self).at > old(self).at,
            },
    {
        if self.at >= self.text.len() {
            return None;
        }
        let end: usize = find_word_end(self.text, self.at, 32);
        let w: Vec<u8> = copy_range(self.text, self.at, end);
        self.at = if end < self.text.len() {
            end + 1
        } else {
            end
        };
        Some(w)
    }

    /// The next word as a whole number between `-max` and `max`.
    pub fn whole(&mut self, max: u64) -> (r: Option<i128>)
        requires
            old(self).wf(),
        ensures
            final(self).wf(),
            final(self).text@ == old(self).text@,
            match r {
                Some(v) => whole_at(old(self).text@, old(self).at as int, max as nat) == Some(
                    (v as int, final(self).at as int),
                ) && -max <= v <= max && final(self).at > old(self).at,
                None => whole_at(old(self).text@, old(self).at as int, max as nat) is None,
            },
    {
        match self.word() {
            Some(w) => parse_int(w.as_slice(), max),
            None => None,
        }
    }

    /// Passes the word `#`; says whether it was there.
    pub fn hash(&mut self) -> (r: bool)
        requires
            old(self).wf(),
        ensures
            final(self).wf(),
            final(self).text@ == old(self).text@,
            r ==> hash_at(old(self).text@, old(self).at as int) == Some(final(self).at as int)
                && final(self).at > old(self).at,
            !r ==> hash_at(old(self).text@, old(self).at as int) is None,
    {
        match self.word() {
            Some(w) => {
                let r: bool = w.len() == 1 && w[0] == 35;
                proof {
                    if r {
                        assert(w@ =~= seq![35u8]);
                    }
                }
                r
            },
            None => false,
        }
    }

    /// The next word as a coordinate or a channel.
    pub fn coordinate(&mut self) -> (r: Option<i32>)
        requires
            old(self).wf(),
        ensures
            final(self).wf(),
            final(self).text@ == old(self).text@,
            match r {
                Some(v) => coordinate_at(old(self).text@, old(self).at as int) == Some(
                    (v, final(self).at as int),
                ) && final(self).at > old(self).at,
                None => coordinate_at(old(self).text@, old(self).at as int) is None,
            },
    {
        match self.whole(0x8000_0000) {
            Some(v) => if v <= 0x7fff_ffff {
                Some(v as i32)
            } else {
                None
            },
            None => None,
        }
    }

    /// The next word as a number that is not negative.
    pub fn count(&mut self) -> (r: Option<u32>)
        requires
            old(self).wf(),
        ensures
            final(self).wf(),
            final(self).text@ == old(self).text@,
            match r {
                Some(v) => count_at(old(self).text@, old(self).at as int) == Some(
                    (v, final(self).at as int),
                ) && final(self).at > old(self).at,
                None => count_at(old(self).text@, old(self).at as int) is None,
            },
    {
        match self.whole(0xffff_ffff) {
            Some(v) => if v >= 0 {
                Some(v as u32)
            } else {
                None
            },
            None => None,
        }
    }

    /// The next word as a size.
    pub fn size(&mut self) -> (r: Option<usize>)
        requires
            old(self).wf(),
        ensures
            final(self).wf(),
            final(self).text@ == old(self).text@,
            match r {
                Some(v) => size_at(old(self).text@, old(self).at as int) == Some(
                    (v, final(self).at as int),
                ) && final(self).at > old(self).at,
                None => size_at(old(self).text@, old(self).at as int) is None,
            },
    {
        match self.whole(usize::MAX as u64) {
            Some(v) => if v >= 0 {
                Some(v as usize)
            } else {
                None
            },
            None => None,
        }
    }

    /// The next two words as a point.
    pub fn pos(&mut self) -> (r: Option<Pos>)
        requires
            old(self).wf(),
        ensures
            final(self).wf(),
            final(self).text@ == old(self).text@,
            match r {
                Some(v) => pos_at(old(self).text@, old(self).at as int) == Some(
                    (v, final(self).at as int),
                ),
                None => pos_at(old(self).text@, old(self).at as int) is None,
            },
            r is Some ==> final(self).at > old(self).at,
    {
        reveal(pos_at);
        let x = match self.coordinate() {
            Some(v) => v,
            None => {
                return None;
            },
        };
        let y = match self.coordinate() {
            Some(v) => v,
            None => {
                return None;
            },
        };
        Some(Pos(x, y))
    }

    /// The next three words as a colour.
    pub fn color(&mut self) -> (r: Option<Color>)
        requires
            old(self).wf(),
        ensures
            final(self).wf(),
            final(self).text@ == old(self).text@,
            match r {
                Some(v) => color_at(old(self).text@, old(self).at as int) == Some(
                    (v, final(self).at as int),
                ),
                None => color_at(old(self).text@, old(self).at as int) is None,
            },
            r is Some ==> final(self).at > old(self).at,
    {
        reveal(color_at);
        let r = match self.coordinate() {
            Some(v) => v,
            None => {
                return None;
            },
        };
        let g = match self.coordinate() {
            Some(v) => v,
            None => {
                return None;
            },
        };
        let b = match self.coordinate() {
            Some(v) => v,
            None => {
                return None;
            },
        };
        Some(Color(r, g, b))
    }

    /// The next five words as a salt item.
    pub fn salt_item(&mut self) -> (r: Option<SaltItem>)
        requires
            old(self).wf(),
        ensures
            final(self).wf(),
            final(self).text@ == old(self).text@,
            match r {
                Some(v) => salt_item_at(old(self).text@, old(self).at as int) == Some(
                    (v, final(self).at as int),
                ),
                None => salt_item_at(old(self).text@, old(self).at as int) is None,
            },
            r is Some ==> final(self).at > old(self).at,
    {
        reveal(salt_item_at);
        let color = match self.color() {
            Some(v) => v,
            None => {
                return None;
            },
        };
        let likeliness = match self.count() {
            Some(v) => v,
            None => {
                return None;
            },
        };
        let variability = match self.count() {
            Some(v) => v,
            None => {
                return None;
            },
        };
        Some(SaltItem { color, likeliness, variability })
    }

    /// The salt items up to the next `#`.
    pub fn salt(&mut self) -> (r: Option<Salt>)
        requires
            old(self).wf(),
        ensures
            final(self).wf(),
            final(self).text@ == old(self).text@,
            match r {
                Some(v) => salt_at(
                    old(self).text@,
                    old(self).at as int,
                    Seq::empty(),
                    old(self).text@.len(),
                ) == Some((v@, final(self).at as int)),
                None => salt_at(
                    old(self).text@,
                    old(self).at as int,
                    Seq::empty(),
                    old(self).text@.len(),
                ) is None,
            },
    {
        let mut items: Vec<SaltItem> = Vec::new();
        let ghost text = self.text@;
        let ghost start = self.at as int;
        let mut fuel: usize = self.text.len();
        loop
            invariant
                self.wf(),
                self.text@ == text,
                text == old(self).text@,
                start == old(self).at,
                fuel + self.at >= text.len(),
                salt_at(text, start, Seq::empty(), text.len()) == salt_at(
                    text,
                    self.at as int,
                    items@,
                    fuel as nat,
                ),
            decreases fuel,
        {
            let before: usize = self.at;
            if self.hash() {
                return Some(Salt(items));
            }
            self.at = before;
            if fuel == 0 {
                return None;
            }
            match self.salt_item() {
                Some(item) => {
                    items.push(item);
                },
                None => {
                    return None;
                },
            }
            fuel = fuel - 1;
        }
    }

    /// The next words as a recipe for a colour.
    pub fn color_item(&mut self) -> (r: Option<ColorItem>)
        requires
            old(self).wf(),
        ensures
            final(self).wf(),
            final(self).text@ == old(self).text@,
            match r {
                Some(v) => recipe_at(old(self).text@, old(self).at as int) == Some(
                    (recipe_view(v), final(self).at as int),
                ) && v.wf(),
                None => recipe_at(old(self).text@, old(self).at as int) is None,
            },
    {
        reveal(recipe_at);
        let shade = match self.color() {
            Some(v) => v,
            None => {
                return None;
            },
        };
        let theme = match self.color() {
            Some(v) => v,
            None => {
                return None;
            },
        };
        let salt = match self.salt() {
            Some(v) => v,
            None => {
                return None;
            },
        };
        let deviation = match self.count() {
            Some(v) => v,
            None => {
                return None;
            },
        };
        let weight = match self.count() {
            Some(v) => v,
            None => {
                return None;
            },
        };
        if !self.hash() {
            return None;
        }
        if weight <= 100 {
            Some(ColorItem { shade, deviation, theme, weight, salt })
        } else {
            None
        }
    }

    /// The next words as a frame.
    pub fn frame(&mut self) -> (r: Option<Frame>)
        requires
            old(self).wf(),
        ensures
            final(self).wf(),
            final(self).text@ == old(self).text@,
            match r {
                Some(v) => frame_at(old(self).text@, old(self).at as int) == Some(
                    (v, final(self).at as int),
                ),
                None => frame_at(old(self).text@, old(self).at as int) is None,
            },
    {
        reveal(frame_at);
        let x = match self.size() {
            Some(v) => v,
            None => {
                return None;
            },
        };
        let y = match self.size() {
            Some(v) => v,
            None => {
                return None;
            },
        };
        let w = match self.size() {
            Some(v) => v,
            None => {
                return None;
            },
        };
        let h = match self.size() {
            Some(v) => v,
            None => {
                return None;
            },
        };
        if !self.hash() {
            return None;
        }
        Some(Frame { x, y, w, h })
    }

    /// The next words as what a shape of this kind holds, behind its name.
    pub fn disc(&mut self) -> (r: Option<Disc>)
        requires
            old(self).wf(),
        ensures
            final(self).wf(),
            final(self).text@ == old(self).text@,
            match r {
                Some(v) => disc_at(old(self).text@, old(self).at as int) == Some(
                    (shape_view(Shape::Disc(v)), final(self).at as int),
                ) && v.color.wf(),
                None => disc_at(old(self).text@, old(self).at as int) is None,
            },
    {
        reveal(disc_at);
        let center = match self.pos() {
            Some(v) => v,
            None => {
                return None;
            },
        };
        let radius = match self.coordinate() {
            Some(v) => v,
            None => {
                return None;
            },
        };
        let color = match self.color_item() {
            Some(v) => v,
            None => {
                return None;
            },
        };
        if !self.hash() {
            return None;
        }
        Some(Disc { center, radius, color })
    }

    /// The next words as what a shape of this kind holds, behind its name.
    pub fn halfplane(&mut self) -> (r: Option<HalfPlane>)
        requires
            old(self).wf(),
        ensures
            final(self).wf(),
            final(self).text@ == old(self).text@,
            match r {
                Some(v) => halfplane_at(old(self).text@, old(self).at as int) == Some(
                    (shape_view(Shape::HalfPlane(v)), final(self).at as int),
                ) && v.color.wf(),
                None => halfplane_at(old(self).text@, old(self).at as int) is None,
            },
    {
        reveal(halfplane_at);
        let limit = match self.pos() {
            Some(v) => v,
            None => {
                return None;
            },
        };
        let reference = match self.pos() {
            Some(v) => v,
            None => {
                return None;
            },
        };
        let color = match self.color_item() {
            Some(v) => v,
            None => {
                return None;
            },
        };
        if !self.hash() {
            return None;
        }
        Some(HalfPlane { limit, reference, color })
    }

    /// The next words as what a shape of this kind holds, behind its name.
    pub fn triangle(&mut self) -> (r: Option<Triangle>)
        requires
            old(self).wf(),
        ensures
            final(self).wf(),
            final(self).text@ == old(self).text@,
            match r {
                Some(v) => triangle_at(old(self).text@, old(self).at as int) == Some(
                    (shape_view(Shape::Triangle(v)), final(self).at as int),
                ) && v.color.wf(),
                None => triangle_at(old(self).text@, old(self).at as int) is None,
            },
    {
        reveal(triangle_at);
        let a = match self.pos() {
            Some(v) => v,
            None => {
                return None;
            },
        };
        let b = match self.pos() {
            Some(v) => v,
            None => {
                return None;
            },
        };
        let c = match self.pos() {
            Some(v) => v,
            None => {
                return None;
            },
        };
        let color = match self.color_item() {
            Some(v) => v,
            None => {
                return None;
            },
        };
        if !self.hash() {
            return None;
        }
        Some(Triangle { a, b, c, color })
    }

    /// The next words as what a shape of this kind holds, behind its name.
    pub fn spiral(&mut self) -> (r: Option<Spiral>)
        requires
            old(self).wf(),
        ensures
            final(self).wf(),
            final(self).text@ == old(self).text@,
            match r {
                Some(v) => spiral_at(old(self).text@, old(self).at as int) == Some(
                    (shape_view(Shape::Spiral(v)), final(self).at as int),
                ) && v.color.wf(),
                None => spiral_at(old(self).text@, old(self).at as int) is None,
            },
    {
        reveal(spiral_at);
        let center = match self.pos() {
            Some(v) => v,
            None => {
                return None;
            },
        };
        let width = match self.coordinate() {
            Some(v) => v,
            None => {
                return None;
            },
        };
        let tightness = match self.coordinate() {
            Some(v) => v,
            None => {
                return None;
            },
        };
        let color = match self.color_item() {
            Some(v) => v,
            None => {
                return None;
            },
        };
        if !self.hash() {
            return None;
        }
        Some(Spiral { center, width, tightness, color })
    }

    /// The next words as what a shape of this kind holds, behind its name.
    pub fn stripe(&mut self) -> (r: Option<Stripe>)
        requires
            old(self).wf(),
        ensures
            final(self).wf(),
            final(self).text@ == old(self).text@,
            match r {
                Some(v) => stripe_at(old(self).text@, old(self).at as int) == Some(
                    (shape_view(Shape::Stripe(v)), final(self).at as int),
                ) && v.color.wf(),
                None => stripe_at(old(self).text@, old(self).at as int) is None,
            },
    {
        reveal(stripe_at);
        let limit = match self.pos() {
            Some(v) => v,
            None => {
                return None;
            },
        };
        let reference = match self.pos() {
            Some(v) => v,
            None => {
                return None;
            },
        };
        let color = match self.color_item() {
            Some(v) => v,
            None => {
                return None;
            },
        };
        if !self.hash() {
            return None;
        }
        Some(Stripe { limit, reference, color })
    }

    /// The next words as what a shape of this kind holds, behind its name.
    pub fn wave(&mut self) -> (r: Option<Wave>)
        requires
            old(self).wf(),
        ensures
            final(self).wf(),
            final(self).text@ == old(self).text@,
            match r {
                Some(v) => wave_at(old(self).text@, old(self).at as int) == Some(
                    (shape_view(Shape::Wave(v)), final(self).at as int),
                ) && v.color.wf(),
                None => wave_at(old(self).text@, old(self).at as int) is None,
            },
    {
        reveal(wave_at);
        let limit = match self.pos() {
            Some(v) => v,
            None => {
                return None;
            },
        };
        let reference = match self.pos() {
            Some(v) => v,
            None => {
                return None;
            },
        };
        let amplitude = match self.coordinate() {
            Some(v) => v,
            None => {
                return None;
            },
        };
        let frequency = match self.coordinate() {
            Some(v) => v,
            None => {
                return None;
            },
        };
        let color = match self.color_item() {
            Some(v) => v,
            None => {
                return None;
            },
        };
        if !self.hash() {
            return None;
        }
        Some(Wave { limit, reference, amplitude, frequency, color })
    }

    /// The next words as what a shape of this kind holds, behind its name.
    pub fn sawtooth(&mut self) -> (r: Option<Sawtooth>)
        requires
            old(self).wf(),
        ensures
            final(self).wf(),
            final(self).text@ == old(self).text@,
            match r {
                Some(v) => sawtooth_at(old(self).text@, old(self).at as int) == Some(
                    (shape_view(Shape::Sawtooth(v)), final(self).at as int),
                ) && v.color.wf(),
                None => sawtooth_at(old(self).text@, old(self).at as int) is None,
            },
    {
        reveal(sawtooth_at);
        let limit = match self.pos() {
            Some(v) => v,
            None => {
                return None;
            },
        };
        let reference = match self.pos() {
            Some(v) => v,
            None => {
                return None;
            },
        };
        let amplitude = match self.coordinate() {
            Some(v) => v,
            None => {
                return None;
            },
        };
        let frequency = match self.coordinate() {
            Some(v) => v,
            None => {
                return None;
            },
        };
        let color = match self.color_item() {
            Some(v) => v,
            None => {
                return None;
            },
        };
        if !self.hash() {
            return None;
        }
        Some(Sawtooth { limit, reference, amplitude, frequency, color })
    }

    /// The next words as a shape: its name, then what it holds.
    pub fn shape(&mut self) -> (r: Option<Shape>)
        requires
            old(self).wf(),
        ensures
            final(self).wf(),
            final(self).text@ == old(self).text@,
            match r {
                Some(v) => shape_at(old(self).text@, old(self).at as int) == Some(
                    (shape_view(v), final(self).at as int),
                ) && v.paint().wf(),
                None => shape_at(old(self).text@, old(self).at as int) is None,
            },
    {
        reveal(shape_at);
        let name: Vec<u8> = match self.word() {
            Some(w) => w,
            None => {
                return None;
            },
        };
        if same(name.as_slice(), "Disc".as_bytes()) {
            match self.disc() {
                Some(s) => Some(Shape::Disc(s)),
                None => None,
            }
        } else if same(name.as_slice(), "HalfPlane".as_bytes()) {
            match self.halfplane() {
                Some(s) => Some(Shape::HalfPlane(s)),
                None => None,
            }
        } else if same(name.as_slice(), "Triangle".as_bytes()) {
            match self.triangle() {
                Some(s) => Some(Shape::Triangle(s)),
                None => None,
            }
        } else if same(name.as_slice(), "Spiral".as_bytes()) {
            match self.spiral() {
                Some(s) => Some(Shape::Spiral(s)),
                None => None,
            }
        } else if same(name.as_slice(), "Stripe".as_bytes()) {
            match self.stripe() {
                Some(s) => Some(Shape::Stripe(s)),
                None => None,
            }
        } else if same(name.as_slice(), "Wave".as_bytes()) {
            match self.wave() {
                Some(s) => Some(Shape::Wave(s)),
                None => None,
            }
        } else if same(name.as_slice(), "Sawtooth".as_bytes()) {
            match self.sawtooth() {
                Some(s) => Some(Shape::Sawtooth(s)),
                None => None,
            }
        } else {
            None
        }
    }
}

impl Logger {
    /// Reads a scene that `to_text` wrote down. Nothing where the text is
    /// not of that form.
    pub fn restore(text: &[u8]) -> (r: Option<Logger>)
        ensures
            match r {
                Some(l) => scene_of(text@) == Some((l.frame, recipe_view(l.bg), shapes_view(l.objects@)))
                    && l.bg.wf() && shapes_wf(l.objects@),
                None => scene_of(text@) is None,
            },
    {
        let mut reader = Reader::new(text);
        let frame: Frame = match reader.frame() {
            Some(f) => f,
            None => {
                return None;
            },
        };
        let ghost a0 = reader.at as int;
        let bg: ColorItem = match reader.color_item() {
            Some(c) => c,
            None => {
                return None;
            },
        };
        let ghost a1 = reader.at as int;
        let len: usize = match reader.size() {
            Some(n) => n,
            None => {
                return None;
            },
        };
        let ghost first = reader.at as int;
        let mut objects: Vec<Shape> = Vec::new();
        let mut i: usize = 0;
        assert(shapes_view(objects@) =~= Seq::empty());
        while i < len
            invariant
                0 <= i <= len,
                reader.wf(),
                reader.text@ == text@,
                shapes_wf(objects@),
                bg.wf(),
                frame_at(text@, 0) == Some((frame, a0)),
                recipe_at(text@, a0) == Some((recipe_view(bg), a1)),
                size_at(text@, a1) == Some((len, first)),
                shapes_at(text@, first, Seq::empty(), len as nat) == shapes_at(
                    text@,
                    reader.at as int,
                    shapes_view(objects@),
                    (len - i) as nat,
                ),
            decreases len - i,
        {
            match reader.shape() {
                Some(s) => {
                    let ghost before = objects@;
                    objects.push(s);
                    assert(shapes_view(objects@) =~= shapes_view(before).push(shape_view(s)));
                    assert forall|k: int| 0 <= k < objects@.len() implies (
                    #[trigger] objects@[k]).paint().wf() by {
                        if k < before.len() {
                            assert(objects@[k] == before[k]);
                        }
                    }
                },
                None => {
                    return None;
                },
            }
            i = i + 1;
        }
        Some(Logger { frame, bg, objects })
    }
}

} // verus!
