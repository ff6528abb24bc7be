//! The drawing that is handed to whoever writes the image: closed outlines
//! with their fill and stroke.

use vstd::prelude::*;
use crate::color::Color;
use crate::frame::Frame;
use crate::pos::Pos;
use crate::text::{push_hundredths, push_number, with_hundredths, with_number};
use vstd::string::StringExecFns;

verus! {

/// The corners of a closed outline, in drawing order.
#[derive(Clone, Debug)]
pub struct Data(pub Vec<Pos>);

/// An outline with the colours and the stroke width, in hundredths of a
/// canvas unit, with which it is drawn.
#[derive(Clone, Debug)]
pub struct Path {
    pub stroke_width: i32,
    pub stroke_color: Color,
    pub fill_color: Color,
    pub data: Data,
}

/// All outlines of an image, bottom first, and the frame that they fill.
#[derive(Clone, Debug)]
pub struct Document {
    pub frame: Frame,
    pub items: Vec<Path>,
}

impl View for Data {
    type V = Seq<Pos>;

    open spec fn view(&self) -> Seq<Pos> {
        self.0@
    }
}

impl Data {
    /// An outline that starts at `pos`.
    pub fn new(pos: Pos) -> (r: Data)
        ensures
            r@ == seq![pos],
    {
        let mut pts: Vec<Pos> = Vec::new();
        pts.push(pos);
        Data(pts)
    }

    /// Continues the outline to `pos`.
    pub fn line_to(&mut self, pos: Pos)
        ensures
            final(self)@ == old(self)@.push(pos),
    {
        self.0.push(pos);
    }

    /// The outline continued to `pos`.
    pub fn with_line_to(self, pos: Pos) -> (r: Data)
        ensures
            r@ == self@.push(pos),
    {
        let mut data = self;
        data.0.push(pos);
        data
    }
}

/// `acc` followed by one corner: a letter, the two coordinates in canvas
/// units with a comma between them, and a space.
pub open spec fn corner_onto(acc: Seq<char>, letter: Seq<char>, p: Pos) -> Seq<char> {
    with_hundredths(with_hundredths(acc + letter, p.0 as int) + ","@, p.1 as int) + " "@
}

/// `acc` followed by the first `n` corners of an outline, the first after
/// an `M` and each other after an `L`.
pub open spec fn corners_onto(acc: Seq<char>, pts: Seq<Pos>, n: int) -> Seq<char>
    decreases n,
{
    if n <= 0 {
        acc
    } else if n == 1 {
        corner_onto(acc, "M"@, pts[0])
    } else {
        corner_onto(corners_onto(acc, pts, n - 1), "L"@, pts[n - 1])
    }
}

fn write_corner(out: &mut String, letter: &str, p: Pos)
    ensures
        final(out)@ == corner_onto(old(out)@, letter@, p),
{
    out.append(letter);
    push_hundredths(out, p.0 as i128);
    out.append(",");
    push_hundredths(out, p.1 as i128);
    out.append(" ");
}

impl Data {
    /// `acc` followed by the outline as the data of an SVG path, closed by a `z`.
    pub open spec fn text_onto(&self, acc: Seq<char>) -> Seq<char> {
        corners_onto(acc, self@, self@.len() as int) + "z"@
    }

    /// Writes the outline as the data of an SVG path at the end of `out`.
    pub fn write(&self, out: &mut String)
        ensures
            final(out)@ == self.text_onto(old(out)@),
    {
        let mut i: usize = 0;
        while i < self.0.len()
            invariant
                0 <= i <= self.0.len(),
                out@ == corners_onto(old(out)@, self@, i as int),
            decreases self.0.len() - i,
        {
            if i == 0 {
                write_corner(out, "M", self.0[i]);
            } else {
                write_corner(out, "L", self.0[i]);
            }
            i = i + 1;
        }
        out.append("z");
    }
}

impl Path {
    /// `acc` followed by the path as an SVG element.
    pub open spec fn text_onto(&self, acc: Seq<char>) -> Seq<char> {
        with_hundredths(
            self.stroke_color.text_onto(
                self.fill_color.text_onto(self.data.text_onto(acc + "<path d=\""@) + "\" fill=\""@)
                    + "\" stroke=\""@,
            ) + "\" stroke-width=\""@,
            self.stroke_width as int,
        ) + "\" />"@
    }

    /// Writes the path as an SVG element at the end of `out`.
    pub fn write(&self, out: &mut String)
        ensures
            final(out)@ == self.text_onto(old(out)@),
    {
        out.append("<path d=\"");
        self.data.write(out);
        out.append("\" fill=\"");
        self.fill_color.write(out);
        out.append("\" stroke=\"");
        self.stroke_color.write(out);
        out.append("\" stroke-width=\"");
        push_hundredths(out, self.stroke_width as i128);
        out.append("\" />");
    }

    /// Whether the path still has the attributes that `new` gives it.
    pub open spec fn is_plain(&self) -> bool {
        &&& self.stroke_width == 0
        &&& self.stroke_color == Color(0, 0, 0)
        &&& self.fill_color == Color(255, 255, 255)
    }

    /// A path along `d`, filled white, with a black stroke of no width.
    pub fn new(d: Data) -> (r: Path)
        ensures
            r.data@ == d@,
            r.is_plain(),
    {
        Path { stroke_width: 0, stroke_color: Color(0, 0, 0), fill_color: Color(255, 255, 255), data: d }
    }

    /// The path filled with the colour `c`.
    pub fn with_fill_color(self, c: Color) -> (r: Path)
        ensures
            r.fill_color == c,
            r.stroke_color == self.stroke_color,
            r.stroke_width == self.stroke_width,
            r.data@ == self.data@,
    {
        let mut path = self;
        path.fill_color = c;
        path
    }

    /// The path with its outline in the colour `c`.
    pub fn with_stroke_color(self, c: Color) -> (r: Path)
        ensures
            r.stroke_color == c,
            r.fill_color == self.fill_color,
            r.stroke_width == self.stroke_width,
            r.data@ == self.data@,
    {
        let mut path = self;
        path.stroke_color = c;
        path
    }

    /// The path with an outline of the width `w`, in hundredths of a canvas unit.
    pub fn with_stroke_width(self, w: i32) -> (r: Path)
        ensures
            r.stroke_width == w,
            r.fill_color == self.fill_color,
            r.stroke_color == self.stroke_color,
            r.data@ == self.data@,
    {
        let mut path = self;
        path.stroke_width = w;
        path
    }
}

impl Document {
    /// An image of the given frame with nothing in it.
    pub fn new(frame: Frame) -> (r: Document)
        ensures
            r.frame == frame,
            r.items@.len() == 0,
    {
        Document { frame, items: Vec::new() }
    }

    /// Puts `path` on top of what the image holds.
    pub fn add(&mut self, path: Path)
        ensures
            final(self).frame == old(self).frame,
            final(self).items@ == old(self).items@.push(path),
    {
        self.items.push(path);
    }
}

/// `acc` followed by the opening tag of an image of the given frame.
pub open spec fn head_onto(acc: Seq<char>, f: Frame) -> Seq<char> {
    with_number(
        with_number(
            with_number(with_number(acc + "<svg viewBox=\""@, f.x as nat) + " "@, f.y as nat)
                + " "@,
            (f.x + f.w) as nat,
        ) + " "@,
        (f.y + f.h) as nat,
    ) + "\" xmlns=\"http://www.w3.org/2000/svg\">\n"@
}

/// `acc` followed by the first `n` paths, each on a line of its own.
pub open spec fn paths_onto(acc: Seq<char>, items: Seq<Path>, n: int) -> Seq<char>
    decreases n,
{
    if n <= 0 {
        acc
    } else {
        items[n - 1].text_onto(paths_onto(acc, items, n - 1)) + "\n"@
    }
}

impl Document {
    /// The image as the text of an SVG file.
    pub open spec fn text(&self) -> Seq<char> {
        paths_onto(head_onto(Seq::empty(), self.frame), self.items@, self.items@.len() as int)
            + "</svg>"@
    }

    /// The image as the text of an SVG file.
    pub fn to_svg(&self) -> (r: String)
        ensures
            r@ == self.text(),
    {
        let mut out: String = String::new();
        out.append("<svg viewBox=\"");
        push_number(&mut out, self.frame.x as u128);
        out.append(" ");
        push_number(&mut out, self.frame.y as u128);
        out.append(" ");
        push_number(&mut out, self.frame.x as u128 + self.frame.w as u128);
        out.append(" ");
        push_number(&mut out, self.frame.y as u128 + self.frame.h as u128);
        out.append("\" xmlns=\"http://www.w3.org/2000/svg\">\n");
        assert(out@ =~= head_onto(Seq::empty(), self.frame));
        let mut i: usize = 0;
        while i < self.items.len()
            invariant
                0 <= i <= self.items.len(),
                out@ == paths_onto(head_onto(Seq::empty(), self.frame), self.items@, i as int),
            decreases self.items.len() - i,
        {
            self.items[i].write(&mut out);
            out.append("\n");
            i = i + 1;
        }
        out.append("</svg>");
        out
    }
}

} // verus!
