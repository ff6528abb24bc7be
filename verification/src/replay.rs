//! What is written down of a scene is read back as it was.

use vstd::prelude::*;
use vstd::string::StringSliceAdditionalSpecFns;
use crate::color::Color;
use crate::frame::Frame;
use crate::log::{
    color_at, coordinate_at, count_at, disc_at, frame_at, halfplane_at, hash_at, pos_at,
    recipe_at, recipe_view, salt_at, salt_item_at, sawtooth_at, scene_of, shape_at, shape_view,
    shapes_at, shapes_view, size_at, spiral_at, stripe_at, triangle_at, wave_at, whole_at,
    with_color, with_color_item, with_frame, with_int, with_pos, with_salt_item,
    with_salt_items, with_shape, with_shapes, Logger,
};
use crate::pos::Pos;
use crate::salt::SaltItem;
use crate::scene::{
    shapes_wf, ColorItem, Contains, Disc, HalfPlane, Sawtooth, Shape, Spiral, Stripe, Triangle,
    Wave,
};
use crate::text::{digit, digits, is_digit, value_of, word_end};

verus! {

/// The characters of a text as bytes.
pub open spec fn bytes(t: Seq<char>) -> Seq<u8> {
    Seq::new(t.len(), |i: int| t[i] as u8)
}

/// The text holds what was written, from the place `at` on.
pub open spec fn starts(text: Seq<u8>, at: int, written: Seq<char>) -> bool {
    &&& 0 <= at
    &&& at + written.len() <= text.len()
    &&& forall|i: int| 0 <= i < written.len() ==> text[at + i] == (#[trigger] written[i]) as u8
}

/// A text that holds what was written holds each part of it.
pub proof fn lemma_starts_split(text: Seq<u8>, at: int, first: Seq<char>, second: Seq<char>)
    requires
        starts(text, at, first + second),
    ensures
        starts(text, at, first),
        starts(text, at + first.len(), second),
{
    let both = first + second;
    assert forall|i: int| 0 <= i < first.len() implies text[at + i] == (#[trigger] first[i]) as u8 by {
        assert(both[i] == first[i]);
    }
    assert forall|i: int| 0 <= i < second.len() implies text[at + first.len() + i] == (
    #[trigger] second[i]) as u8 by {
        assert(both[first.len() + i] == second[i]);
    }
}

/// The value of a number depends on the digits that are read alone.
proof fn lemma_value_prefix(s: Seq<u8>, t: Seq<u8>, n: int)
    requires
        0 <= n <= s.len(),
        n <= t.len(),
        forall|i: int| 0 <= i < n ==> s[i] == t[i],
    ensures
        value_of(s, n) == value_of(t, n),
    decreases n,
{
    if n > 0 {
        lemma_value_prefix(s, t, n - 1);
    }
}

/// The digits of a number are digits, and spell the number.
pub proof fn lemma_digits(n: nat)
    ensures
        digits(n).len() >= 1,
        forall|i: int| 0 <= i < digits(n).len() ==> is_digit(#[trigger] bytes(digits(n))[i]),
        value_of(bytes(digits(n)), digits(n).len() as int) == n,
    decreases n,
{
    let d = digits(n);
    if n < 10 {
        assert(d.len() == 1);
        assert(bytes(d)[0] == 48 + n);
        assert(value_of(bytes(d), 0) == 0);
    } else {
        lemma_digits(n / 10);
        let before = digits(n / 10);
        assert(d == before.push(digit((n % 10) as int)));
        assert forall|i: int| 0 <= i < d.len() implies is_digit(#[trigger] bytes(d)[i]) by {
            if i < before.len() {
                assert(bytes(d)[i] == bytes(before)[i]);
            }
        }
        lemma_value_prefix(bytes(d), bytes(before), before.len() as int);
        assert(bytes(d)[d.len() - 1] == 48 + n % 10);
    }
}

/// The end of a word lies between its start and the end of the text.
proof fn lemma_word_end_within(text: Seq<u8>, from: int)
    requires
        0 <= from <= text.len(),
    ensures
        from <= word_end(text, from, 32) <= text.len(),
    decreases text.len() - from,
{
    if from < text.len() && text[from] != 32 {
        lemma_word_end_within(text, from + 1);
    }
}

/// A word ends where the first space stands.
proof fn lemma_word_ends(text: Seq<u8>, from: int, to: int)
    requires
        0 <= from <= to < text.len(),
        forall|k: int| from <= k < to ==> text[k] != 32,
        text[to] == 32,
    ensures
        word_end(text, from, 32) == to,
    decreases to - from,
{
    if from < to {
        lemma_word_ends(text, from + 1, to);
    }
}

/// A whole number that was written is read as it was.
pub proof fn lemma_int_reads(text: Seq<u8>, at: int, v: int, max: nat)
    requires
        starts(text, at, with_int(Seq::empty(), v)),
        -max <= v <= max,
    ensures
        whole_at(text, at, max) == Some((v, at + with_int(Seq::empty(), v).len())),
{
    reveal(with_int);
    reveal_strlit(" ");
    let written = with_int(Seq::empty(), v);
    let m: nat = if v < 0 {
        (-v) as nat
    } else {
        v as nat
    };
    let d = digits(m);
    lemma_digits(m);
    let sign: Seq<char> = if v < 0 {
        seq!['-']
    } else {
        Seq::empty()
    };
    assert(written =~= sign + d + seq![' ']);
    let to = at + sign.len() + d.len();
    assert forall|k: int| at <= k < to implies text[k] != 32 by {
        assert(text[k] == written[k - at] as u8);
        if k - at >= sign.len() {
            assert(written[k - at] == d[k - at - sign.len()]);
            assert(is_digit(bytes(d)[k - at - sign.len()]));
        }
    }
    assert(text[to] == written[to - at] as u8);
    lemma_word_ends(text, at, to);
    let w = text.subrange(at, to);
    let number = w.subrange(sign.len() as int, w.len() as int);
    assert(number =~= bytes(d)) by {
        assert forall|i: int| 0 <= i < d.len() implies number[i] == bytes(d)[i] by {
            assert(text[at + sign.len() + i] == written[sign.len() + i] as u8);
        }
    }
    if v < 0 {
        assert(w[0] == written[0] as u8);
    } else {
        assert(w =~= number);
        assert(is_digit(bytes(d)[0]));
    }
}

/// Writing a number behind a text leaves the text as it was.
pub proof fn lemma_onto_int(acc: Seq<char>, v: int)
    ensures
        with_int(acc, v) == acc + with_int(Seq::empty(), v),
        with_int(Seq::empty(), v).len() >= 2,
{
    reveal(with_int);
    reveal_strlit(" ");
    let m: nat = if v < 0 {
        (-v) as nat
    } else {
        v as nat
    };
    lemma_digits(m);
    assert(with_int(acc, v) =~= acc + with_int(Seq::empty(), v));
}

/// Where the word `#` was written, it is found.
pub proof fn lemma_hash_reads(text: Seq<u8>, at: int)
    requires
        starts(text, at, "# "@),
    ensures
        hash_at(text, at) == Some(at + 2),
{
    reveal_strlit("# ");
    let written = "# "@;
    assert(text[at] == written[0] as u8);
    assert(text[at + 1] == written[1] as u8);
    lemma_word_ends(text, at, at + 1);
    assert(text.subrange(at, at + 1) =~= seq![35u8]);
}

/// Where a number was written, no `#` is found.
pub proof fn lemma_no_hash(text: Seq<u8>, at: int, v: int, rest: Seq<char>)
    requires
        starts(text, at, with_int(Seq::empty(), v) + rest),
    ensures
        hash_at(text, at) is None,
{
    reveal(with_int);
    reveal_strlit(" ");
    let written = with_int(Seq::empty(), v);
    let m: nat = if v < 0 {
        (-v) as nat
    } else {
        v as nat
    };
    lemma_digits(m);
    lemma_starts_split(text, at, written, rest);
    let sign: Seq<char> = if v < 0 {
        seq!['-']
    } else {
        Seq::empty()
    };
    assert(written =~= sign + digits(m) + seq![' ']);
    assert(text[at] == written[0] as u8);
    if v >= 0 {
        assert(written[0] == digits(m)[0]);
        assert(is_digit(bytes(digits(m))[0]));
    } else {
        assert(written[0] == '-');
    }
    assert(text[at] != 35);
    if hash_at(text, at) is Some {
        lemma_word_end_within(text, at);
        let w = text.subrange(at, word_end(text, at, 32));
        assert(w == seq![35u8]);
        assert(w.len() == 1);
        assert(w[0] == text[at]);
    }
}

/// A number of this kind that was written is read as it was.
pub proof fn lemma_coordinate_reads(text: Seq<u8>, at: int, v: i32)
    requires
        starts(text, at, with_int(Seq::empty(), v as int)),
    ensures
        coordinate_at(text, at) == Some((v, at + with_int(Seq::empty(), v as int).len())),
{
    lemma_int_reads(text, at, v as int, 0x8000_0000);
}

/// A number of this kind that was written is read as it was.
pub proof fn lemma_count_reads(text: Seq<u8>, at: int, v: u32)
    requires
        starts(text, at, with_int(Seq::empty(), v as int)),
    ensures
        count_at(text, at) == Some((v, at + with_int(Seq::empty(), v as int).len())),
{
    lemma_int_reads(text, at, v as int, 0xffff_ffff);
}

/// A number of this kind that was written is read as it was.
pub proof fn lemma_size_reads(text: Seq<u8>, at: int, v: usize)
    requires
        starts(text, at, with_int(Seq::empty(), v as int)),
    ensures
        size_at(text, at) == Some((v, at + with_int(Seq::empty(), v as int).len())),
{
    lemma_int_reads(text, at, v as int, usize::MAX as nat);
}

/// Writing behind a text leaves the text as it was.
pub proof fn lemma_onto_pos(acc: Seq<char>, x: Pos)
    ensures
        with_pos(acc, x) == acc + with_pos(Seq::empty(), x),
{
    reveal(with_pos);
    lemma_onto_int(acc, x.0 as int);
    lemma_onto_int(Seq::<char>::empty(), x.0 as int);
    lemma_onto_int(with_int(acc, x.0 as int), x.1 as int);
    lemma_onto_int(with_int(Seq::<char>::empty(), x.0 as int), x.1 as int);
    assert(with_pos(acc, x) =~= acc + with_pos(Seq::empty(), x));
}

/// What was written is read as it was.
pub proof fn lemma_pos_reads(text: Seq<u8>, at: int, x: Pos)
    requires
        starts(text, at, with_pos(Seq::empty(), x)),
    ensures
        pos_at(text, at) == Some((x, at + with_pos(Seq::empty(), x).len())),
{
    reveal(with_pos);
    reveal(pos_at);
    let p0 = Seq::<char>::empty();
    let p1 = with_int(p0, x.0 as int);
    lemma_onto_int(p0, x.0 as int);
    let p2 = with_int(p1, x.1 as int);
    lemma_onto_int(p1, x.1 as int);
    assert(with_pos(Seq::empty(), x) == p2);
    lemma_starts_split(text, at, p1, with_int(Seq::empty(), x.1 as int));
    lemma_starts_split(text, at, p0, with_int(Seq::empty(), x.0 as int));
    lemma_coordinate_reads(text, at + p0.len(), x.0);
    lemma_coordinate_reads(text, at + p1.len(), x.1);
}

/// Writing behind a text leaves the text as it was.
pub proof fn lemma_onto_color(acc: Seq<char>, x: Color)
    ensures
        with_color(acc, x) == acc + with_color(Seq::empty(), x),
{
    reveal(with_color);
    lemma_onto_int(acc, x.0 as int);
    lemma_onto_int(Seq::<char>::empty(), x.0 as int);
    lemma_onto_int(with_int(acc, x.0 as int), x.1 as int);
    lemma_onto_int(with_int(Seq::<char>::empty(), x.0 as int), x.1 as int);
    lemma_onto_int(with_int(with_int(acc, x.0 as int), x.1 as int), x.2 as int);
    lemma_onto_int(with_int(with_int(Seq::<char>::empty(), x.0 as int), x.1 as int), x.2 as int);
    assert(with_color(acc, x) =~= acc + with_color(Seq::empty(), x));
}

/// What was written is read as it was.
pub proof fn lemma_color_reads(text: Seq<u8>, at: int, x: Color)
    requires
        starts(text, at, with_color(Seq::empty(), x)),
    ensures
        color_at(text, at) == Some((x, at + with_color(Seq::empty(), x).len())),
{
    reveal(with_color);
    reveal(color_at);
    let p0 = Seq::<char>::empty();
    let p1 = with_int(p0, x.0 as int);
    lemma_onto_int(p0, x.0 as int);
    let p2 = with_int(p1, x.1 as int);
    lemma_onto_int(p1, x.1 as int);
    let p3 = with_int(p2, x.2 as int);
    lemma_onto_int(p2, x.2 as int);
    assert(with_color(Seq::empty(), x) == p3);
    lemma_starts_split(text, at, p2, with_int(Seq::empty(), x.2 as int));
    lemma_starts_split(text, at, p1, with_int(Seq::empty(), x.1 as int));
    lemma_starts_split(text, at, p0, with_int(Seq::empty(), x.0 as int));
    lemma_coordinate_reads(text, at + p0.len(), x.0);
    lemma_coordinate_reads(text, at + p1.len(), x.1);
    lemma_coordinate_reads(text, at + p2.len(), x.2);
}

/// Writing behind a text leaves the text as it was.
pub proof fn lemma_onto_salt_item(acc: Seq<char>, x: SaltItem)
    ensures
        with_salt_item(acc, x) == acc + with_salt_item(Seq::empty(), x),
{
    reveal(with_salt_item);
    lemma_onto_color(acc, x.color);
    lemma_onto_color(Seq::<char>::empty(), x.color);
    lemma_onto_int(with_color(acc, x.color), x.likeliness as int);
    lemma_onto_int(with_color(Seq::<char>::empty(), x.color), x.likeliness as int);
    lemma_onto_int(with_int(with_color(acc, x.color), x.likeliness as int), x.variability as int);
    lemma_onto_int(with_int(with_color(Seq::<char>::empty(), x.color), x.likeliness as int), x.variability as int);
    assert(with_salt_item(acc, x) =~= acc + with_salt_item(Seq::empty(), x));
}

/// What was written is read as it was.
pub proof fn lemma_salt_item_reads(text: Seq<u8>, at: int, x: SaltItem)
    requires
        starts(text, at, with_salt_item(Seq::empty(), x)),
    ensures
        salt_item_at(text, at) == Some((x, at + with_salt_item(Seq::empty(), x).len())),
{
    reveal(with_salt_item);
    reveal(salt_item_at);
    let p0 = Seq::<char>::empty();
    let p1 = with_color(p0, x.color);
    lemma_onto_color(p0, x.color);
    let p2 = with_int(p1, x.likeliness as int);
    lemma_onto_int(p1, x.likeliness as int);
    let p3 = with_int(p2, x.variability as int);
    lemma_onto_int(p2, x.variability as int);
    assert(with_salt_item(Seq::empty(), x) == p3);
    lemma_starts_split(text, at, p2, with_int(Seq::empty(), x.variability as int));
    lemma_starts_split(text, at, p1, with_int(Seq::empty(), x.likeliness as int));
    lemma_starts_split(text, at, p0, with_color(Seq::empty(), x.color));
    lemma_color_reads(text, at + p0.len(), x.color);
    lemma_count_reads(text, at + p1.len(), x.likeliness);
    lemma_count_reads(text, at + p2.len(), x.variability);
}

/// What is written of the salt items from item `k` on, and the `#` behind them.
pub open spec fn salt_rest(items: Seq<SaltItem>, k: int) -> Seq<char>
    decreases items.len() - k,
{
    if k < 0 || k >= items.len() {
        "# "@
    } else {
        with_salt_item(Seq::empty(), items[k]) + salt_rest(items, k + 1)
    }
}

/// The salt items are written one after the other.
proof fn lemma_salt_written(acc: Seq<char>, items: Seq<SaltItem>, k: int)
    requires
        0 <= k <= items.len(),
    ensures
        with_salt_items(acc, items, items.len() as int) + "# "@ == with_salt_items(acc, items, k)
            + salt_rest(items, k),
        salt_rest(items, k).len() >= items.len() - k + 2,
    decreases items.len() - k,
{
    reveal_strlit("# ");
    if k < items.len() {
        lemma_salt_written(acc, items, k + 1);
        lemma_onto_salt_item(with_salt_items(acc, items, k), items[k]);
        assert(with_salt_items(acc, items, k + 1) == with_salt_items(acc, items, k)
            + with_salt_item(Seq::empty(), items[k]));
        assert(with_salt_items(acc, items, k + 1) + salt_rest(items, k + 1) =~= with_salt_items(
            acc,
            items,
            k,
        ) + salt_rest(items, k));
        lemma_onto_int(Seq::empty(), items[k].color.0 as int);
        lemma_salt_item_head(items[k]);
    }
}

/// What is written of a salt item starts with the first channel of its colour.
proof fn lemma_salt_item_head(x: SaltItem)
    ensures
        with_salt_item(Seq::empty(), x) == with_int(Seq::empty(), x.color.0 as int)
            + with_salt_item(Seq::empty(), x).subrange(
            with_int(Seq::empty(), x.color.0 as int).len() as int,
            with_salt_item(Seq::empty(), x).len() as int,
        ),
        with_salt_item(Seq::empty(), x).len() >= with_int(Seq::empty(), x.color.0 as int).len(),
{
    reveal(with_salt_item);
    reveal(with_color);
    let h = with_int(Seq::empty(), x.color.0 as int);
    lemma_onto_int(h, x.color.1 as int);
    let c1 = with_int(h, x.color.1 as int);
    lemma_onto_int(c1, x.color.2 as int);
    let c2 = with_int(c1, x.color.2 as int);
    lemma_onto_int(c2, x.likeliness as int);
    let c3 = with_int(c2, x.likeliness as int);
    lemma_onto_int(c3, x.variability as int);
    let whole = with_salt_item(Seq::empty(), x);
    assert(whole == with_int(c3, x.variability as int));
    assert(whole =~= h + whole.subrange(h.len() as int, whole.len() as int));
}

/// The salt items that were written are read as they were.
pub proof fn lemma_salt_reads(text: Seq<u8>, at: int, items: Seq<SaltItem>, k: int, fuel: nat)
    requires
        0 <= k <= items.len(),
        starts(text, at, salt_rest(items, k)),
        fuel >= items.len() - k,
    ensures
        salt_at(text, at, items.take(k), fuel) == Some((items, at + salt_rest(items, k).len())),
    decreases items.len() - k,
{
    if k == items.len() {
        lemma_hash_reads(text, at);
        reveal_strlit("# ");
        assert(items.take(k) =~= items);
    } else {
        let item = with_salt_item(Seq::empty(), items[k]);
        lemma_salt_item_head(items[k]);
        let head = with_int(Seq::empty(), items[k].color.0 as int);
        let tail = item.subrange(head.len() as int, item.len() as int) + salt_rest(items, k + 1);
        assert(salt_rest(items, k) =~= head + tail);
        lemma_no_hash(text, at, items[k].color.0 as int, tail);
        lemma_starts_split(text, at, item, salt_rest(items, k + 1));
        lemma_salt_item_reads(text, at, items[k]);
        assert(items.take(k).push(items[k]) =~= items.take(k + 1));
        lemma_salt_reads(text, at + item.len(), items, k + 1, (fuel - 1) as nat);
    }
}

/// Writing a recipe behind a text leaves the text as it was.
pub proof fn lemma_onto_color_item(acc: Seq<char>, x: ColorItem)
    ensures
        with_color_item(acc, x) == acc + with_color_item(Seq::empty(), x),
{
    reveal(with_color_item);
    let n = x.salt@.len() as int;
    let e = Seq::<char>::empty();
    lemma_onto_color(acc, x.shade);
    lemma_onto_color(e, x.shade);
    lemma_onto_color(with_color(acc, x.shade), x.theme);
    lemma_onto_color(with_color(e, x.shade), x.theme);
    let a2 = with_color(with_color(acc, x.shade), x.theme);
    let e2 = with_color(with_color(e, x.shade), x.theme);
    lemma_salt_written(a2, x.salt@, 0);
    lemma_salt_written(e2, x.salt@, 0);
    let a3 = with_salt_items(a2, x.salt@, n) + "# "@;
    let e3 = with_salt_items(e2, x.salt@, n) + "# "@;
    assert(a3 =~= acc + e3);
    lemma_onto_int(a3, x.deviation as int);
    lemma_onto_int(e3, x.deviation as int);
    lemma_onto_int(with_int(a3, x.deviation as int), x.weight as int);
    lemma_onto_int(with_int(e3, x.deviation as int), x.weight as int);
    assert(with_color_item(acc, x) =~= acc + with_color_item(Seq::empty(), x));
}

/// A recipe that was written is read as it was.
pub proof fn lemma_recipe_reads(text: Seq<u8>, at: int, x: ColorItem)
    requires
        starts(text, at, with_color_item(Seq::empty(), x)),
        x.wf(),
    ensures
        recipe_at(text, at) == Some(
            (recipe_view(x), at + with_color_item(Seq::empty(), x).len()),
        ),
{
    reveal(with_color_item);
    reveal(recipe_at);
    reveal_strlit("# ");
    let n = x.salt@.len() as int;
    let p0 = Seq::<char>::empty();
    let p1 = with_color(p0, x.shade);
    lemma_onto_color(p0, x.shade);
    let p2 = with_color(p1, x.theme);
    lemma_onto_color(p1, x.theme);
    lemma_salt_written(p2, x.salt@, 0);
    let rest = salt_rest(x.salt@, 0);
    let p3 = p2 + rest;
    assert(p3 == with_salt_items(p2, x.salt@, n) + "# "@);
    let p4 = with_int(p3, x.deviation as int);
    lemma_onto_int(p3, x.deviation as int);
    let p5 = with_int(p4, x.weight as int);
    lemma_onto_int(p4, x.weight as int);
    assert(with_color_item(Seq::empty(), x) == p5 + "# "@);
    lemma_starts_split(text, at, p5, "# "@);
    lemma_starts_split(text, at, p4, with_int(Seq::empty(), x.weight as int));
    lemma_starts_split(text, at, p3, with_int(Seq::empty(), x.deviation as int));
    lemma_starts_split(text, at, p2, rest);
    lemma_starts_split(text, at, p1, with_color(Seq::empty(), x.theme));
    lemma_starts_split(text, at, p0, with_color(Seq::empty(), x.shade));
    lemma_color_reads(text, at, x.shade);
    lemma_color_reads(text, at + p1.len(), x.theme);
    assert(x.salt@.take(0) =~= Seq::empty());
    lemma_salt_reads(text, at + p2.len(), x.salt@, 0, text.len());
    lemma_count_reads(text, at + p3.len(), x.deviation);
    lemma_count_reads(text, at + p4.len(), x.weight);
    lemma_hash_reads(text, at + p5.len());
}

/// A frame that was written is read as it was.
pub proof fn lemma_frame_reads(text: Seq<u8>, at: int, x: Frame)
    requires
        starts(text, at, with_frame(Seq::empty(), x)),
    ensures
        frame_at(text, at) == Some((x, at + with_frame(Seq::empty(), x).len())),
{
    reveal(with_frame);
    reveal(frame_at);
    reveal_strlit("# ");
    let p0 = Seq::<char>::empty();
    let p1 = with_int(p0, x.x as int);
    lemma_onto_int(p0, x.x as int);
    let p2 = with_int(p1, x.y as int);
    lemma_onto_int(p1, x.y as int);
    let p3 = with_int(p2, x.w as int);
    lemma_onto_int(p2, x.w as int);
    let p4 = with_int(p3, x.h as int);
    lemma_onto_int(p3, x.h as int);
    assert(with_frame(Seq::empty(), x) == p4 + "# "@);
    lemma_starts_split(text, at, p4, "# "@);
    lemma_starts_split(text, at, p3, with_int(Seq::empty(), x.h as int));
    lemma_starts_split(text, at, p2, with_int(Seq::empty(), x.w as int));
    lemma_starts_split(text, at, p1, with_int(Seq::empty(), x.y as int));
    lemma_starts_split(text, at, p0, with_int(Seq::empty(), x.x as int));
    lemma_size_reads(text, at, x.x);
    lemma_size_reads(text, at + p1.len(), x.y);
    lemma_size_reads(text, at + p2.len(), x.w);
    lemma_size_reads(text, at + p3.len(), x.h);
    lemma_hash_reads(text, at + p4.len());
}

/// `acc` followed by what is written of a shape of this kind behind its name.
#[verifier::opaque]
pub open spec fn disc_written(acc: Seq<char>, s: Disc) -> Seq<char> {
    with_color_item(with_int(with_pos(acc, s.center), s.radius as int), s.color) + "# "@
}

/// What is written of a shape of this kind behind its name is read as it was.
pub proof fn lemma_disc_reads(text: Seq<u8>, at: int, s: Disc)
    requires
        starts(text, at, disc_written(Seq::empty(), s)),
        s.color.wf(),
    ensures
        disc_at(text, at) == Some(
            (shape_view(Shape::Disc(s)), at + disc_written(Seq::empty(), s).len()),
        ),
{
    reveal(disc_written);
    reveal(disc_at);
    reveal_strlit("# ");
    let p0 = Seq::<char>::empty();
    let p1 = with_pos(p0, s.center);
    lemma_onto_pos(p0, s.center);
    let p2 = with_int(p1, s.radius as int);
    lemma_onto_int(p1, s.radius as int);
    let p3 = with_color_item(p2, s.color);
    lemma_onto_color_item(p2, s.color);
    assert(disc_written(Seq::empty(), s) == p3 + "# "@);
    lemma_starts_split(text, at, p3, "# "@);
    lemma_starts_split(text, at, p2, with_color_item(Seq::empty(), s.color));
    lemma_starts_split(text, at, p1, with_int(Seq::empty(), s.radius as int));
    lemma_starts_split(text, at, p0, with_pos(Seq::empty(), s.center));
    lemma_pos_reads(text, at + p0.len(), s.center);
    lemma_coordinate_reads(text, at + p1.len(), s.radius);
    lemma_recipe_reads(text, at + p2.len(), s.color);
    lemma_hash_reads(text, at + p3.len());
}

/// Writing a shape of this kind behind a text leaves the text as it was.
pub proof fn lemma_onto_disc(acc: Seq<char>, s: Disc)
    ensures
        disc_written(acc, s) == acc + disc_written(Seq::empty(), s),
{
    reveal(disc_written);
    let a0 = acc;
    let e0 = Seq::<char>::empty();
    lemma_onto_pos(a0, s.center);
    lemma_onto_pos(e0, s.center);
    let a1 = with_pos(a0, s.center);
    let e1 = with_pos(e0, s.center);
    assert(a1 =~= acc + e1);
    lemma_onto_int(a1, s.radius as int);
    lemma_onto_int(e1, s.radius as int);
    let a2 = with_int(a1, s.radius as int);
    let e2 = with_int(e1, s.radius as int);
    assert(a2 =~= acc + e2);
    lemma_onto_color_item(a2, s.color);
    lemma_onto_color_item(e2, s.color);
    assert(disc_written(acc, s) =~= acc + disc_written(Seq::empty(), s));
}

/// `acc` followed by what is written of a shape of this kind behind its name.
#[verifier::opaque]
pub open spec fn halfplane_written(acc: Seq<char>, s: HalfPlane) -> Seq<char> {
    with_color_item(with_pos(with_pos(acc, s.limit), s.reference), s.color) + "# "@
}

/// What is written of a shape of this kind behind its name is read as it was.
pub proof fn lemma_halfplane_reads(text: Seq<u8>, at: int, s: HalfPlane)
    requires
        starts(text, at, halfplane_written(Seq::empty(), s)),
        s.color.wf(),
    ensures
        halfplane_at(text, at) == Some(
            (shape_view(Shape::HalfPlane(s)), at + halfplane_written(Seq::empty(), s).len()),
        ),
{
    reveal(halfplane_written);
    reveal(halfplane_at);
    reveal_strlit("# ");
    let p0 = Seq::<char>::empty();
    let p1 = with_pos(p0, s.limit);
    lemma_onto_pos(p0, s.limit);
    let p2 = with_pos(p1, s.reference);
    lemma_onto_pos(p1, s.reference);
    let p3 = with_color_item(p2, s.color);
    lemma_onto_color_item(p2, s.color);
    assert(halfplane_written(Seq::empty(), s) == p3 + "# "@);
    lemma_starts_split(text, at, p3, "# "@);
    lemma_starts_split(text, at, p2, with_color_item(Seq::empty(), s.color));
    lemma_starts_split(text, at, p1, with_pos(Seq::empty(), s.reference));
    lemma_starts_split(text, at, p0, with_pos(Seq::empty(), s.limit));
    lemma_pos_reads(text, at + p0.len(), s.limit);
    lemma_pos_reads(text, at + p1.len(), s.reference);
    lemma_recipe_reads(text, at + p2.len(), s.color);
    lemma_hash_reads(text, at + p3.len());
}

/// Writing a shape of this kind behind a text leaves the text as it was.
pub proof fn lemma_onto_halfplane(acc: Seq<char>, s: HalfPlane)
    ensures
        halfplane_written(acc, s) == acc + halfplane_written(Seq::empty(), s),
{
    reveal(halfplane_written);
    let a0 = acc;
    let e0 = Seq::<char>::empty();
    lemma_onto_pos(a0, s.limit);
    lemma_onto_pos(e0, s.limit);
    let a1 = with_pos(a0, s.limit);
    let e1 = with_pos(e0, s.limit);
    assert(a1 =~= acc + e1);
    lemma_onto_pos(a1, s.reference);
    lemma_onto_pos(e1, s.reference);
    let a2 = with_pos(a1, s.reference);
    let e2 = with_pos(e1, s.reference);
    assert(a2 =~= acc + e2);
    lemma_onto_color_item(a2, s.color);
    lemma_onto_color_item(e2, s.color);
    assert(halfplane_written(acc, s) =~= acc + halfplane_written(Seq::empty(), s));
}

/// `acc` followed by what is written of a shape of this kind behind its name.
#[verifier::opaque]
pub open spec fn triangle_written(acc: Seq<char>, s: Triangle) -> Seq<char> {
    with_color_item(with_pos(with_pos(with_pos(acc, s.a), s.b), s.c), s.color) + "# "@
}

/// What is written of a shape of this kind behind its name is read as it was.
pub proof fn lemma_triangle_reads(text: Seq<u8>, at: int, s: Triangle)
    requires
        starts(text, at, triangle_written(Seq::empty(), s)),
        s.color.wf(),
    ensures
        triangle_at(text, at) == Some(
            (shape_view(Shape::Triangle(s)), at + triangle_written(Seq::empty(), s).len()),
        ),
{
    reveal(triangle_written);
    reveal(triangle_at);
    reveal_strlit("# ");
    let p0 = Seq::<char>::empty();
    let p1 = with_pos(p0, s.a);
    lemma_onto_pos(p0, s.a);
    let p2 = with_pos(p1, s.b);
    lemma_onto_pos(p1, s.b);
    let p3 = with_pos(p2, s.c);
    lemma_onto_pos(p2, s.c);
    let p4 = with_color_item(p3, s.color);
    lemma_onto_color_item(p3, s.color);
    assert(triangle_written(Seq::empty(), s) == p4 + "# "@);
    lemma_starts_split(text, at, p4, "# "@);
    lemma_starts_split(text, at, p3, with_color_item(Seq::empty(), s.color));
    lemma_starts_split(text, at, p2, with_pos(Seq::empty(), s.c));
    lemma_starts_split(text, at, p1, with_pos(Seq::empty(), s.b));
    lemma_starts_split(text, at, p0, with_pos(Seq::empty(), s.a));
    lemma_pos_reads(text, at + p0.len(), s.a);
    lemma_pos_reads(text, at + p1.len(), s.b);
    lemma_pos_reads(text, at + p2.len(), s.c);
    lemma_recipe_reads(text, at + p3.len(), s.color);
    lemma_hash_reads(text, at + p4.len());
}

/// Writing a shape of this kind behind a text leaves the text as it was.
pub proof fn lemma_onto_triangle(acc: Seq<char>, s: Triangle)
    ensures
        triangle_written(acc, s) == acc + triangle_written(Seq::empty(), s),
{
    reveal(triangle_written);
    let a0 = acc;
    let e0 = Seq::<char>::empty();
    lemma_onto_pos(a0, s.a);
    lemma_onto_pos(e0, s.a);
    let a1 = with_pos(a0, s.a);
    let e1 = with_pos(e0, s.a);
    assert(a1 =~= acc + e1);
    lemma_onto_pos(a1, s.b);
    lemma_onto_pos(e1, s.b);
    let a2 = with_pos(a1, s.b);
    let e2 = with_pos(e1, s.b);
    assert(a2 =~= acc + e2);
    lemma_onto_pos(a2, s.c);
    lemma_onto_pos(e2, s.c);
    let a3 = with_pos(a2, s.c);
    let e3 = with_pos(e2, s.c);
    assert(a3 =~= acc + e3);
    lemma_onto_color_item(a3, s.color);
    lemma_onto_color_item(e3, s.color);
    assert(triangle_written(acc, s) =~= acc + triangle_written(Seq::empty(), s));
}

/// `acc` followed by what is written of a shape of this kind behind its name.
#[verifier::opaque]
pub open spec fn spiral_written(acc: Seq<char>, s: Spiral) -> Seq<char> {
    with_color_item(with_int(with_int(with_pos(acc, s.center), s.width as int), s.tightness as int), s.color) + "# "@
}

/// What is written of a shape of this kind behind its name is read as it was.
pub proof fn lemma_spiral_reads(text: Seq<u8>, at: int, s: Spiral)
    requires
        starts(text, at, spiral_written(Seq::empty(), s)),
        s.color.wf(),
    ensures
        spiral_at(text, at) == Some(
            (shape_view(Shape::Spiral(s)), at + spiral_written(Seq::empty(), s).len()),
        ),
{
    reveal(spiral_written);
    reveal(spiral_at);
    reveal_strlit("# ");
    let p0 = Seq::<char>::empty();
    let p1 = with_pos(p0, s.center);
    lemma_onto_pos(p0, s.center);
    let p2 = with_int(p1, s.width as int);
    lemma_onto_int(p1, s.width as int);
    let p3 = with_int(p2, s.tightness as int);
    lemma_onto_int(p2, s.tightness as int);
    let p4 = with_color_item(p3, s.color);
    lemma_onto_color_item(p3, s.color);
    assert(spiral_written(Seq::empty(), s) == p4 + "# "@);
    lemma_starts_split(text, at, p4, "# "@);
    lemma_starts_split(text, at, p3, with_color_item(Seq::empty(), s.color));
    lemma_starts_split(text, at, p2, with_int(Seq::empty(), s.tightness as int));
    lemma_starts_split(text, at, p1, with_int(Seq::empty(), s.width as int));
    lemma_starts_split(text, at, p0, with_pos(Seq::empty(), s.center));
    lemma_pos_reads(text, at + p0.len(), s.center);
    lemma_coordinate_reads(text, at + p1.len(), s.width);
    lemma_coordinate_reads(text, at + p2.len(), s.tightness);
    lemma_recipe_reads(text, at + p3.len(), s.color);
    lemma_hash_reads(text, at + p4.len());
}

/// Writing a shape of this kind behind a text leaves the text as it was.
pub proof fn lemma_onto_spiral(acc: Seq<char>, s: Spiral)
    ensures
        spiral_written(acc, s) == acc + spiral_written(Seq::empty(), s),
{
    reveal(spiral_written);
    let a0 = acc;
    let e0 = Seq::<char>::empty();
    lemma_onto_pos(a0, s.center);
    lemma_onto_pos(e0, s.center);
    let a1 = with_pos(a0, s.center);
    let e1 = with_pos(e0, s.center);
    assert(a1 =~= acc + e1);
    lemma_onto_int(a1, s.width as int);
    lemma_onto_int(e1, s.width as int);
    let a2 = with_int(a1, s.width as int);
    let e2 = with_int(e1, s.width as int);
    assert(a2 =~= acc + e2);
    lemma_onto_int(a2, s.tightness as int);
    lemma_onto_int(e2, s.tightness as int);
    let a3 = with_int(a2, s.tightness as int);
    let e3 = with_int(e2, s.tightness as int);
    assert(a3 =~= acc + e3);
    lemma_onto_color_item(a3, s.color);
    lemma_onto_color_item(e3, s.color);
    assert(spiral_written(acc, s) =~= acc + spiral_written(Seq::empty(), s));
}

/// `acc` followed by what is written of a shape of this kind behind its name.
#[verifier::opaque]
pub open spec fn stripe_written(acc: Seq<char>, s: Stripe) -> Seq<char> {
    with_color_item(with_pos(with_pos(acc, s.limit), s.reference), s.color) + "# "@
}

/// What is written of a shape of this kind behind its name is read as it was.
pub proof fn lemma_stripe_reads(text: Seq<u8>, at: int, s: Stripe)
    requires
        starts(text, at, stripe_written(Seq::empty(), s)),
        s.color.wf(),
    ensures
        stripe_at(text, at) == Some(
            (shape_view(Shape::Stripe(s)), at + stripe_written(Seq::empty(), s).len()),
        ),
{
    reveal(stripe_written);
    reveal(stripe_at);
    reveal_strlit("# ");
    let p0 = Seq::<char>::empty();
    let p1 = with_pos(p0, s.limit);
    lemma_onto_pos(p0, s.limit);
    let p2 = with_pos(p1, s.reference);
    lemma_onto_pos(p1, s.reference);
    let p3 = with_color_item(p2, s.color);
    lemma_onto_color_item(p2, s.color);
    assert(stripe_written(Seq::empty(), s) == p3 + "# "@);
    lemma_starts_split(text, at, p3, "# "@);
    lemma_starts_split(text, at, p2, with_color_item(Seq::empty(), s.color));
    lemma_starts_split(text, at, p1, with_pos(Seq::empty(), s.reference));
    lemma_starts_split(text, at, p0, with_pos(Seq::empty(), s.limit));
    lemma_pos_reads(text, at + p0.len(), s.limit);
    lemma_pos_reads(text, at + p1.len(), s.reference);
    lemma_recipe_reads(text, at + p2.len(), s.color);
    lemma_hash_reads(text, at + p3.len());
}

/// Writing a shape of this kind behind a text leaves the text as it was.
pub proof fn lemma_onto_stripe(acc: Seq<char>, s: Stripe)
    ensures
        stripe_written(acc, s) == acc + stripe_written(Seq::empty(), s),
{
    reveal(stripe_written);
    let a0 = acc;
    let e0 = Seq::<char>::empty();
    lemma_onto_pos(a0, s.limit);
    lemma_onto_pos(e0, s.limit);
    let a1 = with_pos(a0, s.limit);
    let e1 = with_pos(e0, s.limit);
    assert(a1 =~= acc + e1);
    lemma_onto_pos(a1, s.reference);
    lemma_onto_pos(e1, s.reference);
    let a2 = with_pos(a1, s.reference);
    let e2 = with_pos(e1, s.reference);
    assert(a2 =~= acc + e2);
    lemma_onto_color_item(a2, s.color);
    lemma_onto_color_item(e2, s.color);
    assert(stripe_written(acc, s) =~= acc + stripe_written(Seq::empty(), s));
}

/// `acc` followed by what is written of a shape of this kind behind its name.
#[verifier::opaque]
pub open spec fn wave_written(acc: Seq<char>, s: Wave) -> Seq<char> {
    with_color_item(with_int(with_int(with_pos(with_pos(acc, s.limit), s.reference), s.amplitude as int), s.frequency as int), s.color) + "# "@
}

/// What is written of a shape of this kind behind its name is read as it was.
pub proof fn lemma_wave_reads(text: Seq<u8>, at: int, s: Wave)
    requires
        starts(text, at, wave_written(Seq::empty(), s)),
        s.color.wf(),
    ensures
        wave_at(text, at) == Some(
            (shape_view(Shape::Wave(s)), at + wave_written(Seq::empty(), s).len()),
        ),
{
    reveal(wave_written);
    reveal(wave_at);
    reveal_strlit("# ");
    let p0 = Seq::<char>::empty();
    let p1 = with_pos(p0, s.limit);
    lemma_onto_pos(p0, s.limit);
    let p2 = with_pos(p1, s.reference);
    lemma_onto_pos(p1, s.reference);
    let p3 = with_int(p2, s.amplitude as int);
    lemma_onto_int(p2, s.amplitude as int);
    let p4 = with_int(p3, s.frequency as int);
    lemma_onto_int(p3, s.frequency as int);
    let p5 = with_color_item(p4, s.color);
    lemma_onto_color_item(p4, s.color);
    assert(wave_written(Seq::empty(), s) == p5 + "# "@);
    lemma_starts_split(text, at, p5, "# "@);
    lemma_starts_split(text, at, p4, with_color_item(Seq::empty(), s.color));
    lemma_starts_split(text, at, p3, with_int(Seq::empty(), s.frequency as int));
    lemma_starts_split(text, at, p2, with_int(Seq::empty(), s.amplitude as int));
    lemma_starts_split(text, at, p1, with_pos(Seq::empty(), s.reference));
    lemma_starts_split(text, at, p0, with_pos(Seq::empty(), s.limit));
    lemma_pos_reads(text, at + p0.len(), s.limit);
    lemma_pos_reads(text, at + p1.len(), s.reference);
    lemma_coordinate_reads(text, at + p2.len(), s.amplitude);
    lemma_coordinate_reads(text, at + p3.len(), s.frequency);
    lemma_recipe_reads(text, at + p4.len(), s.color);
    lemma_hash_reads(text, at + p5.len());
}

/// Writing a shape of this kind behind a text leaves the text as it was.
pub proof fn lemma_onto_wave(acc: Seq<char>, s: Wave)
    ensures
        wave_written(acc, s) == acc + wave_written(Seq::empty(), s),
{
    reveal(wave_written);
    let a0 = acc;
    let e0 = Seq::<char>::empty();
    lemma_onto_pos(a0, s.limit);
    lemma_onto_pos(e0, s.limit);
    let a1 = with_pos(a0, s.limit);
    let e1 = with_pos(e0, s.limit);
    assert(a1 =~= acc + e1);
    lemma_onto_pos(a1, s.reference);
    lemma_onto_pos(e1, s.reference);
    let a2 = with_pos(a1, s.reference);
    let e2 = with_pos(e1, s.reference);
    assert(a2 =~= acc + e2);
    lemma_onto_int(a2, s.amplitude as int);
    lemma_onto_int(e2, s.amplitude as int);
    let a3 = with_int(a2, s.amplitude as int);
    let e3 = with_int(e2, s.amplitude as int);
    assert(a3 =~= acc + e3);
    lemma_onto_int(a3, s.frequency as int);
    lemma_onto_int(e3, s.frequency as int);
    let a4 = with_int(a3, s.frequency as int);
    let e4 = with_int(e3, s.frequency as int);
    assert(a4 =~= acc + e4);
    lemma_onto_color_item(a4, s.color);
    lemma_onto_color_item(e4, s.color);
    assert(wave_written(acc, s) =~= acc + wave_written(Seq::empty(), s));
}

/// `acc` followed by what is written of a shape of this kind behind its name.
#[verifier::opaque]
pub open spec fn sawtooth_written(acc: Seq<char>, s: Sawtooth) -> Seq<char> {
    with_color_item(with_int(with_int(with_pos(with_pos(acc, s.limit), s.reference), s.amplitude as int), s.frequency as int), s.color) + "# "@
}

/// What is written of a shape of this kind behind its name is read as it was.
pub proof fn lemma_sawtooth_reads(text: Seq<u8>, at: int, s: Sawtooth)
    requires
        starts(text, at, sawtooth_written(Seq::empty(), s)),
        s.color.wf(),
    ensures
        sawtooth_at(text, at) == Some(
            (shape_view(Shape::Sawtooth(s)), at + sawtooth_written(Seq::empty(), s).len()),
        ),
{
    reveal(sawtooth_written);
    reveal(sawtooth_at);
    reveal_strlit("# ");
    let p0 = Seq::<char>::empty();
    let p1 = with_pos(p0, s.limit);
    lemma_onto_pos(p0, s.limit);
    let p2 = with_pos(p1, s.reference);
    lemma_onto_pos(p1, s.reference);
    let p3 = with_int(p2, s.amplitude as int);
    lemma_onto_int(p2, s.amplitude as int);
    let p4 = with_int(p3, s.frequency as int);
    lemma_onto_int(p3, s.frequency as int);
    let p5 = with_color_item(p4, s.color);
    lemma_onto_color_item(p4, s.color);
    assert(sawtooth_written(Seq::empty(), s) == p5 + "# "@);
    lemma_starts_split(text, at, p5, "# "@);
    lemma_starts_split(text, at, p4, with_color_item(Seq::empty(), s.color));
    lemma_starts_split(text, at, p3, with_int(Seq::empty(), s.frequency as int));
    lemma_starts_split(text, at, p2, with_int(Seq::empty(), s.amplitude as int));
    lemma_starts_split(text, at, p1, with_pos(Seq::empty(), s.reference));
    lemma_starts_split(text, at, p0, with_pos(Seq::empty(), s.limit));
    lemma_pos_reads(text, at + p0.len(), s.limit);
    lemma_pos_reads(text, at + p1.len(), s.reference);
    lemma_coordinate_reads(text, at + p2.len(), s.amplitude);
    lemma_coordinate_reads(text, at + p3.len(), s.frequency);
    lemma_recipe_reads(text, at + p4.len(), s.color);
    lemma_hash_reads(text, at + p5.len());
}

/// Writing a shape of this kind behind a text leaves the text as it was.
pub proof fn lemma_onto_sawtooth(acc: Seq<char>, s: Sawtooth)
    ensures
        sawtooth_written(acc, s) == acc + sawtooth_written(Seq::empty(), s),
{
    reveal(sawtooth_written);
    let a0 = acc;
    let e0 = Seq::<char>::empty();
    lemma_onto_pos(a0, s.limit);
    lemma_onto_pos(e0, s.limit);
    let a1 = with_pos(a0, s.limit);
    let e1 = with_pos(e0, s.limit);
    assert(a1 =~= acc + e1);
    lemma_onto_pos(a1, s.reference);
    lemma_onto_pos(e1, s.reference);
    let a2 = with_pos(a1, s.reference);
    let e2 = with_pos(e1, s.reference);
    assert(a2 =~= acc + e2);
    lemma_onto_int(a2, s.amplitude as int);
    lemma_onto_int(e2, s.amplitude as int);
    let a3 = with_int(a2, s.amplitude as int);
    let e3 = with_int(e2, s.amplitude as int);
    assert(a3 =~= acc + e3);
    lemma_onto_int(a3, s.frequency as int);
    lemma_onto_int(e3, s.frequency as int);
    let a4 = with_int(a3, s.frequency as int);
    let e4 = with_int(e3, s.frequency as int);
    assert(a4 =~= acc + e4);
    lemma_onto_color_item(a4, s.color);
    lemma_onto_color_item(e4, s.color);
    assert(sawtooth_written(acc, s) =~= acc + sawtooth_written(Seq::empty(), s));
}

/// A word that was written before a space is read as it was.
proof fn lemma_word_reads(text: Seq<u8>, at: int, name: Seq<char>)
    requires
        starts(text, at, name + seq![' ']),
        name.len() > 0,
        forall|i: int| 0 <= i < name.len() ==> (#[trigger] name[i]) as u8 != 32,
    ensures
        crate::log::word_at(text, at) == Some(bytes(name)),
        crate::log::after(text, at) == at + name.len() + 1,
{
    let written = name + seq![' '];
    assert forall|k: int| at <= k < at + name.len() implies text[k] != 32 by {
        assert(text[k] == written[k - at] as u8);
        assert(written[k - at] == name[k - at]);
    }
    assert(text[at + name.len()] == written[name.len() as int] as u8);
    lemma_word_ends(text, at, at + name.len());
    assert(text.subrange(at, at + name.len()) =~= bytes(name)) by {
        assert forall|i: int| 0 <= i < name.len() implies text[at + i] == bytes(name)[i] by {
            assert(text[at + i] == written[i] as u8);
        }
    }
}

/// What is written of a shape of this kind: its name, and what it holds.
pub proof fn lemma_disc_named(acc: Seq<char>, s: Disc)
    ensures
        with_shape(acc, Shape::Disc(s)) == acc + ("Disc "@ + disc_written(Seq::empty(), s)),
{
    reveal(with_shape);
    reveal(disc_written);
    lemma_onto_disc(acc + "Disc "@, s);
    assert((acc + "Disc "@) + disc_written(Seq::empty(), s) =~= acc + ("Disc "@ + disc_written(
        Seq::empty(),
        s,
    )));
}

/// A shape of this kind that was written is read as it was.
pub proof fn lemma_disc_shape_reads(text: Seq<u8>, at: int, s: Disc)
    requires
        starts(text, at, with_shape(Seq::empty(), Shape::Disc(s))),
        s.color.wf(),
    ensures
        shape_at(text, at) == Some(
            (
                shape_view(Shape::Disc(s)),
                at + with_shape(Seq::empty(), Shape::Disc(s)).len(),
            ),
        ),
{
    broadcast use vstd::string::is_ascii_spec_bytes;

    reveal(shape_at);
    reveal_strlit("Disc ");
    reveal_strlit("Disc");
    assert(vstd::string::is_ascii("Disc"));
    assert("Disc".spec_bytes() =~= bytes("Disc"@));
    lemma_disc_named(Seq::empty(), s);
    let body = disc_written(Seq::empty(), s);
    assert(with_shape(Seq::empty(), Shape::Disc(s)) =~= "Disc "@ + body);
    assert("Disc "@ =~= "Disc"@ + seq![' ']);
    lemma_starts_split(text, at, "Disc "@, body);
    lemma_word_reads(text, at, "Disc"@);
    lemma_disc_reads(text, at + "Disc "@.len(), s);
}

/// What is written of a shape of this kind: its name, and what it holds.
pub proof fn lemma_halfplane_named(acc: Seq<char>, s: HalfPlane)
    ensures
        with_shape(acc, Shape::HalfPlane(s)) == acc + ("HalfPlane "@ + halfplane_written(Seq::empty(), s)),
{
    reveal(with_shape);
    reveal(halfplane_written);
    lemma_onto_halfplane(acc + "HalfPlane "@, s);
    assert((acc + "HalfPlane "@) + halfplane_written(Seq::empty(), s) =~= acc + ("HalfPlane "@ + halfplane_written(
        Seq::empty(),
        s,
    )));
}

/// A shape of this kind that was written is read as it was.
pub proof fn lemma_halfplane_shape_reads(text: Seq<u8>, at: int, s: HalfPlane)
    requires
        starts(text, at, with_shape(Seq::empty(), Shape::HalfPlane(s))),
        s.color.wf(),
    ensures
        shape_at(text, at) == Some(
            (
                shape_view(Shape::HalfPlane(s)),
                at + with_shape(Seq::empty(), Shape::HalfPlane(s)).len(),
            ),
        ),
{
    broadcast use vstd::string::is_ascii_spec_bytes;

    reveal(shape_at);
    reveal_strlit("HalfPlane ");
    reveal_strlit("Disc");
    assert(vstd::string::is_ascii("Disc"));
    assert("Disc".spec_bytes() =~= bytes("Disc"@));
    reveal_strlit("HalfPlane");
    assert(vstd::string::is_ascii("HalfPlane"));
    assert("HalfPlane".spec_bytes() =~= bytes("HalfPlane"@));
    lemma_halfplane_named(Seq::empty(), s);
    let body = halfplane_written(Seq::empty(), s);
    assert(with_shape(Seq::empty(), Shape::HalfPlane(s)) =~= "HalfPlane "@ + body);
    assert("HalfPlane "@ =~= "HalfPlane"@ + seq![' ']);
    lemma_starts_split(text, at, "HalfPlane "@, body);
    lemma_word_reads(text, at, "HalfPlane"@);
    lemma_halfplane_reads(text, at + "HalfPlane "@.len(), s);
    assert(bytes("HalfPlane"@) != bytes("Disc"@)) by {
        if bytes("HalfPlane"@).len() == bytes("Disc"@).len() {
            assert(bytes("HalfPlane"@)[0] != bytes("Disc"@)[0] || bytes("HalfPlane"@)[1] != bytes(
                "Disc"@,
            )[1]);
        }
    }
}

/// What is written of a shape of this kind: its name, and what it holds.
pub proof fn lemma_triangle_named(acc: Seq<char>, s: Triangle)
    ensures
        with_shape(acc, Shape::Triangle(s)) == acc + ("Triangle "@ + triangle_written(Seq::empty(), s)),
{
    reveal(with_shape);
    reveal(triangle_written);
    lemma_onto_triangle(acc + "Triangle "@, s);
    assert((acc + "Triangle "@) + triangle_written(Seq::empty(), s) =~= acc + ("Triangle "@ + triangle_written(
        Seq::empty(),
        s,
    )));
}

/// A shape of this kind that was written is read as it was.
pub proof fn lemma_triangle_shape_reads(text: Seq<u8>, at: int, s: Triangle)
    requires
        starts(text, at, with_shape(Seq::empty(), Shape::Triangle(s))),
        s.color.wf(),
    ensures
        shape_at(text, at) == Some(
            (
                shape_view(Shape::Triangle(s)),
                at + with_shape(Seq::empty(), Shape::Triangle(s)).len(),
            ),
        ),
{
    broadcast use vstd::string::is_ascii_spec_bytes;

    reveal(shape_at);
    reveal_strlit("Triangle ");
    reveal_strlit("Disc");
    assert(vstd::string::is_ascii("Disc"));
    assert("Disc".spec_bytes() =~= bytes("Disc"@));
    reveal_strlit("HalfPlane");
    assert(vstd::string::is_ascii("HalfPlane"));
    assert("HalfPlane".spec_bytes() =~= bytes("HalfPlane"@));
    reveal_strlit("Triangle");
    assert(vstd::string::is_ascii("Triangle"));
    assert("Triangle".spec_bytes() =~= bytes("Triangle"@));
    lemma_triangle_named(Seq::empty(), s);
    let body = triangle_written(Seq::empty(), s);
    assert(with_shape(Seq::empty(), Shape::Triangle(s)) =~= "Triangle "@ + body);
    assert("Triangle "@ =~= "Triangle"@ + seq![' ']);
    lemma_starts_split(text, at, "Triangle "@, body);
    lemma_word_reads(text, at, "Triangle"@);
    lemma_triangle_reads(text, at + "Triangle "@.len(), s);
    assert(bytes("Triangle"@) != bytes("Disc"@)) by {
        if bytes("Triangle"@).len() == bytes("Disc"@).len() {
            assert(bytes("Triangle"@)[0] != bytes("Disc"@)[0] || bytes("Triangle"@)[1] != bytes(
                "Disc"@,
            )[1]);
        }
    }
    assert(bytes("Triangle"@) != bytes("HalfPlane"@)) by {
        if bytes("Triangle"@).len() == bytes("HalfPlane"@).len() {
            assert(bytes("Triangle"@)[0] != bytes("HalfPlane"@)[0] || bytes("Triangle"@)[1] != bytes(
                "HalfPlane"@,
            )[1]);
        }
    }
}

/// What is written of a shape of this kind: its name, and what it holds.
pub proof fn lemma_spiral_named(acc: Seq<char>, s: Spiral)
    ensures
        with_shape(acc, Shape::Spiral(s)) == acc + ("Spiral "@ + spiral_written(Seq::empty(), s)),
{
    reveal(with_shape);
    reveal(spiral_written);
    lemma_onto_spiral(acc + "Spiral "@, s);
    assert((acc + "Spiral "@) + spiral_written(Seq::empty(), s) =~= acc + ("Spiral "@ + spiral_written(
        Seq::empty(),
        s,
    )));
}

/// A shape of this kind that was written is read as it was.
pub proof fn lemma_spiral_shape_reads(text: Seq<u8>, at: int, s: Spiral)
    requires
        starts(text, at, with_shape(Seq::empty(), Shape::Spiral(s))),
        s.color.wf(),
    ensures
        shape_at(text, at) == Some(
            (
                shape_view(Shape::Spiral(s)),
                at + with_shape(Seq::empty(), Shape::Spiral(s)).len(),
            ),
        ),
{
    broadcast use vstd::string::is_ascii_spec_bytes;

    reveal(shape_at);
    reveal_strlit("Spiral ");
    reveal_strlit("Disc");
    assert(vstd::string::is_ascii("Disc"));
    assert("Disc".spec_bytes() =~= bytes("Disc"@));
    reveal_strlit("HalfPlane");
    assert(vstd::string::is_ascii("HalfPlane"));
    assert("HalfPlane".spec_bytes() =~= bytes("HalfPlane"@));
    reveal_strlit("Triangle");
    assert(vstd::string::is_ascii("Triangle"));
    assert("Triangle".spec_bytes() =~= bytes("Triangle"@));
    reveal_strlit("Spiral");
    assert(vstd::string::is_ascii("Spiral"));
    assert("Spiral".spec_bytes() =~= bytes("Spiral"@));
    lemma_spiral_named(Seq::empty(), s);
    let body = spiral_written(Seq::empty(), s);
    assert(with_shape(Seq::empty(), Shape::Spiral(s)) =~= "Spiral "@ + body);
    assert("Spiral "@ =~= "Spiral"@ + seq![' ']);
    lemma_starts_split(text, at, "Spiral "@, body);
    lemma_word_reads(text, at, "Spiral"@);
    lemma_spiral_reads(text, at + "Spiral "@.len(), s);
    assert(bytes("Spiral"@) != bytes("Disc"@)) by {
        if bytes("Spiral"@).len() == bytes("Disc"@).len() {
            assert(bytes("Spiral"@)[0] != bytes("Disc"@)[0] || bytes("Spiral"@)[1] != bytes(
                "Disc"@,
            )[1]);
        }
    }
    assert(bytes("Spiral"@) != bytes("HalfPlane"@)) by {
        if bytes("Spiral"@).len() == bytes("HalfPlane"@).len() {
            assert(bytes("Spiral"@)[0] != bytes("HalfPlane"@)[0] || bytes("Spiral"@)[1] != bytes(
                "HalfPlane"@,
            )[1]);
        }
    }
    assert(bytes("Spiral"@) != bytes("Triangle"@)) by {
        if bytes("Spiral"@).len() == bytes("Triangle"@).len() {
            assert(bytes("Spiral"@)[0] != bytes("Triangle"@)[0] || bytes("Spiral"@)[1] != bytes(
                "Triangle"@,
            )[1]);
        }
    }
}

/// What is written of a shape of this kind: its name, and what it holds.
pub proof fn lemma_stripe_named(acc: Seq<char>, s: Stripe)
    ensures
        with_shape(acc, Shape::Stripe(s)) == acc + ("Stripe "@ + stripe_written(Seq::empty(), s)),
{
    reveal(with_shape);
    reveal(stripe_written);
    lemma_onto_stripe(acc + "Stripe "@, s);
    assert((acc + "Stripe "@) + stripe_written(Seq::empty(), s) =~= acc + ("Stripe "@ + stripe_written(
        Seq::empty(),
        s,
    )));
}

/// A shape of this kind that was written is read as it was.
pub proof fn lemma_stripe_shape_reads(text: Seq<u8>, at: int, s: Stripe)
    requires
        starts(text, at, with_shape(Seq::empty(), Shape::Stripe(s))),
        s.color.wf(),
    ensures
        shape_at(text, at) == Some(
            (
                shape_view(Shape::Stripe(s)),
                at + with_shape(Seq::empty(), Shape::Stripe(s)).len(),
            ),
        ),
{
    broadcast use vstd::string::is_ascii_spec_bytes;

    reveal(shape_at);
    reveal_strlit("Stripe ");
    reveal_strlit("Disc");
    assert(vstd::string::is_ascii("Disc"));
    assert("Disc".spec_bytes() =~= bytes("Disc"@));
    reveal_strlit("HalfPlane");
    assert(vstd::string::is_ascii("HalfPlane"));
    assert("HalfPlane".spec_bytes() =~= bytes("HalfPlane"@));
    reveal_strlit("Triangle");
    assert(vstd::string::is_ascii("Triangle"));
    assert("Triangle".spec_bytes() =~= bytes("Triangle"@));
    reveal_strlit("Spiral");
    assert(vstd::string::is_ascii("Spiral"));
    assert("Spiral".spec_bytes() =~= bytes("Spiral"@));
    reveal_strlit("Stripe");
    assert(vstd::string::is_ascii("Stripe"));
    assert("Stripe".spec_bytes() =~= bytes("Stripe"@));
    lemma_stripe_named(Seq::empty(), s);
    let body = stripe_written(Seq::empty(), s);
    assert(with_shape(Seq::empty(), Shape::Stripe(s)) =~= "Stripe "@ + body);
    assert("Stripe "@ =~= "Stripe"@ + seq![' ']);
    lemma_starts_split(text, at, "Stripe "@, body);
    lemma_word_reads(text, at, "Stripe"@);
    lemma_stripe_reads(text, at + "Stripe "@.len(), s);
    assert(bytes("Stripe"@) != bytes("Disc"@)) by {
        if bytes("Stripe"@).len() == bytes("Disc"@).len() {
            assert(bytes("Stripe"@)[0] != bytes("Disc"@)[0] || bytes("Stripe"@)[1] != bytes(
                "Disc"@,
            )[1]);
        }
    }
    assert(bytes("Stripe"@) != bytes("HalfPlane"@)) by {
        if bytes("Stripe"@).len() == bytes("HalfPlane"@).len() {
            assert(bytes("Stripe"@)[0] != bytes("HalfPlane"@)[0] || bytes("Stripe"@)[1] != bytes(
                "HalfPlane"@,
            )[1]);
        }
    }
    assert(bytes("Stripe"@) != bytes("Triangle"@)) by {
        if bytes("Stripe"@).len() == bytes("Triangle"@).len() {
            assert(bytes("Stripe"@)[0] != bytes("Triangle"@)[0] || bytes("Stripe"@)[1] != bytes(
                "Triangle"@,
            )[1]);
        }
    }
    assert(bytes("Stripe"@) != bytes("Spiral"@)) by {
        if bytes("Stripe"@).len() == bytes("Spiral"@).len() {
            assert(bytes("Stripe"@)[0] != bytes("Spiral"@)[0] || bytes("Stripe"@)[1] != bytes(
                "Spiral"@,
            )[1]);
        }
    }
}

/// What is written of a shape of this kind: its name, and what it holds.
pub proof fn lemma_wave_named(acc: Seq<char>, s: Wave)
    ensures
        with_shape(acc, Shape::Wave(s)) == acc + ("Wave "@ + wave_written(Seq::empty(), s)),
{
    reveal(with_shape);
    reveal(wave_written);
    lemma_onto_wave(acc + "Wave "@, s);
    assert((acc + "Wave "@) + wave_written(Seq::empty(), s) =~= acc + ("Wave "@ + wave_written(
        Seq::empty(),
        s,
    )));
}

/// A shape of this kind that was written is read as it was.
pub proof fn lemma_wave_shape_reads(text: Seq<u8>, at: int, s: Wave)
    requires
        starts(text, at, with_shape(Seq::empty(), Shape::Wave(s))),
        s.color.wf(),
    ensures
        shape_at(text, at) == Some(
            (
                shape_view(Shape::Wave(s)),
                at + with_shape(Seq::empty(), Shape::Wave(s)).len(),
            ),
        ),
{
    broadcast use vstd::string::is_ascii_spec_bytes;

    reveal(shape_at);
    reveal_strlit("Wave ");
    reveal_strlit("Disc");
    assert(vstd::string::is_ascii("Disc"));
    assert("Disc".spec_bytes() =~= bytes("Disc"@));
    reveal_strlit("HalfPlane");
    assert(vstd::string::is_ascii("HalfPlane"));
    assert("HalfPlane".spec_bytes() =~= bytes("HalfPlane"@));
    reveal_strlit("Triangle");
    assert(vstd::string::is_ascii("Triangle"));
    assert("Triangle".spec_bytes() =~= bytes("Triangle"@));
    reveal_strlit("Spiral");
    assert(vstd::string::is_ascii("Spiral"));
    assert("Spiral".spec_bytes() =~= bytes("Spiral"@));
    reveal_strlit("Stripe");
    assert(vstd::string::is_ascii("Stripe"));
    assert("Stripe".spec_bytes() =~= bytes("Stripe"@));
    reveal_strlit("Wave");
    assert(vstd::string::is_ascii("Wave"));
    assert("Wave".spec_bytes() =~= bytes("Wave"@));
    lemma_wave_named(Seq::empty(), s);
    let body = wave_written(Seq::empty(), s);
    assert(with_shape(Seq::empty(), Shape::Wave(s)) =~= "Wave "@ + body);
    assert("Wave "@ =~= "Wave"@ + seq![' ']);
    lemma_starts_split(text, at, "Wave "@, body);
    lemma_word_reads(text, at, "Wave"@);
    lemma_wave_reads(text, at + "Wave "@.len(), s);
    assert(bytes("Wave"@) != bytes("Disc"@)) by {
        if bytes("Wave"@).len() == bytes("Disc"@).len() {
            assert(bytes("Wave"@)[0] != bytes("Disc"@)[0] || bytes("Wave"@)[1] != bytes(
                "Disc"@,
            )[1]);
        }
    }
    assert(bytes("Wave"@) != bytes("HalfPlane"@)) by {
        if bytes("Wave"@).len() == bytes("HalfPlane"@).len() {
            assert(bytes("Wave"@)[0] != bytes("HalfPlane"@)[0] || bytes("Wave"@)[1] != bytes(
                "HalfPlane"@,
            )[1]);
        }
    }
    assert(bytes("Wave"@) != bytes("Triangle"@)) by {
        if bytes("Wave"@).len() == bytes("Triangle"@).len() {
            assert(bytes("Wave"@)[0] != bytes("Triangle"@)[0] || bytes("Wave"@)[1] != bytes(
                "Triangle"@,
            )[1]);
        }
    }
    assert(bytes("Wave"@) != bytes("Spiral"@)) by {
        if bytes("Wave"@).len() == bytes("Spiral"@).len() {
            assert(bytes("Wave"@)[0] != bytes("Spiral"@)[0] || bytes("Wave"@)[1] != bytes(
                "Spiral"@,
            )[1]);
        }
    }
    assert(bytes("Wave"@) != bytes("Stripe"@)) by {
        if bytes("Wave"@).len() == bytes("Stripe"@).len() {
            assert(bytes("Wave"@)[0] != bytes("Stripe"@)[0] || bytes("Wave"@)[1] != bytes(
                "Stripe"@,
            )[1]);
        }
    }
}

/// What is written of a shape of this kind: its name, and what it holds.
pub proof fn lemma_sawtooth_named(acc: Seq<char>, s: Sawtooth)
    ensures
        with_shape(acc, Shape::Sawtooth(s)) == acc + ("Sawtooth "@ + sawtooth_written(Seq::empty(), s)),
{
    reveal(with_shape);
    reveal(sawtooth_written);
    lemma_onto_sawtooth(acc + "Sawtooth "@, s);
    assert((acc + "Sawtooth "@) + sawtooth_written(Seq::empty(), s) =~= acc + ("Sawtooth "@ + sawtooth_written(
        Seq::empty(),
        s,
    )));
}

/// A shape of this kind that was written is read as it was.
pub proof fn lemma_sawtooth_shape_reads(text: Seq<u8>, at: int, s: Sawtooth)
    requires
        starts(text, at, with_shape(Seq::empty(), Shape::Sawtooth(s))),
        s.color.wf(),
    ensures
        shape_at(text, at) == Some(
            (
                shape_view(Shape::Sawtooth(s)),
                at + with_shape(Seq::empty(), Shape::Sawtooth(s)).len(),
            ),
        ),
{
    broadcast use vstd::string::is_ascii_spec_bytes;

    reveal(shape_at);
    reveal_strlit("Sawtooth ");
    reveal_strlit("Disc");
    assert(vstd::string::is_ascii("Disc"));
    assert("Disc".spec_bytes() =~= bytes("Disc"@));
    reveal_strlit("HalfPlane");
    assert(vstd::string::is_ascii("HalfPlane"));
    assert("HalfPlane".spec_bytes() =~= bytes("HalfPlane"@));
    reveal_strlit("Triangle");
    assert(vstd::string::is_ascii("Triangle"));
    assert("Triangle".spec_bytes() =~= bytes("Triangle"@));
    reveal_strlit("Spiral");
    assert(vstd::string::is_ascii("Spiral"));
    assert("Spiral".spec_bytes() =~= bytes("Spiral"@));
    reveal_strlit("Stripe");
    assert(vstd::string::is_ascii("Stripe"));
    assert("Stripe".spec_bytes() =~= bytes("Stripe"@));
    reveal_strlit("Wave");
    assert(vstd::string::is_ascii("Wave"));
    assert("Wave".spec_bytes() =~= bytes("Wave"@));
    reveal_strlit("Sawtooth");
    assert(vstd::string::is_ascii("Sawtooth"));
    assert("Sawtooth".spec_bytes() =~= bytes("Sawtooth"@));
    lemma_sawtooth_named(Seq::empty(), s);
    let body = sawtooth_written(Seq::empty(), s);
    assert(with_shape(Seq::empty(), Shape::Sawtooth(s)) =~= "Sawtooth "@ + body);
    assert("Sawtooth "@ =~= "Sawtooth"@ + seq![' ']);
    lemma_starts_split(text, at, "Sawtooth "@, body);
    lemma_word_reads(text, at, "Sawtooth"@);
    lemma_sawtooth_reads(text, at + "Sawtooth "@.len(), s);
    assert(bytes("Sawtooth"@) != bytes("Disc"@)) by {
        if bytes("Sawtooth"@).len() == bytes("Disc"@).len() {
            assert(bytes("Sawtooth"@)[0] != bytes("Disc"@)[0] || bytes("Sawtooth"@)[1] != bytes(
                "Disc"@,
            )[1]);
        }
    }
    assert(bytes("Sawtooth"@) != bytes("HalfPlane"@)) by {
        if bytes("Sawtooth"@).len() == bytes("HalfPlane"@).len() {
            assert(bytes("Sawtooth"@)[0] != bytes("HalfPlane"@)[0] || bytes("Sawtooth"@)[1] != bytes(
                "HalfPlane"@,
            )[1]);
        }
    }
    assert(bytes("Sawtooth"@) != bytes("Triangle"@)) by {
        if bytes("Sawtooth"@).len() == bytes("Triangle"@).len() {
            assert(bytes("Sawtooth"@)[0] != bytes("Triangle"@)[0] || bytes("Sawtooth"@)[1] != bytes(
                "Triangle"@,
            )[1]);
        }
    }
    assert(bytes("Sawtooth"@) != bytes("Spiral"@)) by {
        if bytes("Sawtooth"@).len() == bytes("Spiral"@).len() {
            assert(bytes("Sawtooth"@)[0] != bytes("Spiral"@)[0] || bytes("Sawtooth"@)[1] != bytes(
                "Spiral"@,
            )[1]);
        }
    }
    assert(bytes("Sawtooth"@) != bytes("Stripe"@)) by {
        if bytes("Sawtooth"@).len() == bytes("Stripe"@).len() {
            assert(bytes("Sawtooth"@)[0] != bytes("Stripe"@)[0] || bytes("Sawtooth"@)[1] != bytes(
                "Stripe"@,
            )[1]);
        }
    }
    assert(bytes("Sawtooth"@) != bytes("Wave"@)) by {
        if bytes("Sawtooth"@).len() == bytes("Wave"@).len() {
            assert(bytes("Sawtooth"@)[0] != bytes("Wave"@)[0] || bytes("Sawtooth"@)[1] != bytes(
                "Wave"@,
            )[1]);
        }
    }
}

/// A shape that was written is read as it was.
pub proof fn lemma_shape_reads(text: Seq<u8>, at: int, shape: Shape)
    requires
        starts(text, at, with_shape(Seq::empty(), shape)),
        shape.paint().wf(),
    ensures
        shape_at(text, at) == Some(
            (shape_view(shape), at + with_shape(Seq::empty(), shape).len()),
        ),
{
    match shape {
        Shape::Disc(s) => lemma_disc_shape_reads(text, at, s),
        Shape::HalfPlane(s) => lemma_halfplane_shape_reads(text, at, s),
        Shape::Triangle(s) => lemma_triangle_shape_reads(text, at, s),
        Shape::Spiral(s) => lemma_spiral_shape_reads(text, at, s),
        Shape::Stripe(s) => lemma_stripe_shape_reads(text, at, s),
        Shape::Wave(s) => lemma_wave_shape_reads(text, at, s),
        Shape::Sawtooth(s) => lemma_sawtooth_shape_reads(text, at, s),
    }
}

/// What is written of the shapes from shape `k` on.
pub open spec fn shapes_rest(shapes: Seq<Shape>, k: int) -> Seq<char>
    decreases shapes.len() - k,
{
    if k < 0 || k >= shapes.len() {
        Seq::empty()
    } else {
        with_shape(Seq::empty(), shapes[k]) + shapes_rest(shapes, k + 1)
    }
}

/// Writing a shape behind a text leaves the text as it was.
pub proof fn lemma_onto_shape(acc: Seq<char>, shape: Shape)
    ensures
        with_shape(acc, shape) == acc + with_shape(Seq::empty(), shape),
{
    match shape {
        Shape::Disc(s) => {
            lemma_disc_named(acc, s);
            lemma_disc_named(Seq::empty(), s);
            lemma_after_nothing("Disc "@ + disc_written(Seq::empty(), s));
        },
        Shape::HalfPlane(s) => {
            lemma_halfplane_named(acc, s);
            lemma_halfplane_named(Seq::empty(), s);
            lemma_after_nothing("HalfPlane "@ + halfplane_written(Seq::empty(), s));
        },
        Shape::Triangle(s) => {
            lemma_triangle_named(acc, s);
            lemma_triangle_named(Seq::empty(), s);
            lemma_after_nothing("Triangle "@ + triangle_written(Seq::empty(), s));
        },
        Shape::Spiral(s) => {
            lemma_spiral_named(acc, s);
            lemma_spiral_named(Seq::empty(), s);
            lemma_after_nothing("Spiral "@ + spiral_written(Seq::empty(), s));
        },
        Shape::Stripe(s) => {
            lemma_stripe_named(acc, s);
            lemma_stripe_named(Seq::empty(), s);
            lemma_after_nothing("Stripe "@ + stripe_written(Seq::empty(), s));
        },
        Shape::Wave(s) => {
            lemma_wave_named(acc, s);
            lemma_wave_named(Seq::empty(), s);
            lemma_after_nothing("Wave "@ + wave_written(Seq::empty(), s));
        },
        Shape::Sawtooth(s) => {
            lemma_sawtooth_named(acc, s);
            lemma_sawtooth_named(Seq::empty(), s);
            lemma_after_nothing("Sawtooth "@ + sawtooth_written(Seq::empty(), s));
        },
    }
}

/// A text behind nothing is the text.
proof fn lemma_after_nothing(t: Seq<char>)
    ensures
        Seq::<char>::empty() + t == t,
{
    assert(Seq::<char>::empty() + t =~= t);
}

/// The shapes are written one after the other.
proof fn lemma_shapes_written(acc: Seq<char>, shapes: Seq<Shape>, k: int)
    requires
        0 <= k <= shapes.len(),
    ensures
        with_shapes(acc, shapes, shapes.len() as int) == with_shapes(acc, shapes, k) + shapes_rest(
            shapes,
            k,
        ),
    decreases shapes.len() - k,
{
    if k < shapes.len() {
        lemma_shapes_written(acc, shapes, k + 1);
        lemma_onto_shape(with_shapes(acc, shapes, k), shapes[k]);
        assert(with_shapes(acc, shapes, k + 1) == with_shapes(acc, shapes, k) + with_shape(
            Seq::empty(),
            shapes[k],
        ));
        assert(with_shapes(acc, shapes, k + 1) + shapes_rest(shapes, k + 1) =~= with_shapes(
            acc,
            shapes,
            k,
        ) + shapes_rest(shapes, k));
    } else {
        assert(with_shapes(acc, shapes, k) + shapes_rest(shapes, k) =~= with_shapes(acc, shapes, k));
    }
}

/// The shapes that were written are read as they were.
pub proof fn lemma_shapes_read(text: Seq<u8>, at: int, shapes: Seq<Shape>, k: int)
    requires
        0 <= k <= shapes.len(),
        starts(text, at, shapes_rest(shapes, k)),
        shapes_wf(shapes),
    ensures
        shapes_at(text, at, shapes_view(shapes.take(k)), (shapes.len() - k) as nat) == Some(
            shapes_view(shapes),
        ),
    decreases shapes.len() - k,
{
    if k == shapes.len() {
        assert(shapes.take(k) =~= shapes);
    } else {
        let one = with_shape(Seq::empty(), shapes[k]);
        lemma_starts_split(text, at, one, shapes_rest(shapes, k + 1));
        assert(shapes[k].paint().wf());
        lemma_shape_reads(text, at, shapes[k]);
        assert(shapes_view(shapes.take(k)).push(shape_view(shapes[k])) =~= shapes_view(
            shapes.take(k + 1),
        ));
        lemma_shapes_read(text, at + one.len(), shapes, k + 1);
    }
}

/// A scene that is written down is read back as it was: the text that
/// `to_text` gives stands for the frame, the background and the shapes of
/// the scene, by what they hold.
pub proof fn lemma_replay(l: Logger)
    requires
        l.bg.wf(),
        shapes_wf(l.objects@),
        l.objects@.len() <= usize::MAX,
    ensures
        scene_of(bytes(l.text())) == Some((l.frame, recipe_view(l.bg), shapes_view(l.objects@))),
{
    let text = bytes(l.text());
    let n = l.objects@.len();
    let p0 = Seq::<char>::empty();
    let p1 = with_frame(p0, l.frame);
    let p2 = with_color_item(p1, l.bg);
    lemma_onto_color_item(p1, l.bg);
    let p3 = with_int(p2, n as int);
    lemma_onto_int(p2, n as int);
    lemma_shapes_written(p3, l.objects@, 0);
    let rest = shapes_rest(l.objects@, 0);
    assert(l.text() == p3 + rest);
    assert(starts(text, 0, l.text()));
    lemma_starts_split(text, 0, p3, rest);
    lemma_starts_split(text, 0, p2, with_int(Seq::empty(), n as int));
    lemma_starts_split(text, 0, p1, with_color_item(Seq::empty(), l.bg));
    lemma_frame_reads(text, 0, l.frame);
    lemma_recipe_reads(text, p1.len() as int, l.bg);
    lemma_size_reads(text, p2.len() as int, n as usize);
    assert(l.objects@.take(0) =~= Seq::empty());
    assert(shapes_view(l.objects@.take(0)) =~= Seq::empty());
    lemma_shapes_read(text, p3.len() as int, l.objects@, 0);
}

} // verus!
