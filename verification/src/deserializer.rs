//! Reading the settings of a scene out of the values of a configuration.
//!
//! Texts are held as bytes. Lengths count hundredths of a canvas unit and
//! widths of patterns thousandths, as everywhere else.

use vstd::prelude::*;
use vstd::string::StringSliceAdditionalSpecFns;
use rand::rngs::ThreadRng;
use crate::cfg::{Pattern, SceneCfg, Tiling};
use crate::frame::Frame;
use crate::optionfmt::{
    ConfigData, ConfigEntry, ConfigGlobal, ConfigLines, ConfigPatterns, ConfigTilings, MetaConfig,
};
use crate::random::draw_below;
use crate::chooser::{lemma_weights_alone, push_all, pushed, total_weight, Chooser};
use crate::color::Color;
use crate::fixed::{clip, clip_wide};
use crate::salt::Salt;
use crate::text::{
    copy_range, find_word_end, hex_pair, number_of, parse_hex_pair, parse_number, same, word_end,
};
use crate::ThemeItem;

verus! {

/// A value of a configuration, as far as the settings of a scene need it.
pub enum Value {
    Text(Vec<u8>),
    Integer(i64),
    Array(Vec<Value>),
    Other,
}

/// Why a value of a configuration could not be used.
#[derive(Clone, Copy, Debug, PartialEq, Eq, Structural)]
pub enum ConfigError {
    /// Neither the name of a colour, nor `#` and six hexadecimal digits,
    /// nor three whole numbers.
    InvalidColor,
    /// Not a list of the items of a theme.
    InvalidTheme,
}

/// The colour that the name stands for among the first `n` entries of the
/// list: that of the last entry with that name.
pub open spec fn find_color(dict: Seq<(Seq<u8>, Color)>, name: Seq<u8>, n: int) -> Option<Color>
    decreases n,
{
    if n <= 0 {
        None
    } else if dict[n - 1].0 == name {
        Some(dict[n - 1].1)
    } else {
        find_color(dict, name, n - 1)
    }
}

/// The names and colours of a list.
pub open spec fn dict_view(dict: Seq<(Vec<u8>, Color)>) -> Seq<(Seq<u8>, Color)> {
    Seq::new(dict.len(), |i: int| (dict[i].0@, dict[i].1))
}

/// The colour that a code of `#` and six hexadecimal digits stands for.
pub open spec fn hex_color(s: Seq<u8>) -> Option<Color> {
    if s.len() == 7 && s[0] == 35 {
        match (hex_pair(s[1], s[2]), hex_pair(s[3], s[4]), hex_pair(s[5], s[6])) {
            (Some(r), Some(g), Some(b)) => Some(Color(r as i32, g as i32, b as i32)),
            _ => None,
        }
    } else {
        None
    }
}

/// The colour that a text stands for: a name of the list, or a code.
pub open spec fn named_color(s: Seq<u8>, dict: Seq<(Seq<u8>, Color)>) -> Option<Color> {
    match find_color(dict, s, dict.len() as int) {
        Some(c) => Some(c),
        None => hex_color(s),
    }
}

/// The colour that a value stands for: a text as above, or three whole numbers.
pub open spec fn color_of(val: Value, dict: Seq<(Seq<u8>, Color)>) -> Option<Color> {
    match val {
        Value::Text(s) => named_color(s@, dict),
        Value::Array(a) => if a@.len() == 3 {
            match (a@[0], a@[1], a@[2]) {
                (Value::Integer(r), Value::Integer(g), Value::Integer(b)) => Some(
                    Color(clip(r as int) as i32, clip(g as int) as i32, clip(b as int) as i32),
                ),
                _ => None,
            }
        } else {
            None
        },
        _ => None,
    }
}

/// Looks a name up in a list of colours.
pub fn lookup_color(dict: &Vec<(Vec<u8>, Color)>, name: &[u8]) -> (r: Option<Color>)
    ensures
        r == find_color(dict_view(dict@), name@, dict@.len() as int),
{
    let mut n: usize = dict.len();
    while n > 0
        invariant
            0 <= n <= dict@.len(),
            find_color(dict_view(dict@), name@, dict@.len() as int) == find_color(
                dict_view(dict@),
                name@,
                n as int,
            ),
        decreases n,
    {
        if same(dict[n - 1].0.as_slice(), name) {
            return Some(dict[n - 1].1);
        }
        n = n - 1;
    }
    None
}

/// Reads a colour out of a text: a name of the list, or a code.
pub fn color_from_text(s: &[u8], dict: &Vec<(Vec<u8>, Color)>) -> (r: Option<Color>)
    ensures
        r == named_color(s@, dict_view(dict@)),
{
    match lookup_color(dict, s) {
        Some(c) => Some(c),
        None => {
            if s.len() == 7 && s[0] == 35 {
                match (
                    parse_hex_pair(s[1], s[2]),
                    parse_hex_pair(s[3], s[4]),
                    parse_hex_pair(s[5], s[6]),
                ) {
                    (Some(r), Some(g), Some(b)) => Some(Color(r as i32, g as i32, b as i32)),
                    _ => None,
                }
            } else {
                None
            }
        },
    }
}

/// Reads a colour out of a value: the name of a colour of the list, a code
/// of `#` and six hexadecimal digits, or a list of three whole numbers.
pub fn color_from_value(val: &Value, dict: &Vec<(Vec<u8>, Color)>) -> (r: Result<Color, ConfigError>)
    ensures
        match r {
            Ok(c) => color_of(*val, dict_view(dict@)) == Some(c),
            Err(e) => e == ConfigError::InvalidColor && color_of(*val, dict_view(dict@)) is None,
        },
{
    match val {
        Value::Text(s) => match color_from_text(s.as_slice(), dict) {
            Some(c) => Ok(c),
            None => Err(ConfigError::InvalidColor),
        },
        Value::Array(a) => {
            if a.len() != 3 {
                return Err(ConfigError::InvalidColor);
            }
            match (&a[0], &a[1], &a[2]) {
                (Value::Integer(r), Value::Integer(g), Value::Integer(b)) => Ok(
                    Color(clip_wide(*r as i128), clip_wide(*g as i128), clip_wide(*b as i128)),
                ),
                _ => Err(ConfigError::InvalidColor),
            }
        },
        _ => Err(ConfigError::InvalidColor),
    }
}

/// What has been read of an item of a theme: its colour, its share among
/// the items, and the deviation and the weight that it asks for.
pub struct ItemState {
    pub color: Color,
    pub share: usize,
    pub deviation: Option<u32>,
    pub weight: Option<u32>,
}

/// The number behind the first character of a word, if it is one and not above `max`.
pub open spec fn number_behind(tok: Seq<u8>, max: nat) -> Option<nat> {
    number_of(tok.subrange(1, tok.len() as int), max)
}

/// An item after one more word of its description: `x` and a number set
/// its share, `~` and a number its deviation, `!` and a number up to a
/// hundred its weight, and the name or code of a colour its colour. A
/// share that is no positive number counts as one; other words that
/// cannot be read change nothing but what they were meant to set.
pub open spec fn read_word(st: ItemState, tok: Seq<u8>, dict: Seq<(Seq<u8>, Color)>) -> ItemState {
    if tok.len() == 0 {
        st
    } else if tok[0] == 120 {
        ItemState {
            share: match number_behind(tok, usize::MAX as nat) {
                Some(v) => if v > 0 {
                    v as usize
                } else {
                    1
                },
                None => 1,
            },
            ..st
        }
    } else if tok[0] == 126 {
        ItemState {
            deviation: match number_behind(tok, u32::MAX as nat) {
                Some(v) => Some(v as u32),
                None => None,
            },
            ..st
        }
    } else if tok[0] == 33 {
        ItemState {
            weight: match number_behind(tok, 100) {
                Some(v) => Some(v as u32),
                None => None,
            },
            ..st
        }
    } else {
        match named_color(tok, dict) {
            Some(c) => ItemState { color: c, ..st },
            None => st,
        }
    }
}

/// An item after the words of `s` from `from` on, which spaces part.
pub open spec fn read_words(s: Seq<u8>, from: int, st: ItemState, dict: Seq<(Seq<u8>, Color)>) -> ItemState
    decreases s.len() - from,
{
    if from < 0 || from > s.len() {
        st
    } else {
        let end = word_end(s, from, 32);
        let next = read_word(st, s.subrange(from, end), dict);
        if from <= end < s.len() {
            read_words(s, end + 1, next, dict)
        } else {
            next
        }
    }
}

/// An item of which nothing is known yet: black, with a share of one.
pub open spec fn blank_item() -> ItemState {
    ItemState { color: Color(0, 0, 0), share: 1, deviation: None, weight: None }
}

/// The item of a theme that a value describes.
pub open spec fn item_of(val: Value, dict: Seq<(Seq<u8>, Color)>) -> ItemState {
    match val {
        Value::Text(s) => read_words(s@, 0, blank_item(), dict),
        _ => blank_item(),
    }
}

fn read_one(st: ItemState, tok: &[u8], dict: &Vec<(Vec<u8>, Color)>) -> (r: ItemState)
    ensures
        r == read_word(st, tok@, dict_view(dict@)),
{
    if tok.len() == 0 {
        return st;
    }
    let rest: Vec<u8> = copy_range(tok, 1, tok.len());
    if tok[0] == 120 {
        let share: usize = match parse_number(rest.as_slice(), usize::MAX as u64) {
            Some(v) => if v > 0 {
                v as usize
            } else {
                1
            },
            None => 1,
        };
        ItemState { color: st.color, share, deviation: st.deviation, weight: st.weight }
    } else if tok[0] == 126 {
        let deviation: Option<u32> = match parse_number(rest.as_slice(), u32::MAX as u64) {
            Some(v) => Some(v as u32),
            None => None,
        };
        ItemState { color: st.color, share: st.share, deviation, weight: st.weight }
    } else if tok[0] == 33 {
        let weight: Option<u32> = match parse_number(rest.as_slice(), 100) {
            Some(v) => Some(v as u32),
            None => None,
        };
        ItemState { color: st.color, share: st.share, deviation: st.deviation, weight }
    } else {
        match color_from_text(tok, dict) {
            Some(c) => ItemState { color: c, share: st.share, deviation: st.deviation, weight: st.weight },
            None => st,
        }
    }
}

/// Reads an item of a theme out of a value: a text of words such as the
/// name of a colour, `x3` for its share, `~20` for its deviation and `!40`
/// for its weight.
pub fn theme_item_from_value(val: &Value, dict: &Vec<(Vec<u8>, Color)>) -> (r: ItemState)
    ensures
        r == item_of(*val, dict_view(dict@)),
        r.share > 0,
        r.weight matches Some(w) ==> w <= 100,
{
    let mut st = ItemState { color: Color(0, 0, 0), share: 1, deviation: None, weight: None };
    match val {
        Value::Text(text) => {
            let s: &[u8] = text.as_slice();
            let mut from: usize = 0;
            let mut done: bool = false;
            while !done
                invariant
                    0 <= from <= s@.len(),
                    st.share > 0,
                    st.weight matches Some(w) ==> w <= 100,
                    !done ==> item_of(*val, dict_view(dict@)) == read_words(
                        s@,
                        from as int,
                        st,
                        dict_view(dict@),
                    ),
                    done ==> item_of(*val, dict_view(dict@)) == st,
                    s@ == text@,
                    *val == Value::Text(*text),
                decreases s@.len() - from + (if done { 0int } else { 1int }),
            {
                let end: usize = find_word_end(s, from, 32);
                let tok: Vec<u8> = copy_range(s, from, end);
                st = read_one(st, tok.as_slice(), dict);
                if end < s.len() {
                    from = end + 1;
                } else {
                    done = true;
                }
            }
            st
        },
        _ => st,
    }
}

/// The text is one of three names.
pub open spec fn is_name(s: Seq<u8>, a: &str, b: &str, c: &str) -> bool {
    s == a.spec_bytes() || s == b.spec_bytes() || s == c.spec_bytes()
}

fn is_one_of(s: &[u8], a: &str, b: &str, c: &str) -> (r: bool)
    ensures
        r == is_name(s@, a, b, c),
{
    same(s, a.as_bytes()) || same(s, b.as_bytes()) || same(s, c.as_bytes())
}

/// The tiling that a name stands for.
pub open spec fn tiling_named(s: Seq<u8>) -> Option<Tiling> {
    if is_name(s, "H", "hex.", "hexagons") {
        Some(Tiling::Hexagons)
    } else if is_name(s, "T", "tri.", "triangles") {
        Some(Tiling::Triangles)
    } else if is_name(s, "H&T", "hex.&tri.", "hexagons&squares") {
        Some(Tiling::HexagonsAndTriangles)
    } else if is_name(s, "S&T", "squ.&tri.", "squares&triangles") {
        Some(Tiling::SquaresAndTriangles)
    } else if is_name(s, "R", "rho.", "rhombus") {
        Some(Tiling::Rhombus)
    } else if is_name(s, "D", "del.", "delaunay") {
        Some(Tiling::Delaunay)
    } else {
        None
    }
}

/// The pattern that a name stands for.
pub open spec fn pattern_named(s: Seq<u8>) -> Option<Pattern> {
    if is_name(s, "FC", "f-cir.", "free-circles") {
        Some(Pattern::FreeCircles)
    } else if is_name(s, "FT", "f-tri.", "free-triangles") {
        Some(Pattern::FreeTriangles)
    } else if is_name(s, "FR", "f-str.", "free-stripes") {
        Some(Pattern::FreeStripes)
    } else if is_name(s, "FP", "f-spi.", "free-spirals") {
        Some(Pattern::FreeSpirals)
    } else if is_name(s, "CC", "c-cir.", "concentric-circles") {
        Some(Pattern::ConcentricCircles)
    } else if is_name(s, "PS", "p-str.", "parallel-stripes") {
        Some(Pattern::ParallelStripes)
    } else if is_name(s, "CS", "c-str.", "crossed-stripes") {
        Some(Pattern::CrossedStripes)
    } else if is_name(s, "PW", "p-wav.", "parallel-waves") {
        Some(Pattern::ParallelWaves)
    } else if is_name(s, "PT", "p-saw.", "parallel-sawteeth") {
        Some(Pattern::ParallelSawteeth)
    } else {
        None
    }
}

/// Reads the name of a tiling.
pub fn tiling_from_name(s: &[u8]) -> (r: Option<Tiling>)
    ensures
        r == tiling_named(s@),
{
    if is_one_of(s, "H", "hex.", "hexagons") {
        Some(Tiling::Hexagons)
    } else if is_one_of(s, "T", "tri.", "triangles") {
        Some(Tiling::Triangles)
    } else if is_one_of(s, "H&T", "hex.&tri.", "hexagons&squares") {
        Some(Tiling::HexagonsAndTriangles)
    } else if is_one_of(s, "S&T", "squ.&tri.", "squares&triangles") {
        Some(Tiling::SquaresAndTriangles)
    } else if is_one_of(s, "R", "rho.", "rhombus") {
        Some(Tiling::Rhombus)
    } else if is_one_of(s, "D", "del.", "delaunay") {
        Some(Tiling::Delaunay)
    } else {
        None
    }
}

/// Reads the name of a pattern.
pub fn pattern_from_name(s: &[u8]) -> (r: Option<Pattern>)
    ensures
        r == pattern_named(s@),
{
    if is_one_of(s, "FC", "f-cir.", "free-circles") {
        Some(Pattern::FreeCircles)
    } else if is_one_of(s, "FT", "f-tri.", "free-triangles") {
        Some(Pattern::FreeTriangles)
    } else if is_one_of(s, "FR", "f-str.", "free-stripes") {
        Some(Pattern::FreeStripes)
    } else if is_one_of(s, "FP", "f-spi.", "free-spirals") {
        Some(Pattern::FreeSpirals)
    } else if is_one_of(s, "CC", "c-cir.", "concentric-circles") {
        Some(Pattern::ConcentricCircles)
    } else if is_one_of(s, "PS", "p-str.", "parallel-stripes") {
        Some(Pattern::ParallelStripes)
    } else if is_one_of(s, "CS", "c-str.", "crossed-stripes") {
        Some(Pattern::CrossedStripes)
    } else if is_one_of(s, "PW", "p-wav.", "parallel-waves") {
        Some(Pattern::ParallelWaves)
    } else if is_one_of(s, "PT", "p-saw.", "parallel-sawteeth") {
        Some(Pattern::ParallelSawteeth)
    } else {
        None
    }
}

/// The patterns and the tilings after the one that `s` names was added
/// with the weight `w`: a tiling if `s` names one, else a pattern if it
/// names one, else nothing.
pub open spec fn named_shape(
    patterns: Seq<(Pattern, usize)>,
    tilings: Seq<(Tiling, usize)>,
    s: Seq<u8>,
    w: usize,
) -> (Seq<(Pattern, usize)>, Seq<(Tiling, usize)>) {
    match tiling_named(s) {
        Some(t) => (patterns, pushed(tilings, total_weight(tilings), t, w)),
        None => match pattern_named(s) {
            Some(p) => (pushed(patterns, total_weight(patterns), p, w), tilings),
            None => (patterns, tilings),
        },
    }
}

/// Adds the tiling or the pattern that `s` names, with the weight `w`, to
/// the choosers. Says whether the name was known.
pub fn add_shape(s: &[u8], w: usize, tilings: &mut Chooser<Tiling>, patterns: &mut Chooser<Pattern>) -> (r:
    bool)
    requires
        old(tilings).wf(),
        old(patterns).wf(),
    ensures
        final(tilings).wf(),
        final(patterns).wf(),
        r == (tiling_named(s@) is Some || pattern_named(s@) is Some),
        (final(patterns)@, final(tilings)@) == named_shape(old(patterns)@, old(tilings)@, s@, w),
{
    match tiling_from_name(s) {
        Some(t) => {
            let _ = tilings.push(t, w);
            true
        },
        None => match pattern_from_name(s) {
            Some(p) => {
                let _ = patterns.push(p, w);
                true
            },
            None => false,
        },
    }
}

/// Index of the last of the first `n` entries of a list that has the given name.
pub open spec fn find_named<T>(list: Seq<(Seq<u8>, T)>, name: Seq<u8>, n: int) -> Option<int>
    decreases n,
{
    if n <= 0 {
        None
    } else if list[n - 1].0 == name {
        Some(n - 1)
    } else {
        find_named(list, name, n - 1)
    }
}

/// The names of a list, each with the place of its entry.
pub open spec fn names_of_list<T>(list: Seq<(Vec<u8>, T)>) -> Seq<(Seq<u8>, int)> {
    Seq::new(list.len(), |i: int| (list[i].0@, i))
}

/// Looks a name up in a list: the index of the last entry with that name.
pub fn lookup<T>(list: &Vec<(Vec<u8>, T)>, name: &[u8]) -> (r: Option<usize>)
    ensures
        match r {
            Some(i) => find_named(names_of_list(list@), name@, list@.len() as int) == Some(
                i as int,
            ) && i < list@.len(),
            None => find_named(names_of_list(list@), name@, list@.len() as int) is None,
        },
{
    let mut n: usize = list.len();
    while n > 0
        invariant
            0 <= n <= list@.len(),
            find_named(names_of_list(list@), name@, list@.len() as int) == find_named(
                names_of_list(list@),
                name@,
                n as int,
            ),
        decreases n,
    {
        if same(list[n - 1].0.as_slice(), name) {
            return Some(n - 1);
        }
        n = n - 1;
    }
    None
}

/// What an item of a theme holds: colour, deviation, weight and salt.
pub type ItemView = (Color, Option<u32>, Option<u32>, Seq<crate::salt::SaltItem>);

/// Named themes by what they hold.
pub type ThemeList = Seq<(Seq<u8>, Seq<(ItemView, usize)>)>;

/// Named combinations of shapes by what they hold.
pub type ShapeList = Seq<(Seq<u8>, (Seq<(Pattern, usize)>, Seq<(Tiling, usize)>))>;

/// Every weight that an item of the theme asks for is a number of hundredths.
pub open spec fn theme_ok(s: Seq<(ThemeItem, usize)>) -> bool {
    forall|i: int| 0 <= i < s.len() ==> ((#[trigger] s[i]).0.2 matches Some(w) ==> w <= 100)
}

/// Every theme of the list is well formed.
pub open spec fn themes_ok(themes: Seq<(Vec<u8>, Chooser<ThemeItem>)>) -> bool {
    forall|i: int|
        0 <= i < themes.len() ==> (#[trigger] themes[i]).1.wf() && theme_ok(themes[i].1@)
}

/// The items of a theme by what they hold, with their shares.
pub open spec fn theme_view(s: Seq<(ThemeItem, usize)>) -> Seq<(ItemView, usize)> {
    Seq::new(s.len(), |i: int| (s[i].0@, s[i].1))
}

/// The themes of a list by their names and by what they hold.
pub open spec fn themes_view(themes: Seq<(Vec<u8>, Chooser<ThemeItem>)>) -> ThemeList {
    Seq::new(themes.len(), |i: int| (themes[i].0@, theme_view(themes[i].1@)))
}

/// The combinations of a list by their names and by what they hold.
pub open spec fn shapes_view(shapes: Seq<(Vec<u8>, (Chooser<Pattern>, Chooser<Tiling>))>) -> ShapeList {
    Seq::new(shapes.len(), |i: int| (shapes[i].0@, (shapes[i].1.0@, shapes[i].1.1@)))
}

/// Where a name is found depends on the names of a list alone.
pub proof fn lemma_find_by_names<A, B>(s: Seq<(Seq<u8>, A)>, t: Seq<(Seq<u8>, B)>, name: Seq<u8>, n: int)
    requires
        0 <= n <= s.len(),
        n <= t.len(),
        forall|i: int| 0 <= i < n ==> (#[trigger] s[i]).0 == t[i].0,
    ensures
        find_named(s, name, n) == find_named(t, name, n),
        find_named(s, name, n) matches Some(k) ==> 0 <= k < n,
    decreases n,
{
    if n > 0 {
        assert(s[n - 1].0 == t[n - 1].0);
        lemma_find_by_names(s, t, name, n - 1);
    }
}

/// Adding an item to a theme adds what it holds to what the theme holds.
proof fn lemma_theme_pushed(list: Seq<(ThemeItem, usize)>, item: ThemeItem, w: usize)
    ensures
        theme_view(pushed(list, total_weight(list), item, w)) == pushed(
            theme_view(list),
            total_weight(theme_view(list)),
            item@,
            w,
        ),
{
    lemma_weights_alone(list, theme_view(list), list.len() as int);
    assert(theme_view(list.push((item, w))) =~= theme_view(list).push((item@, w)));
}

/// Adds copies of the items of `from` to `to`, as far as their weights fit.
fn copy_items(from: &Chooser<ThemeItem>, to: &mut Chooser<ThemeItem>)
    requires
        from.wf(),
        theme_ok(from@),
        old(to).wf(),
        theme_ok(old(to)@),
    ensures
        final(to).wf(),
        theme_ok(final(to)@),
        theme_view(final(to)@) == push_all(
            theme_view(old(to)@),
            theme_view(from@),
            from@.len() as int,
        ),
{
    let mut i: usize = 0;
    while i < from.len()
        invariant
            0 <= i <= from@.len(),
            from.wf(),
            theme_ok(from@),
            to.wf(),
            theme_ok(to@),
            theme_view(to@) == push_all(theme_view(old(to)@), theme_view(from@), i as int),
        decreases from@.len() - i,
    {
        let (item, w) = from.entry(i);
        let copy: ThemeItem = item.duplicate();
        assert(from@[i as int].0.2 matches Some(w) ==> w <= 100);
        proof {
            lemma_theme_pushed(to@, copy, w);
        }
        let ghost before = to@;
        let _ = to.push(copy, w);
        assert forall|k: int| 0 <= k < to@.len() implies ((#[trigger] to@[k]).0.2 matches Some(w)
            ==> w <= 100) by {
            if k < before.len() {
                assert(to@[k] == before[k]);
            }
        }
        i = i + 1;
    }
}

/// A copy of a theme.
pub fn copy_theme(theme: &Chooser<ThemeItem>) -> (r: Chooser<ThemeItem>)
    requires
        theme.wf(),
        theme_ok(theme@),
    ensures
        r.wf(),
        theme_ok(r@),
        theme_view(r@) == push_all(Seq::empty(), theme_view(theme@), theme@.len() as int),
{
    let mut r: Chooser<ThemeItem> = Chooser::default();
    assert(theme_view(r@) =~= Seq::empty());
    copy_items(theme, &mut r);
    r
}

/// The theme of a text that names one, if it does.
pub open spec fn theme_named(x: Value, themes: ThemeList) -> Option<int> {
    match x {
        Value::Text(s) => find_named(themes, s@, themes.len() as int),
        _ => None,
    }
}

/// A theme after one more entry of its list: the items of the theme that
/// the entry names, or the item that it describes; each as far as its
/// share fits.
pub open spec fn theme_step(
    before: Seq<(ItemView, usize)>,
    x: Value,
    colors: Seq<(Seq<u8>, Color)>,
    themes: ThemeList,
) -> Seq<(ItemView, usize)> {
    match theme_named(x, themes) {
        Some(k) => push_all(before, themes[k].1, themes[k].1.len() as int),
        None => pushed(
            before,
            total_weight(before),
            (
                item_of(x, colors).color,
                item_of(x, colors).deviation,
                item_of(x, colors).weight,
                Seq::empty(),
            ),
            item_of(x, colors).share,
        ),
    }
}

/// The theme that the first `n` entries of a list describe.
pub open spec fn theme_of(a: Seq<Value>, colors: Seq<(Seq<u8>, Color)>, themes: ThemeList, n: int) -> Seq<
    (ItemView, usize),
>
    decreases n,
{
    if n <= 0 {
        Seq::empty()
    } else {
        theme_step(theme_of(a, colors, themes, n - 1), a[n - 1], colors, themes)
    }
}

/// Reads a theme out of a value: a list whose entries are names of themes
/// that were read before, or items as `theme_item_from_value` reads them.
/// Items whose share does not fit any more are left out.
pub fn theme_from_value(
    v: &Value,
    colors: &Vec<(Vec<u8>, Color)>,
    themes: &Vec<(Vec<u8>, Chooser<ThemeItem>)>,
) -> (r: Result<Chooser<ThemeItem>, ConfigError>)
    requires
        themes_ok(themes@),
    ensures
        r is Ok <==> v is Array,
        r matches Ok(theme) ==> theme.wf() && theme_ok(theme@) && theme_view(theme@) == theme_of(
            v->Array_0@,
            dict_view(colors@),
            themes_view(themes@),
            v->Array_0@.len() as int,
        ),
        r matches Err(e) ==> e == ConfigError::InvalidTheme,
{
    match v {
        Value::Array(a) => {
            let mut theme: Chooser<ThemeItem> = Chooser::default();
            let mut i: usize = 0;
            assert(theme_view(theme@) =~= Seq::empty());
            while i < a.len()
                invariant
                    0 <= i <= a@.len(),
                    themes_ok(themes@),
                    theme.wf(),
                    theme_ok(theme@),
                    theme_view(theme@) == theme_of(
                        a@,
                        dict_view(colors@),
                        themes_view(themes@),
                        i as int,
                    ),
                decreases a@.len() - i,
            {
                let named: Option<usize> = match &a[i] {
                    Value::Text(s) => lookup(themes, s.as_slice()),
                    _ => None,
                };
                proof {
                    if a@[i as int] is Text {
                        lemma_find_by_names(
                            names_of_list(themes@),
                            themes_view(themes@),
                            a@[i as int]->Text_0@,
                            themes@.len() as int,
                        );
                    }
                }
                match named {
                    Some(k) => {
                        assert(themes@[k as int].1.wf() && theme_ok(themes@[k as int].1@));
                        assert(themes_view(themes@)[k as int].1 == theme_view(
                            themes@[k as int].1@,
                        ));
                        assert(theme_named(a@[i as int], themes_view(themes@)) == Some(k as int));
                        copy_items(&themes[k].1, &mut theme);
                    },
                    None => {
                        let item = theme_item_from_value(&a[i], colors);
                        let entry = ThemeItem(item.color, item.deviation, item.weight, Salt::none());
                        proof {
                            lemma_theme_pushed(theme@, entry, item.share);
                            assert(entry.3@ =~= Seq::empty());
                            assert(theme_named(a@[i as int], themes_view(themes@)) is None);
                        }
                        let ghost before = theme@;
                        let _ = theme.push(entry, item.share);
                        assert forall|k: int| 0 <= k < theme@.len() implies ((
                        #[trigger] theme@[k]).0.2 matches Some(w) ==> w <= 100) by {
                            if k < before.len() {
                                assert(theme@[k] == before[k]);
                            }
                        }
                    },
                }
                i = i + 1;
            }
            Ok(theme)
        },
        _ => Err(ConfigError::InvalidTheme),
    }
}

/// Adds the items of `from` to `to`, as far as their weights fit.
fn copy_plain<T: Copy + Clone>(from: &Chooser<T>, to: &mut Chooser<T>)
    requires
        from.wf(),
        old(to).wf(),
    ensures
        final(to).wf(),
        final(to)@ == push_all(old(to)@, from@, from@.len() as int),
{
    let mut i: usize = 0;
    while i < from.len()
        invariant
            0 <= i <= from@.len(),
            from.wf(),
            to.wf(),
            to@ == push_all(old(to)@, from@, i as int),
        decreases from@.len() - i,
    {
        let (item, w) = from.entry(i);
        let _ = to.push(*item, w);
        i = i + 1;
    }
}

/// The patterns and the tilings of every entry of the list are well formed.
pub open spec fn shapes_ok(shapes: Seq<(Vec<u8>, (Chooser<Pattern>, Chooser<Tiling>))>) -> bool {
    forall|i: int|
        0 <= i < shapes.len() ==> (#[trigger] shapes[i]).1.0.wf() && shapes[i].1.1.wf()
}

/// Patterns and tilings after one more entry of a list: those of the
/// combination that the entry names; else the pattern or the tiling that
/// it names, with the weight one, or with the weight behind the name if
/// that is positive; nothing for any other entry.
pub open spec fn shapes_step(
    before: (Seq<(Pattern, usize)>, Seq<(Tiling, usize)>),
    x: Value,
    shapes: ShapeList,
) -> (Seq<(Pattern, usize)>, Seq<(Tiling, usize)>) {
    match x {
        Value::Text(s) => match find_named(shapes, s@, shapes.len() as int) {
            Some(k) => (
                push_all(before.0, shapes[k].1.0, shapes[k].1.0.len() as int),
                push_all(before.1, shapes[k].1.1, shapes[k].1.1.len() as int),
            ),
            None => named_shape(before.0, before.1, s@, 1),
        },
        Value::Array(pair) => if pair@.len() == 2 {
            match (pair@[0], pair@[1]) {
                (Value::Text(s), Value::Integer(w)) => if 0 < w <= usize::MAX {
                    named_shape(before.0, before.1, s@, w as usize)
                } else {
                    before
                },
                _ => before,
            }
        } else {
            before
        },
        _ => before,
    }
}

/// The patterns and the tilings that the first `n` entries of a list describe.
pub open spec fn shapes_of(arr: Seq<Value>, shapes: ShapeList, n: int) -> (
    Seq<(Pattern, usize)>,
    Seq<(Tiling, usize)>,
)
    decreases n,
{
    if n <= 0 {
        (Seq::empty(), Seq::empty())
    } else {
        shapes_step(shapes_of(arr, shapes, n - 1), arr[n - 1], shapes)
    }
}

/// Reads a combination of patterns and tilings out of a value: a list
/// whose entries are names of combinations that were read before, names
/// of patterns and tilings, or pairs of such a name and a weight.
pub fn shapes_from_value(
    val: &Value,
    shapes: &Vec<(Vec<u8>, (Chooser<Pattern>, Chooser<Tiling>))>,
) -> (r: (Chooser<Pattern>, Chooser<Tiling>))
    requires
        shapes_ok(shapes@),
    ensures
        r.0.wf(),
        r.1.wf(),
        (r.0@, r.1@) == match *val {
            Value::Array(arr) => shapes_of(arr@, shapes_view(shapes@), arr@.len() as int),
            _ => (Seq::empty(), Seq::empty()),
        },
{
    let mut tilings: Chooser<Tiling> = Chooser::default();
    let mut patterns: Chooser<Pattern> = Chooser::default();
    match val {
        Value::Array(arr) => {
            let mut i: usize = 0;
            while i < arr.len()
                invariant
                    0 <= i <= arr@.len(),
                    shapes_ok(shapes@),
                    tilings.wf(),
                    patterns.wf(),
                    (patterns@, tilings@) == shapes_of(arr@, shapes_view(shapes@), i as int),
                decreases arr@.len() - i,
            {
                match &arr[i] {
                    Value::Text(s) => {
                        proof {
                            lemma_find_by_names(
                                names_of_list(shapes@),
                                shapes_view(shapes@),
                                s@,
                                shapes@.len() as int,
                            );
                        }
                        match lookup(shapes, s.as_slice()) {
                            Some(k) => {
                                assert(shapes@[k as int].1.0.wf() && shapes@[k as int].1.1.wf());
                                copy_plain(&shapes[k].1.1, &mut tilings);
                                copy_plain(&shapes[k].1.0, &mut patterns);
                            },
                            None => {
                                let _ = add_shape(s.as_slice(), 1, &mut tilings, &mut patterns);
                            },
                        }
                    },
                    Value::Array(pair) => {
                        if pair.len() == 2 {
                            match (&pair[0], &pair[1]) {
                                (Value::Text(s), Value::Integer(w)) => {
                                    if *w > 0 && *w as u128 <= usize::MAX as u128 {
                                        let _ = add_shape(
                                            s.as_slice(),
                                            *w as usize,
                                            &mut tilings,
                                            &mut patterns,
                                        );
                                    }
                                },
                                _ => {},
                            }
                        }
                    },
                    _ => {},
                }
                i = i + 1;
            }
        },
        _ => {},
    }
    (patterns, tilings)
}

/// The first and the last time of the day, as hours and minutes in one
/// number, for which an entry holds: the numbers before and behind the
/// first `-` of its span. A number that is missing or cannot be read
/// counts as 0 for the first and as 2400 for the last time.
pub open spec fn span_of(span: Option<Vec<u8>>) -> (nat, nat) {
    match span {
        None => (0, 2400),
        Some(text) => {
            let s = text@;
            let mid = word_end(s, 0, 45);
            let start = match number_of(s.subrange(0, mid), usize::MAX as nat) {
                Some(v) => v,
                None => 0,
            };
            let end = if mid < s.len() {
                match number_of(
                    s.subrange(mid + 1, word_end(s, mid + 1, 45)),
                    usize::MAX as nat,
                ) {
                    Some(v) => v,
                    None => 2400,
                }
            } else {
                2400
            };
            (start, end)
        },
    }
}

/// Reads the span of an entry.
pub fn read_span(span: &Option<Vec<u8>>) -> (r: (usize, usize))
    ensures
        r.0 == span_of(*span).0,
        r.1 == span_of(*span).1,
{
    match span {
        None => (0, 2400),
        Some(text) => {
            let s: &[u8] = text.as_slice();
            let mid: usize = find_word_end(s, 0, 45);
            let first: Vec<u8> = copy_range(s, 0, mid);
            let start: usize = match parse_number(first.as_slice(), usize::MAX as u64) {
                Some(v) => v as usize,
                None => 0,
            };
            let end: usize = if mid < s.len() {
                let stop: usize = find_word_end(s, mid + 1, 45);
                let second: Vec<u8> = copy_range(s, mid + 1, stop);
                match parse_number(second.as_slice(), usize::MAX as u64) {
                    Some(v) => v as usize,
                    None => 2400,
                }
            } else {
                2400
            };
            (start, end)
        },
    }
}

/// Whether the entry holds at the given time.
pub open spec fn holds_at(e: ConfigEntry, time: usize) -> bool {
    span_of(e.span).0 <= time <= span_of(e.span).1
}

/// The weight of an entry: one unless it gives another.
pub open spec fn entry_weight(e: ConfigEntry) -> usize {
    match e.weight {
        Some(w) => w,
        None => 1,
    }
}

/// The entries among the first `n` that hold at the given time, each by
/// its index and with its weight; without those whose weight is zero or
/// does not fit any more.
pub open spec fn eligible(entries: Seq<ConfigEntry>, time: usize, n: int) -> Seq<(usize, usize)>
    decreases n,
{
    if n <= 0 {
        Seq::empty()
    } else {
        let before = eligible(entries, time, n - 1);
        if holds_at(entries[n - 1], time) {
            pushed(
                before,
                crate::chooser::total_weight(before),
                (n - 1) as usize,
                entry_weight(entries[n - 1]),
            )
        } else {
            before
        }
    }
}

/// The entries that hold at the given time, to choose from by their weights.
pub fn eligible_entries(entries: &Vec<ConfigEntry>, time: usize) -> (r: Chooser<usize>)
    ensures
        r.wf(),
        r@ == eligible(entries@, time, entries@.len() as int),
{
    let mut valid: Chooser<usize> = Chooser::default();
    let mut i: usize = 0;
    while i < entries.len()
        invariant
            0 <= i <= entries@.len(),
            valid.wf(),
            valid@ == eligible(entries@, time, i as int),
        decreases entries@.len() - i,
    {
        let (start, end) = read_span(&entries[i].span);
        if start <= time && time <= end {
            let w: usize = match entries[i].weight {
                Some(w) => w,
                None => 1,
            };
            proof {
                valid.lemma_total();
            }
            let _ = valid.push(i, w);
        }
        i = i + 1;
    }
    valid
}

/// `name` is one of the names of the list; the empty name where the list
/// is missing or empty.
pub open spec fn one_of(names: Option<Vec<Vec<u8>>>, name: Seq<u8>) -> bool {
    match names {
        Some(list) => if list@.len() == 0 {
            name.len() == 0
        } else {
            exists|k: int| 0 <= k < list@.len() && name == (#[trigger] list@[k])@
        },
        None => name.len() == 0,
    }
}

/// The names that `choose_theme_shapes` may give for the entry: one of its
/// themes, one of its shapes, and its line colour; the empty name where
/// the entry has none.
pub open spec fn names_of(e: ConfigEntry, names: (Seq<u8>, Seq<u8>, Seq<u8>)) -> bool {
    &&& one_of(e.themes, names.0)
    &&& one_of(e.shapes, names.1)
    &&& match e.line_color {
        Some(c) => names.2 == c@,
        None => names.2.len() == 0,
    }
}

/// The names that `choose_theme_shapes` may give at the given time: those
/// of an entry that holds then; three empty names where there is none.
pub open spec fn may_name(entry: Option<Vec<ConfigEntry>>, time: usize, names: (
    Seq<u8>,
    Seq<u8>,
    Seq<u8>,
)) -> bool {
    match entry {
        None => names.0.len() == 0 && names.1.len() == 0 && names.2.len() == 0,
        Some(v) => if eligible(v@, time, v@.len() as int).len() == 0 {
            names.0.len() == 0 && names.1.len() == 0 && names.2.len() == 0
        } else {
            exists|k: int|
                0 <= k < v@.len() && holds_at(v@[k], time) && #[trigger] names_of(v@[k], names)
        },
    }
}

/// One of the names, or the empty name where there is none to pick from.
fn pick_name(rng: &mut ThreadRng, names: &Option<Vec<Vec<u8>>>) -> (r: Vec<u8>)
    ensures
        one_of(*names, r@),
{
    match names {
        None => Vec::new(),
        Some(list) => {
            if list.len() == 0 {
                Vec::new()
            } else {
                let k: usize = draw_below(rng, list.len() as u64) as usize;
                let name: Vec<u8> = copy_range(list[k].as_slice(), 0, list[k].len());
                assert(name@ =~= list@[k as int]@);
                name
            }
        },
    }
}

/// Picks an entry that holds at the given time, and out of it the name of
/// a theme, the name of a combination of shapes, and a line colour. All
/// three are empty where no entry holds.
pub fn choose_theme_shapes(rng: &mut ThreadRng, entry: &Option<Vec<ConfigEntry>>, time: usize) -> (r: (
    Vec<u8>,
    Vec<u8>,
    Vec<u8>,
))
    ensures
        may_name(*entry, time, (r.0@, r.1@, r.2@)),
{
    match entry {
        None => (Vec::new(), Vec::new(), Vec::new()),
        Some(v) => {
            let valid: Chooser<usize> = eligible_entries(v, time);
            match valid.choose_ref(rng) {
                None => (Vec::new(), Vec::new(), Vec::new()),
                Some(index) => {
                    let k: usize = *index;
                    proof {
                        assert(v@.len() == v.len());
                        lemma_eligible(v@, time, v@.len() as int);
                    }
                    let theme: Vec<u8> = pick_name(rng, &v[k].themes);
                    let shapes: Vec<u8> = pick_name(rng, &v[k].shapes);
                    let line_color: Vec<u8> = match &v[k].line_color {
                        Some(c) => copy_range(c.as_slice(), 0, c.len()),
                        None => Vec::new(),
                    };
                    proof {
                        if v@[k as int].line_color is Some {
                            assert(line_color@ =~= v@[k as int].line_color->Some_0@);
                        }
                        assert(names_of(v@[k as int], (theme@, shapes@, line_color@)));
                    }
                    (theme, shapes, line_color)
                },
            }
        },
    }
}

/// Every eligible entry is an entry that holds at the given time.
pub proof fn lemma_eligible(entries: Seq<ConfigEntry>, time: usize, n: int)
    requires
        0 <= n <= entries.len() <= usize::MAX,
    ensures
        forall|i: int|
            0 <= i < eligible(entries, time, n).len() ==> (#[trigger] eligible(
                entries,
                time,
                n,
            )[i]).0 < n && holds_at(entries[eligible(entries, time, n)[i].0 as int], time),
    decreases n,
{
    if n > 0 {
        lemma_eligible(entries, time, n - 1);
        let before = eligible(entries, time, n - 1);
        let now = eligible(entries, time, n);
        assert forall|i: int| 0 <= i < now.len() implies (#[trigger] now[i]).0 < n && holds_at(
            entries[now[i].0 as int],
            time,
        ) by {
            if i < before.len() {
                assert(now[i] == before[i]);
            }
        }
    }
}

/// How far a channel is disturbed where the configuration is silent.
pub const DEVIATION: u32 = 20;

/// Hundredths of the shade in a colour where the configuration is silent.
pub const WEIGHT: u32 = 40;

/// Size of the tiles where the configuration is silent.
pub const SIZE: i32 = 1500;

/// Width of the image where the configuration is silent.
pub const WIDTH: usize = 1000;

/// Height of the image where the configuration is silent.
pub const HEIGHT: usize = 600;

/// Number of free circles where the configuration is silent.
pub const NB_FREE_CIRCLES: u32 = 10;

/// Number of free triangles where the configuration is silent.
pub const NB_FREE_TRIANGLES: u32 = 15;

/// Number of free stripes where the configuration is silent.
pub const NB_FREE_STRIPES: u32 = 7;

/// Number of parallel stripes where the configuration is silent.
pub const NB_PARALLEL_STRIPES: u32 = 15;

/// Number of concentric circles where the configuration is silent.
pub const NB_CONCENTRIC_CIRCLES: u32 = 5;

/// Number of crossed stripes in each direction where the configuration is silent.
pub const NB_CROSSED_STRIPES: u32 = 10;

/// Number of free spirals where the configuration is silent.
pub const NB_FREE_SPIRALS: u32 = 3;

/// Number of parallel waves where the configuration is silent.
pub const NB_PARALLEL_WAVES: u32 = 15;

/// Number of parallel zig-zags where the configuration is silent.
pub const NB_PARALLEL_SAWTEETH: u32 = 15;

/// Degrees by which parallel stripes may turn where the configuration is silent.
pub const VAR_PARALLEL_STRIPES: u32 = 15;

/// Degrees by which crossed stripes may turn where the configuration is silent.
pub const VAR_CROSSED_STRIPES: u32 = 10;

/// Width of the spirals, in thousandths of the height of the frame, where the configuration is silent.
pub const WIDTH_SPIRAL: i32 = 300;

/// Width of the stripes, in thousandths of the height of the frame, where the configuration is silent.
pub const WIDTH_STRIPE: i32 = 100;

/// Width of the waves, in thousandths, where the configuration is silent.
pub const WIDTH_WAVE: i32 = 300;

/// Width of the zig-zags, in thousandths, where the configuration is silent.
pub const WIDTH_SAWTOOTH: i32 = 300;

/// How tight the spirals are wound where the configuration is silent.
pub const TIGHTNESS_SPIRAL: i32 = 1000;

/// Number of scattered points where the configuration is silent.
pub const NB_DELAUNAY: usize = 1000;

/// Width of the lines where the configuration is silent.
pub const LINE_WIDTH: i32 = 100;

/// The number that is given, or else the default.
pub open spec fn spec_or_number(given: Option<u32>, default: u32) -> u32 {
    match given {
        Some(v) => v,
        None => default,
    }
}

/// The length that is given, or else the default.
pub open spec fn spec_or_length(given: Option<i32>, default: i32) -> i32 {
    match given {
        Some(v) => v,
        None => default,
    }
}

/// The number that is given, or else the default.
#[verifier::when_used_as_spec(spec_or_number)]
pub fn or_number(given: Option<u32>, default: u32) -> (r: u32)
    ensures
        r == spec_or_number(given, default),
{
    match given {
        Some(v) => v,
        None => default,
    }
}

/// The length that is given, or else the default.
#[verifier::when_used_as_spec(spec_or_length)]
pub fn or_length(given: Option<i32>, default: i32) -> (r: i32)
    ensures
        r == spec_or_length(given, default),
{
    match given {
        Some(v) => v,
        None => default,
    }
}

/// The settings that hold for every scene, with defaults filled in.
#[derive(Clone, Copy, Debug, PartialEq, Eq, Structural)]
pub struct Global {
    pub deviation: u32,
    pub weight: u32,
    pub size: i32,
    pub width: usize,
    pub height: usize,
}

/// The global settings of a configuration; a weight above a hundred counts as missing.
pub open spec fn global_of(g: Option<ConfigGlobal>) -> Global {
    match g {
        None => Global { deviation: DEVIATION, weight: WEIGHT, size: SIZE, width: WIDTH, height: HEIGHT },
        Some(g) => Global {
            deviation: spec_or_number(g.deviation, DEVIATION),
            weight: match g.weight {
                Some(w) => if w <= 100 {
                    w
                } else {
                    WEIGHT
                },
                None => WEIGHT,
            },
            size: spec_or_length(g.size, SIZE),
            width: match g.width {
                Some(w) => w,
                None => WIDTH,
            },
            height: match g.height {
                Some(h) => h,
                None => HEIGHT,
            },
        },
    }
}

/// Fills the defaults into the global settings.
pub fn resolve_global(g: &Option<ConfigGlobal>) -> (r: Global)
    ensures
        r == global_of(*g),
        r.weight <= 100,
{
    match g {
        None => Global { deviation: DEVIATION, weight: WEIGHT, size: SIZE, width: WIDTH, height: HEIGHT },
        Some(g) => Global {
            deviation: or_number(g.deviation, DEVIATION),
            weight: match g.weight {
                Some(w) => if w <= 100 {
                    w
                } else {
                    WEIGHT
                },
                None => WEIGHT,
            },
            size: or_length(g.size, SIZE),
            width: match g.width {
                Some(w) => w,
                None => WIDTH,
            },
            height: match g.height {
                Some(h) => h,
                None => HEIGHT,
            },
        },
    }
}

/// The settings of the patterns, if the configuration has any.
pub open spec fn patterns_of(data: Option<ConfigData>) -> Option<ConfigPatterns> {
    match data {
        Some(d) => d.patterns,
        None => None,
    }
}

/// The settings of the tilings, if the configuration has any.
pub open spec fn tilings_of(data: Option<ConfigData>) -> Option<ConfigTilings> {
    match data {
        Some(d) => d.tilings,
        None => None,
    }
}

/// Number of shapes, variance of the stripes and width for a pattern
/// where the configuration gives settings for the patterns.
pub open spec fn given_pattern_settings(p: ConfigPatterns, pattern: Pattern) -> (u32, u32, i32) {
    match pattern {
        Pattern::FreeCircles => (or_number(p.nb_free_circles, NB_FREE_CIRCLES), 0, 0),
        Pattern::FreeTriangles => (or_number(p.nb_free_triangles, NB_FREE_TRIANGLES), 0, 0),
        Pattern::FreeStripes => (or_number(p.nb_free_stripes, NB_FREE_STRIPES), 0, or_length(p.width_stripe, WIDTH_STRIPE)),
        Pattern::FreeSpirals => (or_number(p.nb_free_spirals, NB_FREE_SPIRALS), 0, or_length(p.width_spiral, WIDTH_SPIRAL)),
        Pattern::ConcentricCircles => (or_number(p.nb_concentric_circles, NB_CONCENTRIC_CIRCLES), 0, 0),
        Pattern::ParallelStripes => (or_number(p.nb_parallel_stripes, NB_PARALLEL_STRIPES), or_number(p.var_parallel_stripes, VAR_PARALLEL_STRIPES), 0),
        Pattern::CrossedStripes => (or_number(p.nb_crossed_stripes, NB_CROSSED_STRIPES), or_number(p.var_crossed_stripes, VAR_CROSSED_STRIPES), 0),
        Pattern::ParallelWaves => (or_number(p.nb_parallel_waves, NB_PARALLEL_WAVES), 0, or_length(p.width_wave, WIDTH_WAVE)),
        Pattern::ParallelSawteeth => (or_number(p.nb_parallel_sawteeth, NB_PARALLEL_SAWTEETH), 0, or_length(p.width_sawtooth, WIDTH_SAWTOOTH)),
    }
}

/// Number of shapes, variance of the stripes and width for a pattern
/// where the configuration is silent.
pub open spec fn default_pattern_settings(pattern: Pattern) -> (u32, u32, i32) {
    match pattern {
        Pattern::FreeCircles => (NB_FREE_CIRCLES, 0, 0),
        Pattern::FreeTriangles => (NB_FREE_TRIANGLES, 0, 0),
        Pattern::FreeStripes => (NB_FREE_STRIPES, 0, WIDTH_STRIPE),
        Pattern::FreeSpirals => (NB_FREE_SPIRALS, 0, WIDTH_SPIRAL),
        Pattern::ConcentricCircles => (NB_CONCENTRIC_CIRCLES, 0, 0),
        Pattern::ParallelStripes => (NB_PARALLEL_STRIPES, VAR_PARALLEL_STRIPES, 0),
        Pattern::CrossedStripes => (NB_CROSSED_STRIPES, VAR_CROSSED_STRIPES, 0),
        Pattern::ParallelWaves => (NB_PARALLEL_WAVES, 0, WIDTH_WAVE),
        Pattern::ParallelSawteeth => (NB_PARALLEL_SAWTEETH, 0, WIDTH_SAWTOOTH),
    }
}

/// Number of shapes, variance of the stripes and width for a pattern.
pub open spec fn pattern_settings(data: Option<ConfigData>, pattern: Pattern) -> (u32, u32, i32) {
    match patterns_of(data) {
        Some(p) => given_pattern_settings(p, pattern),
        None => default_pattern_settings(pattern),
    }
}

/// Reads the settings of a pattern.
pub fn read_pattern_settings(data: &Option<ConfigData>, pattern: Pattern) -> (r: (u32, u32, i32))
    ensures
        r == pattern_settings(*data, pattern),
{
    match data {
        Some(ConfigData { patterns: Some(p), tilings: _ }) => match pattern {
            Pattern::FreeCircles => (or_number(p.nb_free_circles, NB_FREE_CIRCLES), 0, 0),
            Pattern::FreeTriangles => (or_number(p.nb_free_triangles, NB_FREE_TRIANGLES), 0, 0),
            Pattern::FreeStripes => (or_number(p.nb_free_stripes, NB_FREE_STRIPES), 0, or_length(p.width_stripe, WIDTH_STRIPE)),
            Pattern::FreeSpirals => (or_number(p.nb_free_spirals, NB_FREE_SPIRALS), 0, or_length(p.width_spiral, WIDTH_SPIRAL)),
            Pattern::ConcentricCircles => (or_number(p.nb_concentric_circles, NB_CONCENTRIC_CIRCLES), 0, 0),
            Pattern::ParallelStripes => (or_number(p.nb_parallel_stripes, NB_PARALLEL_STRIPES), or_number(p.var_parallel_stripes, VAR_PARALLEL_STRIPES), 0),
            Pattern::CrossedStripes => (or_number(p.nb_crossed_stripes, NB_CROSSED_STRIPES), or_number(p.var_crossed_stripes, VAR_CROSSED_STRIPES), 0),
            Pattern::ParallelWaves => (or_number(p.nb_parallel_waves, NB_PARALLEL_WAVES), 0, or_length(p.width_wave, WIDTH_WAVE)),
            Pattern::ParallelSawteeth => (or_number(p.nb_parallel_sawteeth, NB_PARALLEL_SAWTEETH), 0, or_length(p.width_sawtooth, WIDTH_SAWTOOTH)),
        },
        _ => match pattern {
            Pattern::FreeCircles => (NB_FREE_CIRCLES, 0, 0),
            Pattern::FreeTriangles => (NB_FREE_TRIANGLES, 0, 0),
            Pattern::FreeStripes => (NB_FREE_STRIPES, 0, WIDTH_STRIPE),
            Pattern::FreeSpirals => (NB_FREE_SPIRALS, 0, WIDTH_SPIRAL),
            Pattern::ConcentricCircles => (NB_CONCENTRIC_CIRCLES, 0, 0),
            Pattern::ParallelStripes => (NB_PARALLEL_STRIPES, VAR_PARALLEL_STRIPES, 0),
            Pattern::CrossedStripes => (NB_CROSSED_STRIPES, VAR_CROSSED_STRIPES, 0),
            Pattern::ParallelWaves => (NB_PARALLEL_WAVES, 0, WIDTH_WAVE),
            Pattern::ParallelSawteeth => (NB_PARALLEL_SAWTEETH, 0, WIDTH_SAWTOOTH),
        },
    }
}

/// How tight the spirals are wound.
pub open spec fn tightness_of(data: Option<ConfigData>) -> i32 {
    match patterns_of(data) {
        Some(p) => spec_or_length(p.tightness_spiral, TIGHTNESS_SPIRAL),
        None => TIGHTNESS_SPIRAL,
    }
}

/// Reads how tight the spirals are wound.
pub fn read_tightness(data: &Option<ConfigData>) -> (r: i32)
    ensures
        r == tightness_of(*data),
{
    match data {
        Some(ConfigData { patterns: Some(p), tilings: _ }) => or_length(
            p.tightness_spiral,
            TIGHTNESS_SPIRAL,
        ),
        _ => TIGHTNESS_SPIRAL,
    }
}

/// Size of the tiles and number of scattered points for a tiling, where
/// the configuration gives settings for the tilings.
pub open spec fn given_tiling_settings(t: ConfigTilings, tiling: Tiling, size: i32) -> (i32, usize) {
    match tiling {
        Tiling::Hexagons => (or_length(t.size_hex, size), 0),
        Tiling::Triangles => (or_length(t.size_tri, size), 0),
        Tiling::HexagonsAndTriangles => (or_length(t.size_hex_and_tri, size), 0),
        Tiling::SquaresAndTriangles => (or_length(t.size_squ_and_tri, size), 0),
        Tiling::Rhombus => (or_length(t.size_rho, size), 0),
        Tiling::Delaunay => (0, match t.nb_delaunay {
            Some(n) => n,
            None => NB_DELAUNAY,
        }),
        Tiling::Pentagons => (or_length(t.size_pen, size), 0),
    }
}

/// Size of the tiles and number of scattered points for a tiling.
pub open spec fn tiling_settings(data: Option<ConfigData>, tiling: Tiling, size: i32) -> (
    i32,
    usize,
) {
    match tilings_of(data) {
        Some(t) => given_tiling_settings(t, tiling, size),
        None => match tiling {
            Tiling::Delaunay => (0, NB_DELAUNAY),
            _ => (size, 0),
        },
    }
}

/// Reads the settings of a tiling.
pub fn read_tiling_settings(data: &Option<ConfigData>, tiling: Tiling, size: i32) -> (r: (i32, usize))
    ensures
        r == tiling_settings(*data, tiling, size),
{
    match data {
        Some(ConfigData { patterns: _, tilings: Some(t) }) => match tiling {
            Tiling::Hexagons => (or_length(t.size_hex, size), 0),
            Tiling::Triangles => (or_length(t.size_tri, size), 0),
            Tiling::HexagonsAndTriangles => (or_length(t.size_hex_and_tri, size), 0),
            Tiling::SquaresAndTriangles => (or_length(t.size_squ_and_tri, size), 0),
            Tiling::Rhombus => (or_length(t.size_rho, size), 0),
            Tiling::Delaunay => (0, match t.nb_delaunay {
            Some(n) => n,
            None => NB_DELAUNAY,
        }),
            Tiling::Pentagons => (or_length(t.size_pen, size), 0),
        },
        _ => match tiling {
            Tiling::Delaunay => (0, NB_DELAUNAY),
            _ => (size, 0),
        },
    }
}

/// The colour that an optional text stands for.
pub open spec fn optional_color(text: Option<Vec<u8>>, colors: Seq<(Seq<u8>, Color)>) -> Option<
    Color,
> {
    match text {
        Some(t) => named_color(t@, colors),
        None => None,
    }
}

fn read_optional_color(text: &Option<Vec<u8>>, colors: &Vec<(Vec<u8>, Color)>) -> (r: Option<Color>)
    ensures
        r == optional_color(*text, dict_view(colors@)),
{
    match text {
        Some(t) => color_from_text(t.as_slice(), colors),
        None => None,
    }
}

impl ConfigLines {
    /// The width and the colour that the configuration gives for the lines of a tiling.
    pub open spec fn given(&self, tiling: Tiling) -> (Option<i32>, Option<Vec<u8>>) {
        match tiling {
            Tiling::Hexagons => (self.hex_width, self.hex_color),
            Tiling::Triangles => (self.tri_width, self.tri_color),
            Tiling::HexagonsAndTriangles => (self.hex_and_tri_width, self.hex_and_tri_color),
            Tiling::SquaresAndTriangles => (self.squ_and_tri_width, self.squ_and_tri_color),
            Tiling::Rhombus => (self.rho_width, self.rho_color),
            Tiling::Delaunay => (self.del_width, self.del_color),
            Tiling::Pentagons => (self.pen_width, self.pen_color),
        }
    }

    /// Width and colour of the lines of a tiling: those for the tiling,
    /// else those for all tilings, else a black line of one canvas unit.
    pub open spec fn settings(&self, tiling: Tiling, colors: Seq<(Seq<u8>, Color)>) -> (i32, Color) {
        (
            match self.given(tiling).0 {
                Some(w) => w,
                None => spec_or_length(self.width, LINE_WIDTH),
            },
            match optional_color(self.given(tiling).1, colors) {
                Some(c) => c,
                None => match optional_color(self.color, colors) {
                    Some(c) => c,
                    None => Color(0, 0, 0),
                },
            },
        )
    }

    /// Width and colour of the lines of a tiling.
    pub fn get_settings(&self, tiling: Tiling, colors: &Vec<(Vec<u8>, Color)>) -> (r: (i32, Color))
        ensures
            r == self.settings(tiling, dict_view(colors@)),
    {
        let (w, c) = match tiling {
            Tiling::Hexagons => (self.hex_width, &self.hex_color),
            Tiling::Triangles => (self.tri_width, &self.tri_color),
            Tiling::HexagonsAndTriangles => (self.hex_and_tri_width, &self.hex_and_tri_color),
            Tiling::SquaresAndTriangles => (self.squ_and_tri_width, &self.squ_and_tri_color),
            Tiling::Rhombus => (self.rho_width, &self.rho_color),
            Tiling::Delaunay => (self.del_width, &self.del_color),
            Tiling::Pentagons => (self.pen_width, &self.pen_color),
        };
        let width: i32 = match w {
            Some(w) => w,
            None => or_length(self.width, LINE_WIDTH),
        };
        let color: Color = match read_optional_color(c, colors) {
            Some(c) => c,
            None => match read_optional_color(&self.color, colors) {
                Some(c) => c,
                None => Color(0, 0, 0),
            },
        };
        (width, color)
    }
}

/// Width and colour of the lines of a tiling, whether the configuration
/// says anything about lines or not.
pub open spec fn line_settings(lines: Option<ConfigLines>, tiling: Tiling, colors: Seq<(Seq<u8>, Color)>) -> (
    i32,
    Color,
) {
    match lines {
        Some(l) => l.settings(tiling, colors),
        None => (LINE_WIDTH, Color(0, 0, 0)),
    }
}

/// The named colours among the first `n` entries of a list: each entry
/// whose value is a colour, given the colours before it.
pub open spec fn colors_of(list: Seq<(Vec<u8>, Value)>, n: int) -> Seq<(Seq<u8>, Color)>
    decreases n,
{
    if n <= 0 {
        Seq::empty()
    } else {
        let before = colors_of(list, n - 1);
        match color_of(list[n - 1].1, before) {
            Some(c) => before.push((list[n - 1].0@, c)),
            None => before,
        }
    }
}

/// Reads the named colours of a configuration.
pub fn read_colors(list: &Vec<(Vec<u8>, Value)>) -> (colors: Vec<(Vec<u8>, Color)>)
    ensures
        dict_view(colors@) == colors_of(list@, list@.len() as int),
{
    let mut colors: Vec<(Vec<u8>, Color)> = Vec::new();
    let mut i: usize = 0;
    assert(dict_view(colors@) =~= colors_of(list@, 0));
    while i < list.len()
        invariant
            0 <= i <= list@.len(),
            dict_view(colors@) == colors_of(list@, i as int),
        decreases list@.len() - i,
    {
        let ghost before = dict_view(colors@);
        match color_from_value(&list[i].1, &colors) {
            Ok(c) => {
                let name: Vec<u8> = copy_range(list[i].0.as_slice(), 0, list[i].0.len());
                assert(name@ =~= list@[i as int].0@);
                colors.push((name, c));
                assert(dict_view(colors@) =~= before.push((list@[i as int].0@, c)));
            },
            Err(_) => {},
        }
        i = i + 1;
    }
    colors
}

/// The named themes among the first `n` entries of a list: each entry
/// whose value is a list, read as a theme given the themes before it.
pub open spec fn themes_of(list: Seq<(Vec<u8>, Value)>, colors: Seq<(Seq<u8>, Color)>, n: int) -> ThemeList
    decreases n,
{
    if n <= 0 {
        Seq::empty()
    } else {
        let before = themes_of(list, colors, n - 1);
        match list[n - 1].1 {
            Value::Array(a) => before.push(
                (list[n - 1].0@, theme_of(a@, colors, before, a@.len() as int)),
            ),
            _ => before,
        }
    }
}

/// The named combinations of shapes among the first `n` entries of a list.
pub open spec fn combinations_of(list: Seq<(Vec<u8>, Value)>, n: int) -> ShapeList
    decreases n,
{
    if n <= 0 {
        Seq::empty()
    } else {
        let before = combinations_of(list, n - 1);
        before.push(
            (
                list[n - 1].0@,
                match list[n - 1].1 {
                    Value::Array(arr) => shapes_of(arr@, before, arr@.len() as int),
                    _ => (Seq::empty(), Seq::empty()),
                },
            ),
        )
    }
}

/// Reads the named themes of a configuration; what is no theme is left out.
pub fn read_themes(list: &Vec<(Vec<u8>, Value)>, colors: &Vec<(Vec<u8>, Color)>) -> (themes: Vec<
    (Vec<u8>, Chooser<ThemeItem>),
>)
    ensures
        themes_ok(themes@),
        themes_view(themes@) == themes_of(list@, dict_view(colors@), list@.len() as int),
{
    let mut themes: Vec<(Vec<u8>, Chooser<ThemeItem>)> = Vec::new();
    let mut i: usize = 0;
    assert(themes_view(themes@) =~= Seq::empty());
    while i < list.len()
        invariant
            0 <= i <= list@.len(),
            themes_ok(themes@),
            themes_view(themes@) == themes_of(list@, dict_view(colors@), i as int),
        decreases list@.len() - i,
    {
        match theme_from_value(&list[i].1, colors, &themes) {
            Ok(theme) => {
                let name: Vec<u8> = copy_range(list[i].0.as_slice(), 0, list[i].0.len());
                assert(name@ =~= list@[i as int].0@);
                let ghost before = themes@;
                let ghost held = theme_view(theme@);
                themes.push((name, theme));
                assert(themes_view(themes@) =~= themes_view(before).push((list@[i as int].0@, held)));
                assert forall|k: int| 0 <= k < themes@.len() implies (#[trigger] themes@[k]).1.wf()
                    && theme_ok(themes@[k].1@) by {
                    if k < before.len() {
                        assert(themes@[k] == before[k]);
                    }
                }
            },
            Err(_) => {},
        }
        i = i + 1;
    }
    themes
}

/// Reads the named combinations of shapes of a configuration.
pub fn read_shapes(list: &Vec<(Vec<u8>, Value)>) -> (shapes: Vec<
    (Vec<u8>, (Chooser<Pattern>, Chooser<Tiling>)),
>)
    ensures
        shapes_ok(shapes@),
        shapes_view(shapes@) == combinations_of(list@, list@.len() as int),
{
    let mut shapes: Vec<(Vec<u8>, (Chooser<Pattern>, Chooser<Tiling>))> = Vec::new();
    let mut i: usize = 0;
    assert(shapes_view(shapes@) =~= Seq::empty());
    while i < list.len()
        invariant
            0 <= i <= list@.len(),
            shapes_ok(shapes@),
            shapes_view(shapes@) == combinations_of(list@, i as int),
        decreases list@.len() - i,
    {
        let pair = shapes_from_value(&list[i].1, &shapes);
        let name: Vec<u8> = copy_range(list[i].0.as_slice(), 0, list[i].0.len());
        assert(name@ =~= list@[i as int].0@);
        let ghost before = shapes@;
        let ghost held = (pair.0@, pair.1@);
        shapes.push((name, pair));
        assert(shapes_view(shapes@) =~= shapes_view(before).push((list@[i as int].0@, held)));
        assert forall|k: int| 0 <= k < shapes@.len() implies (#[trigger] shapes@[k]).1.0.wf()
            && shapes@[k].1.1.wf() by {
            if k < before.len() {
                assert(shapes@[k] == before[k]);
            }
        }
        i = i + 1;
    }
    shapes
}

/// A theme of a single colour.
fn single_theme(color: Color) -> (r: Chooser<ThemeItem>)
    ensures
        r.wf(),
        theme_ok(r@),
        theme_view(r@) == seq![((color, None::<u32>, None::<u32>, Seq::<crate::salt::SaltItem>::empty()), 1usize)],
{
    let mut r: Chooser<ThemeItem> = Chooser::default();
    let entry = ThemeItem(color, None, None, Salt::none());
    assert(entry.3@ =~= Seq::empty());
    let _ = r.push(entry, 1);
    assert(theme_view(r@) =~= seq![((color, None::<u32>, None::<u32>, Seq::<crate::salt::SaltItem>::empty()), 1usize)]);
    r
}

/// The tiling and the pattern may have been drawn for the name: where the
/// name stands for a combination of shapes, each is one of those that the
/// combination holds, if it holds any.
pub open spec fn shapes_picked(shapes: ShapeList, name: Seq<u8>, tiling: Tiling, pattern: Pattern) -> bool {
    match find_named(shapes, name, shapes.len() as int) {
        Some(k) => {
            &&& shapes[k].1.1.len() > 0 ==> exists|i: int|
                0 <= i < shapes[k].1.1.len() && (#[trigger] shapes[k].1.1[i]).0 == tiling
            &&& shapes[k].1.0.len() > 0 ==> exists|i: int|
                0 <= i < shapes[k].1.0.len() && (#[trigger] shapes[k].1.0[i]).0 == pattern
        },
        None => true,
    }
}

/// The tiling and the pattern for a scene: drawn from the named
/// combination of shapes, or any of them where that gives none.
fn pick_shapes(
    rng: &mut ThreadRng,
    shapes: &Vec<(Vec<u8>, (Chooser<Pattern>, Chooser<Tiling>))>,
    name: &[u8],
) -> (r: (Tiling, Pattern))
    requires
        shapes_ok(shapes@),
    ensures
        shapes_picked(shapes_view(shapes@), name@, r.0, r.1),
{
    proof {
        lemma_find_by_names(
            names_of_list(shapes@),
            shapes_view(shapes@),
            name@,
            shapes@.len() as int,
        );
    }
    match lookup(shapes, name) {
        None => {
            let tiling: Tiling = Tiling::choose_one(rng);
            let pattern: Pattern = Pattern::choose_one(rng);
            (tiling, pattern)
        },
        Some(k) => {
            assert(shapes@[k as int].1.0.wf() && shapes@[k as int].1.1.wf());
            assert(shapes_view(shapes@)[k as int].1 == (shapes@[k as int].1.0@, shapes@[k as int].1.1@));
            let tiling: Tiling = match shapes[k].1.1.choose_ref(rng) {
                Some(t) => *t,
                None => Tiling::choose_one(rng),
            };
            let pattern: Pattern = match shapes[k].1.0.choose_ref(rng) {
                Some(p) => *p,
                None => Pattern::choose_one(rng),
            };
            (tiling, pattern)
        },
    }
}

/// The theme may have been picked for the name: a copy of the theme of
/// that name, or of any theme of the list where none has that name; a
/// single colour, one of the list of colours if that has any, where there
/// is no theme at all.
pub open spec fn theme_picked(
    themes: ThemeList,
    colors: Seq<(Seq<u8>, Color)>,
    name: Seq<u8>,
    theme: Seq<(ItemView, usize)>,
) -> bool {
    if themes.len() == 0 {
        exists|c: Color| #[trigger]
            single_colour(c) == theme && (colors.len() > 0 ==> exists|k: int|
                0 <= k < colors.len() && (#[trigger] colors[k]).1 == c)
    } else {
        exists|k: int|
            0 <= k < themes.len() && theme == push_all(
                Seq::empty(),
                (#[trigger] themes[k]).1,
                themes[k].1.len() as int,
            ) && (find_named(themes, name, themes.len() as int) matches Some(j) ==> j == k)
    }
}

/// What a theme of a single colour holds.
pub open spec fn single_colour(c: Color) -> Seq<(ItemView, usize)> {
    seq![((c, None::<u32>, None::<u32>, Seq::<crate::salt::SaltItem>::empty()), 1usize)]
}

/// The theme for a scene: the named one, or any of the list; a single
/// colour, one of the list or any, where there is no theme at all.
fn pick_theme(
    rng: &mut ThreadRng,
    themes: &Vec<(Vec<u8>, Chooser<ThemeItem>)>,
    colors: &Vec<(Vec<u8>, Color)>,
    name: &[u8],
) -> (r: Chooser<ThemeItem>)
    requires
        themes_ok(themes@),
    ensures
        r.wf(),
        theme_ok(r@),
        theme_picked(themes_view(themes@), dict_view(colors@), name@, theme_view(r@)),
{
    if themes.len() == 0 {
        if colors.len() == 0 {
            let c: Color = Color::random(rng);
            let r = single_theme(c);
            assert(single_colour(c) == theme_view(r@));
            r
        } else {
            let k: usize = draw_below(rng, colors.len() as u64) as usize;
            let c: Color = colors[k].1;
            let r = single_theme(c);
            assert(single_colour(c) == theme_view(r@));
            assert(dict_view(colors@)[k as int].1 == c);
            r
        }
    } else {
        proof {
            lemma_find_by_names(
                names_of_list(themes@),
                themes_view(themes@),
                name@,
                themes@.len() as int,
            );
        }
        let k: usize = match lookup(themes, name) {
            Some(k) => k,
            None => draw_below(rng, themes.len() as u64) as usize,
        };
        assert(themes@[k as int].1.wf() && theme_ok(themes@[k as int].1@));
        assert(themes_view(themes@)[k as int].1 == theme_view(themes@[k as int].1@));
        copy_theme(&themes[k].1)
    }
}

/// The named colours of a configuration.
pub open spec fn palette(colors: Option<crate::optionfmt::ConfigColors>) -> Seq<(Seq<u8>, Color)> {
    match colors {
        Some(c) => colors_of(c.list@, c.list@.len() as int),
        None => Seq::empty(),
    }
}

/// The named themes of a configuration.
pub open spec fn theme_list(themes: Option<crate::optionfmt::ConfigThemes>, colors: Seq<(Seq<u8>, Color)>) -> ThemeList {
    match themes {
        Some(t) => themes_of(t.list@, colors, t.list@.len() as int),
        None => Seq::empty(),
    }
}

/// The named combinations of shapes of a configuration.
pub open spec fn shape_list(shapes: Option<crate::optionfmt::ConfigShapes>) -> ShapeList {
    match shapes {
        Some(s) => combinations_of(s.list@, s.list@.len() as int),
        None => Seq::empty(),
    }
}

/// The colour of the lines: the one that an entry names, or else the one
/// that the settings of the lines give.
pub open spec fn line_colour(name: Seq<u8>, colors: Seq<(Seq<u8>, Color)>, default: Color) -> Color {
    if name.len() == 0 {
        default
    } else {
        match named_color(name, colors) {
            Some(c) => c,
            None => default,
        }
    }
}

impl MetaConfig {
    /// The scene may have been settled with the names that an entry gave:
    /// its theme and its shapes are picked for them, and its lines have
    /// the colour that the entry names.
    pub open spec fn settles(&self, names: (Seq<u8>, Seq<u8>, Seq<u8>), cfg: SceneCfg) -> bool {
        &&& theme_picked(
            theme_list(self.themes, palette(self.colors)),
            palette(self.colors),
            names.0,
            theme_view(cfg.theme@),
        )
        &&& shapes_picked(shape_list(self.shapes), names.1, cfg.tiling, cfg.pattern)
        &&& cfg.line_color == line_colour(
            names.2,
            palette(self.colors),
            line_settings(self.lines, cfg.tiling, palette(self.colors)).1,
        )
    }

    /// Settles what the configuration leaves open: a theme, a pattern and a
    /// tiling are drawn among those that an entry for the given time of
    /// the day allows, and every setting that is missing gets its default.
    pub fn pick_cfg(self, rng: &mut ThreadRng, time: usize) -> (cfg: SceneCfg)
        ensures
            cfg.wf(),
            cfg.deviation == global_of(self.global).deviation,
            cfg.weight == global_of(self.global).weight,
            cfg.frame == (Frame {
                x: 0,
                y: 0,
                w: global_of(self.global).width,
                h: global_of(self.global).height,
            }),
            (cfg.nb_pattern, cfg.var_stripes, cfg.width_pattern) == pattern_settings(
                self.data,
                cfg.pattern,
            ),
            (cfg.size_tiling, cfg.nb_delaunay) == tiling_settings(
                self.data,
                cfg.tiling,
                global_of(self.global).size,
            ),
            cfg.tightness_spiral == tightness_of(self.data),
            cfg.line_width == line_settings(self.lines, cfg.tiling, palette(self.colors)).0,
            exists|names: (Seq<u8>, Seq<u8>, Seq<u8>)| #[trigger]
                may_name(self.entry, time, names) && self.settles(names, cfg),
    {
        let global: Global = resolve_global(&self.global);
        let colors: Vec<(Vec<u8>, Color)> = match &self.colors {
            Some(c) => read_colors(&c.list),
            None => Vec::new(),
        };
        assert(dict_view(colors@) =~= palette(self.colors));
        let themes: Vec<(Vec<u8>, Chooser<ThemeItem>)> = match &self.themes {
            Some(t) => read_themes(&t.list, &colors),
            None => Vec::new(),
        };
        assert(themes_view(themes@) =~= theme_list(self.themes, palette(self.colors)));
        let shapes: Vec<(Vec<u8>, (Chooser<Pattern>, Chooser<Tiling>))> = match &self.shapes {
            Some(s) => read_shapes(&s.list),
            None => Vec::new(),
        };
        assert(shapes_view(shapes@) =~= shape_list(self.shapes));
        let (theme_name, shapes_name, line_color_override) = choose_theme_shapes(
            rng,
            &self.entry,
            time,
        );
        let (tiling, pattern) = pick_shapes(rng, &shapes, shapes_name.as_slice());
        let (nb_pattern, var_stripes, width_pattern) = read_pattern_settings(&self.data, pattern);
        let (size_tiling, nb_delaunay) = read_tiling_settings(&self.data, tiling, global.size);
        let (line_width, line_color_default) = match &self.lines {
            Some(lines) => lines.get_settings(tiling, &colors),
            None => (LINE_WIDTH, Color(0, 0, 0)),
        };
        let theme: Chooser<ThemeItem> = pick_theme(rng, &themes, &colors, theme_name.as_slice());
        let line_color: Color = if line_color_override.len() == 0 {
            line_color_default
        } else {
            match color_from_text(line_color_override.as_slice(), &colors) {
                Some(c) => c,
                None => line_color_default,
            }
        };
        let cfg = SceneCfg {
            theme,
            weight: global.weight,
            deviation: global.deviation,
            frame: Frame { x: 0, y: 0, w: global.width, h: global.height },
            pattern,
            tiling,
            nb_pattern,
            var_stripes,
            size_tiling,
            nb_delaunay,
            width_pattern,
            line_width,
            line_color,
            tightness_spiral: read_tightness(&self.data),
        };
        proof {
            let names = (theme_name@, shapes_name@, line_color_override@);
            assert(may_name(self.entry, time, names) && self.settles(names, cfg));
        }
        cfg
    }
}

} // verus!
