//! Sines and cosines of whole degrees, in millionths.

use vstd::prelude::*;
use crate::fixed::{clip, clip_wide, div_round, div_round_wide};

verus! {

/// Scale of the table: a sine of one is stored as this number.
pub const TRIG_ONE: i32 = 1_000_000;

/// Sine of `d` degrees in millionths, for `d` in the first quadrant.
#[verifier::opaque]
pub open spec fn quadrant_sine(d: int) -> int {
    if d == 0 {
        0
    } else if d == 1 {
        17452
    } else if d == 2 {
        34899
    } else if d == 3 {
        52336
    } else if d == 4 {
        69756
    } else if d == 5 {
        87156
    } else if d == 6 {
        104528
    } else if d == 7 {
        121869
    } else if d == 8 {
        139173
    } else if d == 9 {
        156434
    } else if d == 10 {
        173648
    } else if d == 11 {
        190809
    } else if d == 12 {
        207912
    } else if d == 13 {
        224951
    } else if d == 14 {
        241922
    } else if d == 15 {
        258819
    } else if d == 16 {
        275637
    } else if d == 17 {
        292372
    } else if d == 18 {
        309017
    } else if d == 19 {
        325568
    } else if d == 20 {
        342020
    } else if d == 21 {
        358368
    } else if d == 22 {
        374607
    } else if d == 23 {
        390731
    } else if d == 24 {
        406737
    } else if d == 25 {
        422618
    } else if d == 26 {
        438371
    } else if d == 27 {
        453990
    } else if d == 28 {
        469472
    } else if d == 29 {
        484810
    } else if d == 30 {
        500000
    } else if d == 31 {
        515038
    } else if d == 32 {
        529919
    } else if d == 33 {
        544639
    } else if d == 34 {
        559193
    } else if d == 35 {
        573576
    } else if d == 36 {
        587785
    } else if d == 37 {
        601815
    } else if d == 38 {
        615661
    } else if d == 39 {
        629320
    } else if d == 40 {
        642788
    } else if d == 41 {
        656059
    } else if d == 42 {
        669131
    } else if d == 43 {
        681998
    } else if d == 44 {
        694658
    } else if d == 45 {
        707107
    } else if d == 46 {
        719340
    } else if d == 47 {
        731354
    } else if d == 48 {
        743145
    } else if d == 49 {
        754710
    } else if d == 50 {
        766044
    } else if d == 51 {
        777146
    } else if d == 52 {
        788011
    } else if d == 53 {
        798636
    } else if d == 54 {
        809017
    } else if d == 55 {
        819152
    } else if d == 56 {
        829038
    } else if d == 57 {
        838671
    } else if d == 58 {
        848048
    } else if d == 59 {
        857167
    } else if d == 60 {
        866025
    } else if d == 61 {
        874620
    } else if d == 62 {
        882948
    } else if d == 63 {
        891007
    } else if d == 64 {
        898794
    } else if d == 65 {
        906308
    } else if d == 66 {
        913545
    } else if d == 67 {
        920505
    } else if d == 68 {
        927184
    } else if d == 69 {
        933580
    } else if d == 70 {
        939693
    } else if d == 71 {
        945519
    } else if d == 72 {
        951057
    } else if d == 73 {
        956305
    } else if d == 74 {
        961262
    } else if d == 75 {
        965926
    } else if d == 76 {
        970296
    } else if d == 77 {
        974370
    } else if d == 78 {
        978148
    } else if d == 79 {
        981627
    } else if d == 80 {
        984808
    } else if d == 81 {
        987688
    } else if d == 82 {
        990268
    } else if d == 83 {
        992546
    } else if d == 84 {
        994522
    } else if d == 85 {
        996195
    } else if d == 86 {
        997564
    } else if d == 87 {
        998630
    } else if d == 88 {
        999391
    } else if d == 89 {
        999848
    } else {
        1000000
    }
}

/// The angle `a` brought into `0..360`.
pub open spec fn turn(a: int) -> int {
    a % 360
}

/// Sine of `a` degrees in millionths.
pub open spec fn sine(a: int) -> int {
    let m = turn(a);
    if m <= 90 {
        quadrant_sine(m)
    } else if m <= 180 {
        quadrant_sine(180 - m)
    } else if m <= 270 {
        -quadrant_sine(m - 180)
    } else {
        -quadrant_sine(360 - m)
    }
}

/// Cosine of `a` degrees in millionths.
pub open spec fn cosine(a: int) -> int {
    sine(a + 90)
}

/// `r` times the sine of `a` degrees, rounded.
pub open spec fn times_sine(r: int, a: int) -> int {
    clip(div_round(r * sine(a), TRIG_ONE as int))
}

/// `r` times the cosine of `a` degrees, rounded.
pub open spec fn times_cosine(r: int, a: int) -> int {
    clip(div_round(r * cosine(a), TRIG_ONE as int))
}

/// `r` divided by the cosine of `a` degrees, rounded; zero where the cosine is not positive.
pub open spec fn over_cosine(r: int, a: int) -> int {
    if cosine(a) > 0 {
        clip(div_round(r * TRIG_ONE, cosine(a)))
    } else {
        0
    }
}

/// `r` times the tangent of `a` degrees, rounded; zero where the cosine is not positive.
pub open spec fn times_tangent(r: int, a: int) -> int {
    if cosine(a) > 0 {
        clip(div_round(r * sine(a), cosine(a)))
    } else {
        0
    }
}

fn table_sine(d: i32) -> (r: i32)
    requires
        0 <= d <= 90,
    ensures
        r == quadrant_sine(d as int),
        0 <= r <= TRIG_ONE,
{
    reveal(quadrant_sine);
    if d == 0 {
        0
    } else if d == 1 {
        17452
    } else if d == 2 {
        34899
    } else if d == 3 {
        52336
    } else if d == 4 {
        69756
    } else if d == 5 {
        87156
    } else if d == 6 {
        104528
    } else if d == 7 {
        121869
    } else if d == 8 {
        139173
    } else if d == 9 {
        156434
    } else if d == 10 {
        173648
    } else if d == 11 {
        190809
    } else if d == 12 {
        207912
    } else if d == 13 {
        224951
    } else if d == 14 {
        241922
    } else if d == 15 {
        258819
    } else if d == 16 {
        275637
    } else if d == 17 {
        292372
    } else if d == 18 {
        309017
    } else if d == 19 {
        325568
    } else if d == 20 {
        342020
    } else if d == 21 {
        358368
    } else if d == 22 {
        374607
    } else if d == 23 {
        390731
    } else if d == 24 {
        406737
    } else if d == 25 {
        422618
    } else if d == 26 {
        438371
    } else if d == 27 {
        453990
    } else if d == 28 {
        469472
    } else if d == 29 {
        484810
    } else if d == 30 {
        500000
    } else if d == 31 {
        515038
    } else if d == 32 {
        529919
    } else if d == 33 {
        544639
    } else if d == 34 {
        559193
    } else if d == 35 {
        573576
    } else if d == 36 {
        587785
    } else if d == 37 {
        601815
    } else if d == 38 {
        615661
    } else if d == 39 {
        629320
    } else if d == 40 {
        642788
    } else if d == 41 {
        656059
    } else if d == 42 {
        669131
    } else if d == 43 {
        681998
    } else if d == 44 {
        694658
    } else if d == 45 {
        707107
    } else if d == 46 {
        719340
    } else if d == 47 {
        731354
    } else if d == 48 {
        743145
    } else if d == 49 {
        754710
    } else if d == 50 {
        766044
    } else if d == 51 {
        777146
    } else if d == 52 {
        788011
    } else if d == 53 {
        798636
    } else if d == 54 {
        809017
    } else if d == 55 {
        819152
    } else if d == 56 {
        829038
    } else if d == 57 {
        838671
    } else if d == 58 {
        848048
    } else if d == 59 {
        857167
    } else if d == 60 {
        866025
    } else if d == 61 {
        874620
    } else if d == 62 {
        882948
    } else if d == 63 {
        891007
    } else if d == 64 {
        898794
    } else if d == 65 {
        906308
    } else if d == 66 {
        913545
    } else if d == 67 {
        920505
    } else if d == 68 {
        927184
    } else if d == 69 {
        933580
    } else if d == 70 {
        939693
    } else if d == 71 {
        945519
    } else if d == 72 {
        951057
    } else if d == 73 {
        956305
    } else if d == 74 {
        961262
    } else if d == 75 {
        965926
    } else if d == 76 {
        970296
    } else if d == 77 {
        974370
    } else if d == 78 {
        978148
    } else if d == 79 {
        981627
    } else if d == 80 {
        984808
    } else if d == 81 {
        987688
    } else if d == 82 {
        990268
    } else if d == 83 {
        992546
    } else if d == 84 {
        994522
    } else if d == 85 {
        996195
    } else if d == 86 {
        997564
    } else if d == 87 {
        998630
    } else if d == 88 {
        999391
    } else if d == 89 {
        999848
    } else {
        1000000
    }
}

/// Whole turns of one angle do not matter when another is added.
pub proof fn lemma_turn_add(x: int, y: int)
    ensures
        turn(turn(x) + y) == turn(x + y),
        turn(turn(x) + turn(y)) == turn(x + y),
{
}

/// Angles that differ by whole turns have the same sine and cosine.
pub proof fn lemma_periodic(a: int, b: int)
    requires
        turn(a) == turn(b),
    ensures
        sine(a) == sine(b),
        cosine(a) == cosine(b),
{
    assert(turn(a + 90) == turn(turn(a) + 90));
    assert(turn(b + 90) == turn(turn(b) + 90));
}

/// Brings an angle in degrees into `0..360`.
pub fn normalize(a: i32) -> (r: i32)
    ensures
        r == turn(a as int),
        0 <= r < 360,
{
    let m: i32 = a % 360;
    if m < 0 {
        m + 360
    } else {
        m
    }
}

/// An angle of any size brought into `0..360`.
pub fn normalize_wide(a: i128) -> (r: i32)
    ensures
        r == turn(a as int),
        0 <= r < 360,
{
    let m: i128 = a % 360;
    if m < 0 {
        (m + 360) as i32
    } else {
        m as i32
    }
}

/// The sum of two angles, brought into `0..360`.
pub fn turn_sum(a: i32, b: i32) -> (r: i32)
    ensures
        r == turn(a + b),
        0 <= r < 360,
{
    let s: i32 = normalize(a) + normalize(b);
    if s >= 360 {
        s - 360
    } else {
        s
    }
}

/// Sine of `a` degrees in millionths.
pub fn sin_deg(a: i32) -> (r: i32)
    ensures
        r == sine(a as int),
        -TRIG_ONE <= r <= TRIG_ONE,
{
    let m: i32 = normalize(a);
    if m <= 90 {
        table_sine(m)
    } else if m <= 180 {
        table_sine(180 - m)
    } else if m <= 270 {
        -table_sine(m - 180)
    } else {
        -table_sine(360 - m)
    }
}

/// Cosine of `a` degrees in millionths.
pub fn cos_deg(a: i32) -> (r: i32)
    ensures
        r == cosine(a as int),
        -TRIG_ONE <= r <= TRIG_ONE,
{
    let m: i32 = normalize(a);
    assert(turn(a as int + 90) == turn(m as int + 90));
    sin_deg(m + 90)
}

/// `r` times the sine of `a` degrees.
pub fn mul_sin(r: i32, a: i32) -> (v: i32)
    ensures
        v == times_sine(r as int, a as int),
{
    let s: i32 = sin_deg(a);
    assert(-0x1_0000_0000_0000_0000 < r * s < 0x1_0000_0000_0000_0000) by (nonlinear_arith)
        requires
            -0x8000_0000 <= r <= 0x7fff_ffff,
            -1_000_000 <= s <= 1_000_000,
    ;
    let wide: i128 = r as i128 * s as i128;
    clip_wide(div_round_wide(wide, 1_000_000))
}

/// `r` times the cosine of `a` degrees.
pub fn mul_cos(r: i32, a: i32) -> (v: i32)
    ensures
        v == times_cosine(r as int, a as int),
{
    let c: i32 = cos_deg(a);
    assert(-0x1_0000_0000_0000_0000 < r * c < 0x1_0000_0000_0000_0000) by (nonlinear_arith)
        requires
            -0x8000_0000 <= r <= 0x7fff_ffff,
            -1_000_000 <= c <= 1_000_000,
    ;
    let wide: i128 = r as i128 * c as i128;
    clip_wide(div_round_wide(wide, 1_000_000))
}

/// `r` divided by the cosine of `a` degrees.
pub fn div_cos(r: i32, a: i32) -> (v: i32)
    ensures
        v == over_cosine(r as int, a as int),
{
    let c: i32 = cos_deg(a);
    if c > 0 {
        let wide: i128 = r as i128 * 1_000_000;
        clip_wide(div_round_wide(wide, c as i128))
    } else {
        0
    }
}

/// `r` times the tangent of `a` degrees.
pub fn mul_tan(r: i32, a: i32) -> (v: i32)
    ensures
        v == times_tangent(r as int, a as int),
{
    let c: i32 = cos_deg(a);
    if c > 0 {
        let s: i32 = sin_deg(a);
        assert(-0x1_0000_0000_0000_0000 < r * s < 0x1_0000_0000_0000_0000) by (nonlinear_arith)
            requires
                -0x8000_0000 <= r <= 0x7fff_ffff,
                -1_000_000 <= s <= 1_000_000,
        ;
        let wide: i128 = r as i128 * s as i128;
        clip_wide(div_round_wide(wide, c as i128))
    } else {
        0
    }
}

} // verus!
