//! Numbers written out in decimal digits.

use vstd::prelude::*;
use vstd::string::StringExecFns;

verus! {

/// The character for a single digit.
pub open spec fn digit(d: int) -> char {
    if d == 0 {
        '0'
    } else if d == 1 {
        '1'
    } else if d == 2 {
        '2'
    } else if d == 3 {
        '3'
    } else if d == 4 {
        '4'
    } else if d == 5 {
        '5'
    } else if d == 6 {
        '6'
    } else if d == 7 {
        '7'
    } else if d == 8 {
        '8'
    } else {
        '9'
    }
}

/// The decimal digits of `n`, without leading zeros.
pub open spec fn digits(n: nat) -> Seq<char>
    decreases n,
{
    if n < 10 {
        seq![digit(n as int)]
    } else {
        digits(n / 10).push(digit((n % 10) as int))
    }
}

/// `acc` followed by the digits of `n`.
pub open spec fn with_number(acc: Seq<char>, n: nat) -> Seq<char> {
    acc + digits(n)
}

/// `acc` followed by `v` in decimal, with a minus sign if it is negative.
pub open spec fn with_signed(acc: Seq<char>, v: int) -> Seq<char> {
    if v < 0 {
        with_number(acc + seq!['-'], (-v) as nat)
    } else {
        with_number(acc, v as nat)
    }
}

/// `acc` followed by a number of hundredths as a decimal fraction with two places.
pub open spec fn with_hundredths(acc: Seq<char>, v: int) -> Seq<char> {
    let m: nat = if v < 0 {
        (-v) as nat
    } else {
        v as nat
    };
    let start = if v < 0 {
        acc + seq!['-']
    } else {
        acc
    };
    with_number(start, m / 100) + seq!['.'] + seq![digit(((m / 10) % 10) as int)] + seq![
        digit((m % 10) as int),
    ]
}

/// The text of a single digit.
fn digit_str(d: u8) -> (r: &'static str)
    requires
        d < 10,
    ensures
        r@ == seq![digit(d as int)],
{
    proof {
        reveal_strlit("0");
        reveal_strlit("1");
        reveal_strlit("2");
        reveal_strlit("3");
        reveal_strlit("4");
        reveal_strlit("5");
        reveal_strlit("6");
        reveal_strlit("7");
        reveal_strlit("8");
        reveal_strlit("9");
    }
    let r = if d == 0 {
        "0"
    } else if d == 1 {
        "1"
    } else if d == 2 {
        "2"
    } else if d == 3 {
        "3"
    } else if d == 4 {
        "4"
    } else if d == 5 {
        "5"
    } else if d == 6 {
        "6"
    } else if d == 7 {
        "7"
    } else if d == 8 {
        "8"
    } else {
        "9"
    };
    assert(r@ =~= seq![digit(d as int)]);
    r
}

/// Writes the digits of `n` at the end of `out`.
pub fn push_number(out: &mut String, n: u128)
    ensures
        final(out)@ == with_number(old(out)@, n as nat),
    decreases n,
{
    if n >= 10 {
        push_number(out, n / 10);
    }
    out.append(digit_str((n % 10) as u8));
    assert(out@ =~= with_number(old(out)@, n as nat));
}

/// Writes `v` in decimal at the end of `out`.
pub fn push_signed(out: &mut String, v: i128)
    requires
        v > i128::MIN,
    ensures
        final(out)@ == with_signed(old(out)@, v as int),
{
    if v < 0 {
        proof {
            reveal_strlit("-");
        }
        out.append("-");
        assert(out@ =~= old(out)@ + seq!['-']);
        push_number(out, (-v) as u128);
    } else {
        push_number(out, v as u128);
    }
}

/// Writes a number of hundredths as a decimal fraction at the end of `out`.
pub fn push_hundredths(out: &mut String, v: i128)
    requires
        v > i128::MIN,
    ensures
        final(out)@ == with_hundredths(old(out)@, v as int),
{
    proof {
        reveal_strlit("-");
        reveal_strlit(".");
    }
    let m: u128 = if v < 0 {
        (-v) as u128
    } else {
        v as u128
    };
    if v < 0 {
        out.append("-");
        assert(out@ =~= old(out)@ + seq!['-']);
    }
    push_number(out, m / 100);
    out.append(".");
    out.append(digit_str(((m / 10) % 10) as u8));
    out.append(digit_str((m % 10) as u8));
}

/// Whether two texts are the same.
pub fn same(a: &[u8], b: &[u8]) -> (r: bool)
    ensures
        r == (a@ == b@),
{
    if a.len() != b.len() {
        return false;
    }
    let mut i: usize = 0;
    while i < a.len()
        invariant
            0 <= i <= a@.len(),
            a@.len() == b@.len(),
            forall|k: int| 0 <= k < i ==> a@[k] == b@[k],
        decreases a@.len() - i,
    {
        if a[i] != b[i] {
            return false;
        }
        i = i + 1;
    }
    assert(a@ =~= b@);
    true
}

/// Whether `c` is one of the digits from `0` to `9`.
pub open spec fn is_digit(c: u8) -> bool {
    48 <= c <= 57
}

/// The number that the first `n` characters of `s` spell, read as digits.
pub open spec fn value_of(s: Seq<u8>, n: int) -> nat
    decreases n,
{
    if n <= 0 {
        0
    } else {
        (value_of(s, n - 1) * 10 + (s[n - 1] - 48)) as nat
    }
}

/// The number that `s` spells: `s` is not empty, holds digits alone, and
/// the number is not above `max`.
pub open spec fn number_of(s: Seq<u8>, max: nat) -> Option<nat> {
    if s.len() > 0 && (forall|i: int| 0 <= i < s.len() ==> is_digit(#[trigger] s[i])) && value_of(
        s,
        s.len() as int,
    ) <= max {
        Some(value_of(s, s.len() as int))
    } else {
        None
    }
}

/// The value of a number grows with each digit that is read.
pub proof fn lemma_value_grows(s: Seq<u8>, i: int, j: int)
    requires
        0 <= i <= j <= s.len(),
        forall|k: int| 0 <= k < j ==> is_digit(#[trigger] s[k]),
    ensures
        value_of(s, i) <= value_of(s, j),
    decreases j - i,
{
    if i < j {
        lemma_value_grows(s, i, j - 1);
        assert(is_digit(s[j - 1]));
    }
}

/// Reads a number that is not above `max`.
pub fn parse_number(s: &[u8], max: u64) -> (r: Option<u64>)
    ensures
        match r {
            Some(v) => number_of(s@, max as nat) == Some(v as nat),
            None => number_of(s@, max as nat) is None,
        },
{
    if s.len() == 0 {
        return None;
    }
    let mut v: u64 = 0;
    let mut i: usize = 0;
    while i < s.len()
        invariant
            0 <= i <= s@.len(),
            forall|k: int| 0 <= k < i ==> is_digit(#[trigger] s@[k]),
            v == value_of(s@, i as int),
            v <= max,
        decreases s@.len() - i,
    {
        let c: u8 = s[i];
        if c < 48 || c > 57 {
            return None;
        }
        let d: u64 = (c - 48) as u64;
        let next: u128 = v as u128 * 10 + d as u128;
        assert(value_of(s@, i + 1) == next);
        if next > max as u128 {
            proof {
                if forall|k: int| 0 <= k < s@.len() ==> is_digit(#[trigger] s@[k]) {
                    lemma_value_grows(s@, i + 1, s@.len() as int);
                }
            }
            return None;
        }
        v = v * 10 + d;
        i = i + 1;
    }
    Some(v)
}

/// The value of a hexadecimal digit, in either case.
pub open spec fn hex_digit(c: u8) -> Option<int> {
    if 48 <= c <= 57 {
        Some(c - 48)
    } else if 97 <= c <= 102 {
        Some(c - 87)
    } else if 65 <= c <= 70 {
        Some(c - 55)
    } else {
        None
    }
}

/// The value of two hexadecimal digits.
pub open spec fn hex_pair(a: u8, b: u8) -> Option<int> {
    match (hex_digit(a), hex_digit(b)) {
        (Some(h), Some(l)) => Some(16 * h + l),
        _ => None,
    }
}

fn hex_digit_of(c: u8) -> (r: Option<u8>)
    ensures
        match r {
            Some(v) => hex_digit(c) == Some(v as int) && v < 16,
            None => hex_digit(c) is None,
        },
{
    if 48 <= c && c <= 57 {
        Some(c - 48)
    } else if 97 <= c && c <= 102 {
        Some(c - 87)
    } else if 65 <= c && c <= 70 {
        Some(c - 55)
    } else {
        None
    }
}

/// Reads two hexadecimal digits.
pub fn parse_hex_pair(a: u8, b: u8) -> (r: Option<u8>)
    ensures
        match r {
            Some(v) => hex_pair(a, b) == Some(v as int),
            None => hex_pair(a, b) is None,
        },
{
    match (hex_digit_of(a), hex_digit_of(b)) {
        (Some(h), Some(l)) => Some(16 * h + l),
        _ => None,
    }
}

/// Where the word that starts at `from` ends: at the next `sep`, or at the
/// end of the text.
pub open spec fn word_end(s: Seq<u8>, from: int, sep: u8) -> int
    decreases s.len() - from,
{
    if from >= s.len() {
        s.len() as int
    } else if s[from] == sep {
        from
    } else {
        word_end(s, from + 1, sep)
    }
}

/// Finds where the word that starts at `from` ends.
pub fn find_word_end(s: &[u8], from: usize, sep: u8) -> (end: usize)
    requires
        from <= s@.len(),
    ensures
        end == word_end(s@, from as int, sep),
        from <= end <= s@.len(),
{
    let mut i: usize = from;
    while i < s.len() && s[i] != sep
        invariant
            from <= i <= s@.len(),
            word_end(s@, from as int, sep) == word_end(s@, i as int, sep),
        decreases s@.len() - i,
    {
        i = i + 1;
    }
    i
}

/// A copy of a part of a text.
pub fn copy_range(s: &[u8], from: usize, to: usize) -> (r: Vec<u8>)
    requires
        from <= to <= s@.len(),
    ensures
        r@ == s@.subrange(from as int, to as int),
{
    let mut r: Vec<u8> = Vec::new();
    let mut i: usize = from;
    while i < to
        invariant
            from <= i <= to <= s@.len(),
            r@ == s@.subrange(from as int, i as int),
        decreases to - i,
    {
        r.push(s[i]);
        assert(s@.subrange(from as int, i + 1) =~= s@.subrange(from as int, i as int).push(s@[i as int]));
        i = i + 1;
    }
    r
}

} // verus!
