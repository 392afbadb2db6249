//! Sensor readings as text: how a reading arrives and how it is shown.
//!
//! A reading is held in hundredths of its unit. It arrives as a decimal
//! number: an optional sign, digits with an optional point among them, and
//! an optional exponent of ten behind an `e`. It is rounded to the nearest
//! hundredth, a next digit of five or more counting upwards in magnitude.
//! It is shown with exactly two fraction digits.

use crate::scan::{all_digits, digits_only, find_stop, is_digit, number, read_number, run_len};
use vstd::prelude::*;
use vstd::string::{StringExecFns, StringSliceAdditionalSpecFns};

verus! {

/// The byte `-`.
pub const MINUS: u8 = 0x2d;

/// The byte `+`.
pub const PLUS: u8 = 0x2b;

/// The byte `.`.
pub const DOT: u8 = 0x2e;

/// The byte `e`.
pub const MARK_LOWER: u8 = 0x65;

/// The byte `E`.
pub const MARK_UPPER: u8 = 0x45;

/// Largest magnitude that the exponent of a reading may have.
pub const EXPONENT_LIMIT: u64 = 999;

/// Largest magnitude that a reading may have, in hundredths.
pub const HUNDREDTHS_LIMIT: u64 = 100_000_000_000_000;

/// The smaller of two numbers.
pub open spec fn least(a: int, b: int) -> int {
    if a <= b {
        a
    } else {
        b
    }
}

/// True for the bytes `+` and `-`.
pub open spec fn is_sign(b: u8) -> bool {
    b == MINUS || b == PLUS
}

/// Digit `i` of a run of digits, or zero outside the run.
pub open spec fn digit_at(digits: Seq<u8>, i: int) -> int {
    if 0 <= i < digits.len() {
        digits[i] - 0x30
    } else {
        0
    }
}

/// The number that the first `k` digits write, zeros standing where the
/// run has ended.
pub open spec fn scaled(digits: Seq<u8>, k: int) -> int
    decreases k,
{
    if k <= 0 {
        0
    } else {
        scaled(digits, k - 1) * 10 + digit_at(digits, k - 1)
    }
}

/// The hundredths in a run of digits whose point stands behind digit
/// `point`: the digits up to two places behind the point, rounded by the
/// digit that follows them.
pub open spec fn rounded(digits: Seq<u8>, point: int) -> int {
    scaled(digits, point + 2) + (if digit_at(digits, point + 2) >= 5 {
        1int
    } else {
        0int
    })
}

/// The exponent that the text behind the mark writes: digits that write at
/// most `EXPONENT_LIMIT`, with an optional sign before them.
pub open spec fn exponent(x: Seq<u8>) -> Option<int> {
    let signed = x.len() > 0 && is_sign(x[0]);
    let body = if signed {
        x.skip(1)
    } else {
        x
    };
    match number(body, EXPONENT_LIMIT) {
        Some(e) => if signed && x[0] == MINUS {
            Some(-(e as int))
        } else {
            Some(e as int)
        },
        None => None,
    }
}

/// The reading that a sign, the digits of a mantissa, the number of digits
/// before its point and an exponent make up, in hundredths: there is none
/// without a digit, with a byte that is no digit, without a proper
/// exponent, or beyond the largest magnitude.
pub open spec fn assemble(negative: bool, digits: Seq<u8>, before: int, shift: Option<int>) -> Option<
    i64,
> {
    match shift {
        Some(e) => if digits.len() > 0 && all_digits(digits) && rounded(digits, before + e)
            <= HUNDREDTHS_LIMIT {
            if negative {
                Some((-rounded(digits, before + e)) as i64)
            } else {
                Some(rounded(digits, before + e) as i64)
            }
        } else {
            None
        },
        None => None,
    }
}

/// The reading that a text writes, in hundredths, if it writes one.
pub open spec fn parse_reading(s: Seq<u8>) -> Option<i64> {
    let signed = s.len() > 0 && is_sign(s[0]);
    let body = if signed {
        s.skip(1)
    } else {
        s
    };
    let mark = least(run_len(body, MARK_LOWER), run_len(body, MARK_UPPER));
    let dot = least(run_len(body, DOT), mark);
    let whole = body.subrange(0, dot);
    let frac = if dot < mark {
        body.subrange(dot + 1, mark)
    } else {
        Seq::<u8>::empty()
    };
    let shift = if mark < body.len() {
        exponent(body.skip(mark + 1))
    } else {
        Some(0int)
    };
    assemble(signed && s[0] == MINUS, whole + frac, whole.len() as int, shift)
}

/// The character that writes a digit.
pub open spec fn digit_char(d: int) -> char {
    seq!['0', '1', '2', '3', '4', '5', '6', '7', '8', '9'][d]
}

/// The decimal digits of a number, without leading zeros.
pub open spec fn digits(n: nat) -> Seq<char>
    decreases n,
{
    if n < 10 {
        seq![digit_char(n as int)]
    } else {
        digits(n / 10).push(digit_char((n % 10) as int))
    }
}

/// A count of hundredths written with two fraction digits.
pub open spec fn fixed2(h: int) -> Seq<char> {
    let m = if h < 0 {
        -h
    } else {
        h
    };
    let sign = if h < 0 {
        seq!['-']
    } else {
        Seq::<char>::empty()
    };
    sign + digits((m / 100) as nat) + seq!['.', digit_char((m / 10) % 10), digit_char(m % 10)]
}

/// A run of digits is digits throughout exactly if both its parts are.
proof fn lemma_all_digits_joined(a: Seq<u8>, b: Seq<u8>)
    ensures
        all_digits(a + b) <==> (all_digits(a) && all_digits(b)),
{
    let joined = a + b;
    if all_digits(joined) {
        assert forall|i: int| 0 <= i < a.len() implies is_digit(#[trigger] a[i]) by {
            assert(joined[i] == a[i]);
        }
        assert forall|i: int| 0 <= i < b.len() implies is_digit(#[trigger] b[i]) by {
            assert(joined[a.len() + i] == b[i]);
        }
    }
    if all_digits(a) && all_digits(b) {
        assert forall|i: int| 0 <= i < joined.len() implies is_digit(#[trigger] joined[i]) by {
            if i < a.len() {
                assert(joined[i] == a[i]);
            } else {
                assert(joined[i] == b[i - a.len()]);
            }
        }
    }
}

/// More digits never write a smaller number.
proof fn lemma_scaled_grows(digits: Seq<u8>, i: int, j: int)
    requires
        all_digits(digits),
        i <= j,
    ensures
        0 <= scaled(digits, i) <= scaled(digits, j),
    decreases j - i, j,
{
    if 0 < j {
        if i < j {
            lemma_scaled_grows(digits, i, j - 1);
        } else {
            lemma_scaled_grows(digits, i - 1, j - 1);
        }
        assert(0 <= digit_at(digits, j - 1) <= 9) by {
            if 0 <= j - 1 < digits.len() {
                assert(is_digit(digits[j - 1]));
            }
        }
    }
}

/// Digit `i` of the digits of a mantissa: those from `start` up to `dot`
/// followed by those from `from` up to `mark`.
fn digit_of(bytes: &[u8], start: usize, dot: usize, from: usize, mark: usize, i: usize) -> (v: u8)
    requires
        start <= dot <= from <= mark <= bytes@.len(),
        all_digits(bytes@.subrange(start as int, dot as int)),
        all_digits(bytes@.subrange(from as int, mark as int)),
    ensures
        v == digit_at(
            bytes@.subrange(start as int, dot as int) + bytes@.subrange(from as int, mark as int),
            i as int,
        ),
        v <= 9,
{
    let ghost whole = bytes@.subrange(start as int, dot as int);
    let ghost frac = bytes@.subrange(from as int, mark as int);
    let before: usize = dot - start;
    if i < before {
        assert((whole + frac)[i as int] == whole[i as int]);
        assert(is_digit(whole[i as int]));
        bytes[start + i] - 0x30
    } else if i - before < mark - from {
        assert((whole + frac)[i as int] == frac[i - before]);
        assert(is_digit(frac[i - before]));
        bytes[from + (i - before)] - 0x30
    } else {
        0
    }
}

/// Reads the exponent that stands from `start` to the end of the text.
fn read_exponent(bytes: &[u8], start: usize) -> (r: Option<i64>)
    requires
        start <= bytes@.len(),
    ensures
        match r {
            Some(e) => exponent(bytes@.skip(start as int)) == Some(e as int) && -999 <= e <= 999,
            None => exponent(bytes@.skip(start as int)) is None,
        },
{
    let n: usize = bytes.len();
    let ghost x = bytes@.skip(start as int);
    let signed: bool = start < n && (bytes[start] == MINUS || bytes[start] == PLUS);
    let from: usize = if signed {
        start + 1
    } else {
        start
    };
    proof {
        if signed {
            assert(x[0] == bytes@[start as int]);
            assert(x.skip(1) =~= bytes@.subrange(from as int, n as int));
        } else {
            if x.len() > 0 {
                assert(x[0] == bytes@[start as int]);
            }
            assert(x =~= bytes@.subrange(from as int, n as int));
        }
    }
    match read_number(bytes, from, n, EXPONENT_LIMIT) {
        Some(e) => if signed && bytes[start] == MINUS {
            Some(-(e as i64))
        } else {
            Some(e as i64)
        },
        None => None,
    }
}

/// A reading is made up of the parts that the marks in its text cut out.
proof fn lemma_reading_parts(s: Seq<u8>, start: int, lower: int, upper: int, stop: int)
    requires
        start == (if s.len() > 0 && is_sign(s[0]) {
            1int
        } else {
            0int
        }),
        start <= lower <= s.len(),
        start <= upper <= s.len(),
        start <= stop <= s.len(),
        lower - start == run_len(s.skip(start), MARK_LOWER),
        upper - start == run_len(s.skip(start), MARK_UPPER),
        stop - start == run_len(s.skip(start), DOT),
    ensures
        ({
            let mark = least(lower, upper);
            let dot = least(stop, mark);
            let from = if dot < mark {
                dot + 1
            } else {
                mark
            };
            parse_reading(s) == assemble(
                start == 1 && s[0] == MINUS,
                s.subrange(start, dot) + s.subrange(from, mark),
                dot - start,
                if mark < s.len() {
                    exponent(s.skip(mark + 1))
                } else {
                    Some(0int)
                },
            )
        }),
{
    let mark = least(lower, upper);
    let dot = least(stop, mark);
    let from = if dot < mark {
        dot + 1
    } else {
        mark
    };
    let body = s.skip(start);
    assert(body =~= (if start == 1 {
        s.skip(1)
    } else {
        s
    }));
    assert(body.subrange(0, dot - start) =~= s.subrange(start, dot));
    if dot < mark {
        assert(body.subrange(dot - start + 1, mark - start) =~= s.subrange(from, mark));
    } else {
        assert(Seq::<u8>::empty() =~= s.subrange(from, mark));
    }
    if mark < s.len() {
        assert(body.skip(mark - start + 1) =~= s.skip(mark + 1));
    }
}

/// Adds up the digits of a mantissa to hundredths.
fn round_digits(
    bytes: &[u8],
    start: usize,
    dot: usize,
    from: usize,
    mark: usize,
    shift: i64,
) -> (r: Option<u64>)
    requires
        start <= dot <= from <= mark <= bytes@.len(),
        all_digits(bytes@.subrange(start as int, dot as int)),
        all_digits(bytes@.subrange(from as int, mark as int)),
        -999 <= shift <= 999,
    ensures
        ({
            let digits = bytes@.subrange(start as int, dot as int) + bytes@.subrange(
                from as int,
                mark as int,
            );
            let sum = rounded(digits, dot - start + shift);
            match r {
                Some(total) => total == sum && total <= HUNDREDTHS_LIMIT,
                None => sum > HUNDREDTHS_LIMIT,
            }
        }),
{
    let ghost whole = bytes@.subrange(start as int, dot as int);
    let ghost frac = bytes@.subrange(from as int, mark as int);
    let ghost digits = whole + frac;
    proof {
        lemma_all_digits_joined(whole, frac);
    }
    let count: usize = (dot - start) + (mark - from);
    let places: i128 = (dot - start) as i128 + shift as i128 + 2;
    let mut value: u64 = 0;
    let mut i: i128 = 0;
    while i < places
        invariant
            0 <= i,
            i <= places || i == 0,
            places == (dot - start) + shift + 2,
            start <= dot <= from <= mark <= bytes@.len(),
            count == digits.len(),
            whole == bytes@.subrange(start as int, dot as int),
            frac == bytes@.subrange(from as int, mark as int),
            digits == whole + frac,
            all_digits(whole),
            all_digits(frac),
            all_digits(digits),
            value == scaled(digits, i as int),
            value <= HUNDREDTHS_LIMIT,
        decreases places - i,
    {
        let digit: u8 = if i < count as i128 {
            digit_of(bytes, start, dot, from, mark, i as usize)
        } else {
            0
        };
        let next: u64 = value * 10 + digit as u64;
        assert(next == scaled(digits, i + 1));
        if next > HUNDREDTHS_LIMIT {
            proof {
                lemma_scaled_grows(digits, i + 1, places as int);
            }
            return None;
        }
        value = next;
        i += 1;
    }
    assert(value == scaled(digits, places as int));
    let follows: u8 = if 0 <= places && places < count as i128 {
        digit_of(bytes, start, dot, from, mark, places as usize)
    } else {
        0
    };
    assert(follows == digit_at(digits, places as int));
    let total: u64 = if follows >= 5 {
        value + 1
    } else {
        value
    };
    if total > HUNDREDTHS_LIMIT {
        None
    } else {
        Some(total)
    }
}

/// Reads a reading from its bytes, in hundredths.
pub fn read_reading(bytes: &[u8]) -> (r: Option<i64>)
    ensures
        r == parse_reading(bytes@),
{
    let n: usize = bytes.len();
    let signed: bool = n > 0 && (bytes[0] == MINUS || bytes[0] == PLUS);
    let negative: bool = signed && bytes[0] == MINUS;
    let start: usize = if signed {
        1
    } else {
        0
    };
    let lower: usize = find_stop(bytes, start, MARK_LOWER);
    let upper: usize = find_stop(bytes, start, MARK_UPPER);
    let mark: usize = if lower <= upper {
        lower
    } else {
        upper
    };
    let stop: usize = find_stop(bytes, start, DOT);
    let dot: usize = if stop <= mark {
        stop
    } else {
        mark
    };
    let from: usize = if dot < mark {
        dot + 1
    } else {
        mark
    };
    let ghost whole = bytes@.subrange(start as int, dot as int);
    let ghost frac = bytes@.subrange(from as int, mark as int);
    proof {
        lemma_reading_parts(bytes@, start as int, lower as int, upper as int, stop as int);
        lemma_all_digits_joined(whole, frac);
    }
    if !digits_only(bytes, start, dot) || !digits_only(bytes, from, mark) {
        return None;
    }
    if (dot - start) + (mark - from) == 0 {
        return None;
    }
    let by: i64 = if mark < n {
        match read_exponent(bytes, mark + 1) {
            Some(e) => e,
            None => {
                return None;
            },
        }
    } else {
        0
    };
    match round_digits(bytes, start, dot, from, mark, by) {
        Some(total) => if negative {
            Some(-(total as i64))
        } else {
            Some(total as i64)
        },
        None => None,
    }
}

/// Reads a reading from a text, in hundredths.
pub fn read_reading_str(s: &str) -> (r: Option<i64>)
    ensures
        r == parse_reading(s.spec_bytes()),
{
    read_reading(s.as_bytes())
}

/// The text of one digit.
fn digit_str(d: u64) -> (s: &'static str)
    requires
        d < 10,
    ensures
        s@ == seq![digit_char(d as int)],
{
    proof {
        reveal_strlit("0");
        reveal_strlit("1");
        reveal_strlit("2");
        reveal_strlit("3");
        reveal_strlit("4");
        reveal_strlit("5");
        reveal_strlit("6");
        reveal_strlit("7");
        reveal_strlit("8");
        reveal_strlit("9");
    }
    let s = if d == 0 {
        "0"
    } else if d == 1 {
        "1"
    } else if d == 2 {
        "2"
    } else if d == 3 {
        "3"
    } else if d == 4 {
        "4"
    } else if d == 5 {
        "5"
    } else if d == 6 {
        "6"
    } else if d == 7 {
        "7"
    } else if d == 8 {
        "8"
    } else {
        "9"
    };
    assert(s@ =~= seq![digit_char(d as int)]);
    s
}

/// Appends the decimal digits of a number.
fn push_digits(out: &mut String, n: u64)
    ensures
        final(out)@ == old(out)@ + digits(n as nat),
    decreases n,
{
    if n >= 10 {
        push_digits(out, n / 10);
    }
    out.append(digit_str(n % 10));
    assert(out@ =~= old(out)@ + digits(n as nat));
}

/// Writes a count of hundredths with two fraction digits.
pub fn format_fixed2(h: i64) -> (text: String)
    ensures
        text@ == fixed2(h as int),
{
    let m: u64 = if h < 0 {
        ((-(h + 1)) as u64) + 1
    } else {
        h as u64
    };
    let mut text = String::new();
    if h < 0 {
        proof {
            reveal_strlit("-");
        }
        text.append("-");
    }
    push_digits(&mut text, m / 100);
    proof {
        reveal_strlit(".");
    }
    text.append(".");
    text.append(digit_str((m / 10) % 10));
    text.append(digit_str(m % 10));
    assert(text@ =~= fixed2(h as int));
    text
}

/// Writes a reading with its unit behind it.
pub fn format_reading(h: i64, unit: &str) -> (text: String)
    ensures
        text@ == fixed2(h as int) + unit@,
{
    let mut text = format_fixed2(h);
    text.append(unit);
    text
}

} // verus!
