//! Reading bytes of text: runs up to a separator, and decimal numbers.

use vstd::prelude::*;

verus! {

/// Largest bound that `read_number` accepts: one more digit still fits.
pub const NUMBER_LIMIT: u64 = 1_000_000_000_000_000;

/// True for the bytes `0` to `9`.
pub open spec fn is_digit(b: u8) -> bool {
    0x30 <= b <= 0x39
}

/// True if every byte is a decimal digit.
pub open spec fn all_digits(s: Seq<u8>) -> bool {
    forall|i: int| 0 <= i < s.len() ==> is_digit(#[trigger] s[i])
}

/// The number that a run of decimal digits writes.
pub open spec fn decimal(s: Seq<u8>) -> nat
    decreases s.len(),
{
    if s.len() == 0 {
        0
    } else {
        decimal(s.drop_last()) * 10 + (s.last() - 0x30) as nat
    }
}

/// The number that a text writes, if it is one or more decimal digits that
/// write a number of at most `limit`.
pub open spec fn number(s: Seq<u8>, limit: u64) -> Option<u64> {
    if s.len() > 0 && all_digits(s) && decimal(s) <= limit {
        Some(decimal(s) as u64)
    } else {
        None
    }
}

/// Number of bytes before the first `stop`, or the length of the text if
/// `stop` does not occur in it.
pub open spec fn run_len(s: Seq<u8>, stop: u8) -> int
    decreases s.len(),
{
    if s.len() == 0 || s[0] == stop {
        0
    } else {
        1 + run_len(s.skip(1), stop)
    }
}

/// A run ends at the first `stop`, and only there.
pub proof fn lemma_run_len(s: Seq<u8>, stop: u8, n: int)
    requires
        0 <= n <= s.len(),
        forall|k: int| 0 <= k < n ==> s[k] != stop,
        n == s.len() || s[n] == stop,
    ensures
        run_len(s, stop) == n,
    decreases n,
{
    if n > 0 {
        let rest = s.skip(1);
        assert forall|k: int| 0 <= k < n - 1 implies rest[k] != stop by {
            assert(rest[k] == s[k + 1]);
        }
        lemma_run_len(rest, stop, n - 1);
    }
}

/// Index of the first `stop` at or after `start`, or the length of the text
/// if there is none.
pub fn find_stop(bytes: &[u8], start: usize, stop: u8) -> (end: usize)
    requires
        start <= bytes@.len(),
    ensures
        start <= end <= bytes@.len(),
        end - start == run_len(bytes@.skip(start as int), stop),
        end < bytes@.len() ==> bytes@[end as int] == stop,
{
    let mut end: usize = start;
    while end < bytes.len() && bytes[end] != stop
        invariant
            start <= end <= bytes@.len(),
            forall|k: int| start <= k < end ==> bytes@[k] != stop,
        decreases bytes@.len() - end,
    {
        end += 1;
    }
    proof {
        let rest = bytes@.skip(start as int);
        assert forall|k: int| 0 <= k < end - start implies rest[k] != stop by {
            assert(rest[k] == bytes@[start + k]);
        }
        lemma_run_len(rest, stop, end - start);
    }
    end
}

/// Reads the bytes from `start` up to `end` as a decimal number of at most
/// `limit`.
pub fn read_number(bytes: &[u8], start: usize, end: usize, limit: u64) -> (r: Option<u64>)
    requires
        start <= end <= bytes@.len(),
        limit <= NUMBER_LIMIT,
    ensures
        r == number(bytes@.subrange(start as int, end as int), limit),
{
    let mut at: usize = start;
    let mut value: u64 = 0;
    let mut valid: bool = true;
    while at < end
        invariant
            start <= at <= end <= bytes@.len(),
            limit <= NUMBER_LIMIT,
            valid <==> (all_digits(bytes@.subrange(start as int, at as int)) && decimal(
                bytes@.subrange(start as int, at as int),
            ) <= limit),
            valid ==> value == decimal(bytes@.subrange(start as int, at as int)),
        decreases end - at,
    {
        let b: u8 = bytes[at];
        proof {
            let before = bytes@.subrange(start as int, at as int);
            let after = bytes@.subrange(start as int, at + 1);
            assert(after.drop_last() =~= before);
            assert(after.last() == b);
            assert(decimal(after) == decimal(before) * 10 + (b - 0x30) as nat);
            if all_digits(after) {
                assert forall|i: int| 0 <= i < before.len() implies is_digit(
                    #[trigger] before[i],
                ) by {
                    assert(before[i] == after[i]);
                }
            }
            if all_digits(before) && is_digit(b) {
                assert forall|i: int| 0 <= i < after.len() implies is_digit(#[trigger] after[i]) by {
                    if i < before.len() {
                        assert(after[i] == before[i]);
                    }
                }
            }
            if !is_digit(b) {
                assert(!is_digit(after[after.len() - 1]));
            }
        }
        if valid && 0x30 <= b && b <= 0x39 {
            let next: u64 = value * 10 + (b - 0x30) as u64;
            if next <= limit {
                value = next;
            } else {
                valid = false;
            }
        } else {
            valid = false;
        }
        at += 1;
    }
    if valid && end > start {
        Some(value)
    } else {
        None
    }
}

/// True if every byte from `start` up to `end` is a decimal digit.
pub fn digits_only(bytes: &[u8], start: usize, end: usize) -> (r: bool)
    requires
        start <= end <= bytes@.len(),
    ensures
        r == all_digits(bytes@.subrange(start as int, end as int)),
{
    let mut at: usize = start;
    while at < end
        invariant
            start <= at <= end <= bytes@.len(),
            forall|k: int| start <= k < at ==> is_digit(bytes@[k]),
        decreases end - at,
    {
        let b: u8 = bytes[at];
        if !(0x30 <= b && b <= 0x39) {
            assert(!is_digit(bytes@.subrange(start as int, end as int)[at - start]));
            return false;
        }
        at += 1;
    }
    assert forall|i: int| 0 <= i < end - start implies is_digit(
        #[trigger] bytes@.subrange(start as int, end as int)[i],
    ) by {
        assert(is_digit(bytes@[start + i]));
    }
    true
}

/// True if `needle` stands in `hay` from index `i` on.
pub open spec fn occurs_at(hay: Seq<u8>, needle: Seq<u8>, i: int) -> bool {
    0 <= i && i + needle.len() <= hay.len() && hay.subrange(i, i + needle.len()) == needle
}

/// True if `needle` stands somewhere in `hay`.
pub open spec fn contains(hay: Seq<u8>, needle: Seq<u8>) -> bool {
    exists|i: int| occurs_at(hay, needle, i)
}

/// True if `needle` stands in `hay` from index `i` on.
pub fn matches_at(hay: &[u8], needle: &[u8], i: usize) -> (r: bool)
    requires
        i + needle@.len() <= hay@.len(),
    ensures
        r == occurs_at(hay@, needle@, i as int),
{
    let n: usize = hay.len();
    let mut k: usize = 0;
    while k < needle.len()
        invariant
            k <= needle@.len(),
            n == hay@.len(),
            i + needle@.len() <= n,
            forall|j: int| 0 <= j < k ==> hay@[i + j] == needle@[j],
        decreases needle@.len() - k,
    {
        if hay[i + k] != needle[k] {
            assert(hay@.subrange(i as int, i + needle@.len())[k as int] != needle@[k as int]);
            return false;
        }
        k += 1;
    }
    assert(hay@.subrange(i as int, i + needle@.len()) =~= needle@);
    true
}

/// True if `needle` stands somewhere in `hay`.
pub fn has_part(hay: &[u8], needle: &[u8]) -> (r: bool)
    ensures
        r == contains(hay@, needle@),
{
    if needle.len() > hay.len() {
        return false;
    }
    if needle.len() == 0 {
        assert(hay@.subrange(0, 0) =~= needle@);
        assert(occurs_at(hay@, needle@, 0));
        return true;
    }
    let last: usize = hay.len() - needle.len();
    let n: usize = hay.len();
    let mut i: usize = 0;
    while i <= last
        invariant
            i <= last + 1,
            n == hay@.len(),
            last < n,
            last == n - needle@.len(),
            forall|j: int| 0 <= j < i ==> !occurs_at(hay@, needle@, j),
        decreases last + 1 - i,
    {
        if matches_at(hay, needle, i) {
            return true;
        }
        i += 1;
    }
    false
}

} // verus!
