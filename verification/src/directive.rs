//! Colour directives: the text form in which a colour is set from outside.
//!
//! A directive is one of the words `rgb`, `rainbow` and `black`, or a list of
//! exactly three channel values separated by commas: red, green and blue,
//! each written in decimal digits and at most 255. Anything else is not a
//! directive.

use crate::color::Color;
use crate::scan::{find_stop, number, read_number, run_len};
use vstd::prelude::*;
use vstd::string::StringSliceAdditionalSpecFns;

verus! {

/// The one way in which a directive can be wrong: it names no colour.
#[derive(Clone, Copy, Debug, PartialEq, Eq, Structural)]
pub struct ParseColorErr;

/// The byte that separates the pieces of a list.
pub const COMMA: u8 = 0x2c;

/// The bytes of the word `rgb`.
pub open spec fn word_rgb() -> Seq<u8> {
    seq![0x72u8, 0x67u8, 0x62u8]
}

/// The bytes of the word `rainbow`.
pub open spec fn word_rainbow() -> Seq<u8> {
    seq![0x72u8, 0x61u8, 0x69u8, 0x6eu8, 0x62u8, 0x6fu8, 0x77u8]
}

/// The bytes of the word `black`.
pub open spec fn word_black() -> Seq<u8> {
    seq![0x62u8, 0x6cu8, 0x61u8, 0x63u8, 0x6bu8]
}

/// The channel value that a piece writes, if it writes one.
pub open spec fn channel(piece: Seq<u8>) -> Option<u8> {
    match number(piece, 255) {
        Some(v) => Some(v as u8),
        None => None,
    }
}

/// The three channel values that a list writes, if it is a list of exactly
/// three pieces and each of them writes a channel value.
pub open spec fn parse_list(s: Seq<u8>) -> Option<(u8, u8, u8)> {
    let first = run_len(s, COMMA);
    let after_first = s.skip(first + 1);
    let second = run_len(after_first, COMMA);
    let after_second = after_first.skip(second + 1);
    let third = run_len(after_second, COMMA);
    if 0 <= first < s.len() && 0 <= second < after_first.len() && third == after_second.len() {
        match (
            channel(s.take(first)),
            channel(after_first.take(second)),
            channel(after_second),
        ) {
            (Some(r), Some(g), Some(b)) => Some((r, g, b)),
            _ => None,
        }
    } else {
        None
    }
}

/// The colour that a directive names.
pub open spec fn parse_directive(s: Seq<u8>) -> Result<Color, ParseColorErr> {
    if s == word_rgb() {
        Ok(Color::RGB)
    } else if s == word_rainbow() {
        Ok(Color::Rainbow)
    } else if s == word_black() {
        Ok(Color::Black)
    } else {
        match parse_list(s) {
            Some((r, g, b)) => Ok(Color::Raw(r, g, b)),
            None => Err(ParseColorErr),
        }
    }
}

/// True if the bytes are exactly those of `word`.
fn is_word(bytes: &[u8], word: &[u8]) -> (r: bool)
    ensures
        r == (bytes@ == word@),
{
    if bytes.len() != word.len() {
        return false;
    }
    let mut i: usize = 0;
    while i < bytes.len()
        invariant
            i <= bytes@.len(),
            bytes@.len() == word@.len(),
            forall|k: int| 0 <= k < i ==> bytes@[k] == word@[k],
        decreases bytes@.len() - i,
    {
        if bytes[i] != word[i] {
            return false;
        }
        i += 1;
    }
    assert(bytes@ =~= word@);
    true
}

impl Color {
    /// Reads a colour directive from its bytes.
    pub fn from_bytes(bytes: &[u8]) -> (r: Result<Color, ParseColorErr>)
        ensures
            r == parse_directive(bytes@),
    {
        let rgb: [u8; 3] = [0x72, 0x67, 0x62];
        let rainbow: [u8; 7] = [0x72, 0x61, 0x69, 0x6e, 0x62, 0x6f, 0x77];
        let black: [u8; 5] = [0x62, 0x6c, 0x61, 0x63, 0x6b];
        assert(rgb@ =~= word_rgb());
        assert(rainbow@ =~= word_rainbow());
        assert(black@ =~= word_black());
        if is_word(bytes, rgb.as_slice()) {
            return Ok(Color::RGB);
        }
        if is_word(bytes, rainbow.as_slice()) {
            return Ok(Color::Rainbow);
        }
        if is_word(bytes, black.as_slice()) {
            return Ok(Color::Black);
        }
        let n: usize = bytes.len();
        let first: usize = find_stop(bytes, 0, COMMA);
        if first >= n {
            assert(bytes@.skip(0) =~= bytes@);
            return Err(ParseColorErr);
        }
        let second: usize = find_stop(bytes, first + 1, COMMA);
        if second >= n {
            assert(bytes@.skip(0) =~= bytes@);
            return Err(ParseColorErr);
        }
        let third: usize = find_stop(bytes, second + 1, COMMA);
        proof {
            let after_first = bytes@.skip(first + 1);
            let after_second = after_first.skip(second - first);
            assert(bytes@.skip(0) =~= bytes@);
            assert(after_second =~= bytes@.skip(second + 1));
            assert(bytes@.take(first as int) =~= bytes@.subrange(0, first as int));
            assert(after_first.take(second - first - 1) =~= bytes@.subrange(
                first + 1,
                second as int,
            ));
            assert(after_second =~= bytes@.subrange(second + 1, n as int));
        }
        if third < n {
            return Err(ParseColorErr);
        }
        let red = read_number(bytes, 0, first, 255);
        let green = read_number(bytes, first + 1, second, 255);
        let blue = read_number(bytes, second + 1, n, 255);
        match (red, green, blue) {
            (Some(r), Some(g), Some(b)) => Ok(Color::Raw(r as u8, g as u8, b as u8)),
            _ => Err(ParseColorErr),
        }
    }

    /// Reads a colour directive.
    pub fn from_str(s: &str) -> (r: Result<Color, ParseColorErr>)
        ensures
            r == parse_directive(s.spec_bytes()),
    {
        Color::from_bytes(s.as_bytes())
    }
}

} // verus!
