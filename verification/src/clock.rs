//! The wall clock as text.
//!
//! A moment is given as plain numbers; chrono turns it into the hours,
//! minutes and seconds, or the month, day and weekday, that the panel shows.

use chrono::{FixedOffset, TimeZone};
use vstd::prelude::*;

verus! {

/// A moment on the wall clock: whole seconds since the epoch, nanoseconds
/// into the second, and the seconds that local time is ahead of UTC.
#[derive(Clone, Copy, Debug, PartialEq, Eq, Structural)]
pub struct Moment {
    pub secs: i64,
    pub nanos: u32,
    pub offset: i32,
}

/// What chrono writes for a moment in a pattern, or nothing where the
/// moment or the offset lies outside what chrono can hold.
pub uninterp spec fn wall_text(secs: i64, nanos: u32, offset: i32, pattern: Seq<char>) -> Option<
    Seq<char>,
>;

/// The pattern of the clock at a count of milliseconds into the second:
/// colons in the first half of the second, blanks in the second half.
pub open spec fn time_pattern(subsec_millis: u32) -> Seq<char> {
    if subsec_millis < 500 {
        "%H:%M:%S"@
    } else {
        "%H %M %S"@
    }
}

/// The pattern of the date: month, day and weekday.
pub open spec fn date_pattern() -> Seq<char> {
    "%m-%d_%a"@
}

/// True for the patterns that the panel writes the wall clock in.
pub open spec fn known_pattern(pattern: Seq<char>) -> bool {
    pattern == "%H:%M:%S"@ || pattern == "%H %M %S"@ || pattern == "%m-%d_%a"@
}

/// True for the characters `0` to `9`.
pub open spec fn is_digit_char(c: char) -> bool {
    '0' <= c <= '9'
}

/// True for a clock text: two digits each for the hour, the minute and the
/// second, with `separator` between them.
pub open spec fn clock_shape(text: Seq<char>, separator: char) -> bool {
    &&& text.len() == 8
    &&& is_digit_char(text[0])
    &&& is_digit_char(text[1])
    &&& text[2] == separator
    &&& is_digit_char(text[3])
    &&& is_digit_char(text[4])
    &&& text[5] == separator
    &&& is_digit_char(text[6])
    &&& is_digit_char(text[7])
}

/// What stands between the numbers of the clock at a count of milliseconds
/// into the second: a colon in the first half, a blank in the second.
pub open spec fn separator(subsec_millis: u32) -> char {
    if subsec_millis < 500 {
        ':'
    } else {
        ' '
    }
}

/// The text of a moment in a pattern, blank where chrono has none.
pub open spec fn moment_text(moment: Moment, pattern: Seq<char>) -> Seq<char> {
    match wall_text(moment.secs, moment.nanos, moment.offset, pattern) {
        Some(text) => text,
        None => Seq::<char>::empty(),
    }
}

/// Builds the moment with chrono's `FixedOffset::east_opt` and
/// `TimeZone::timestamp_opt` and writes it with `DateTime::format`.
/// Trusted: the text depends on the four arguments alone, and there is none
/// where chrono refuses the offset or the timestamp. The patterns admitted
/// hold only conversions that chrono knows, so that writing cannot fail.
/// Of the two clock patterns it is also trusted that `%H`, `%M` and `%S`
/// each write two digits, padded with a zero, and that the colons and
/// blanks of the pattern are written as they stand.
#[verifier::external_body]
fn format_moment(secs: i64, nanos: u32, offset: i32, pattern: &str) -> (text: Option<String>)
    requires
        known_pattern(pattern@),
    ensures
        (match text {
            Some(t) => Some(t@),
            None => None,
        }) == wall_text(secs, nanos, offset, pattern@),
        pattern@ == "%H:%M:%S"@ ==> (text matches Some(t) ==> clock_shape(t@, ':')),
        pattern@ == "%H %M %S"@ ==> (text matches Some(t) ==> clock_shape(t@, ' ')),
{
    let zone = FixedOffset::east_opt(offset)?;
    let at = zone.timestamp_opt(secs, nanos).single()?;
    Some(at.format(pattern).to_string())
}

impl Moment {
    /// Milliseconds into the second.
    pub fn subsec_millis(&self) -> (millis: u32)
        ensures
            millis == self.nanos / 1_000_000,
    {
        self.nanos / 1_000_000
    }

    /// The moment written in one of the panel's patterns, blank where
    /// chrono cannot hold the moment.
    pub(crate) fn text(&self, pattern: &str) -> (text: String)
        requires
            known_pattern(pattern@),
        ensures
            text@ == moment_text(*self, pattern@),
            pattern@ == "%H:%M:%S"@ ==> text@.len() == 0 || clock_shape(text@, ':'),
            pattern@ == "%H %M %S"@ ==> text@.len() == 0 || clock_shape(text@, ' '),
    {
        match format_moment(self.secs, self.nanos, self.offset, pattern) {
            Some(text) => text,
            None => String::new(),
        }
    }
}

} // verus!
