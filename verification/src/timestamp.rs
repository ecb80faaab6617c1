//! Decoding of the last-modified column: `YYYY-MM-DD hh:mm`, a naive local
//! date and time.

use crate::text::{
    chars_of, digit_of, digit_value, is_ascii_digit, is_digit, trim_bounds, trimmed,
};
use vstd::prelude::*;
use vstd::slice::slice_subrange;
use vstd::string::StrSliceExecFns;

verus! {

/// A calendar date with a time of day, to the minute, without a time zone.
///
/// Timestamps are ordered by year, month, day, hour and minute, in that
/// order: the earlier one is the smaller.
#[derive(Clone, Copy, Debug, PartialEq, Eq, PartialOrd, Ord)]
pub struct Timestamp {
    pub year: i32,
    pub month: u8,
    pub day: u8,
    pub hour: u8,
    pub minute: u8,
}

impl Timestamp {
    /// Every field lies in the range that a calendar and a clock give it.
    pub open spec fn in_range(self) -> bool {
        &&& 1 <= self.month <= 12
        &&& 1 <= self.day <= 31
        &&& self.hour <= 23
        &&& self.minute <= 59
    }
}

/// The fixed pattern: four digits, a hyphen, two digits, a hyphen, two
/// digits, one space, two digits, a colon, two digits, and nothing else.
pub open spec fn is_timestamp_text(s: Seq<char>) -> bool {
    &&& s.len() == 16
    &&& is_digit(s[0]) && is_digit(s[1]) && is_digit(s[2]) && is_digit(s[3])
    &&& s[4] == '-'
    &&& is_digit(s[5]) && is_digit(s[6])
    &&& s[7] == '-'
    &&& is_digit(s[8]) && is_digit(s[9])
    &&& s[10] == ' '
    &&& is_digit(s[11]) && is_digit(s[12])
    &&& s[13] == ':'
    &&& is_digit(s[14]) && is_digit(s[15])
}

/// The number that the two digits at `at` and behind it denote.
pub open spec fn two_digits(s: Seq<char>, at: int) -> nat {
    digit_value(s[at]) * 10 + digit_value(s[at + 1])
}

/// The fields that a text of the fixed pattern spells out.
pub open spec fn timestamp_fields(s: Seq<char>) -> Timestamp {
    Timestamp {
        year: (two_digits(s, 0) * 100 + two_digits(s, 2)) as i32,
        month: two_digits(s, 5) as u8,
        day: two_digits(s, 8) as u8,
        hour: two_digits(s, 11) as u8,
        minute: two_digits(s, 14) as u8,
    }
}

/// The format description of the fixed pattern, in the notation of the
/// `time` crate.
pub open spec fn timestamp_format() -> Seq<char> {
    "[year]-[month]-[day] [hour]:[minute]"@
}

/// What the `time` crate reads out of a text under a format description, if
/// the description is one and the crate accepts the text under it: the year,
/// month, day, hour and minute of the date and time read.
pub uninterp spec fn parsed_date_time(text: Seq<char>, format: Seq<char>) -> Option<Timestamp>;

/// The timestamp that stands for a text, given what the calendar made of it:
/// the fields that the text spells out, where the text has the fixed pattern
/// and the calendar read those very fields; nothing otherwise.
pub open spec fn confirmed_timestamp(text: Seq<char>, parsed: Option<Timestamp>) -> Option<
    Timestamp,
> {
    if is_timestamp_text(text) && parsed == Some(timestamp_fields(text)) {
        parsed
    } else {
        None
    }
}

/// The timestamp that the text of a last-modified cell denotes.
pub open spec fn decoded_timestamp(text: Seq<char>) -> Option<Timestamp> {
    confirmed_timestamp(trimmed(text), parsed_date_time(trimmed(text), timestamp_format()))
}

/// A text that, once trimmed, does not have the fixed pattern denotes no
/// timestamp; and a text that denotes one denotes the fields that it spells
/// out.
pub proof fn law_timestamp_needs_the_pattern(text: Seq<char>)
    ensures
        !is_timestamp_text(trimmed(text)) ==> decoded_timestamp(text) is None,
        decoded_timestamp(text) matches Some(stamp) ==> is_timestamp_text(trimmed(text)) && stamp
            == timestamp_fields(trimmed(text)),
{
}

/// Calls `time::format_description::parse_borrowed` on the format and
/// `time::PrimitiveDateTime::parse` on the text with the outcome, and copies
/// the fields of what comes back.
///
/// Trusted: the outcome depends on the two texts alone, and the fields of a
/// parsed value lie in the ranges that the accessors of `PrimitiveDateTime`
/// document (month 1 to 12, day 1 to 31, hour below 24, minute below 60).
#[verifier::external_body]
fn parse_date_time(text: &str, format: &str) -> (parsed: Option<Timestamp>)
    ensures
        parsed == parsed_date_time(text@, format@),
        parsed matches Some(stamp) ==> stamp.in_range(),
{
    let format = time::format_description::parse_borrowed::<2>(format).ok()?;
    let value = time::PrimitiveDateTime::parse(text, &format).ok()?;
    Some(
        Timestamp {
            year: value.year(),
            month: u8::from(value.month()),
            day: value.day(),
            hour: value.hour(),
            minute: value.minute(),
        },
    )
}

fn two_digits_at(chars: &[char], at: usize) -> (value: u64)
    requires
        at + 1 < chars@.len(),
        is_digit(chars@[at as int]),
        is_digit(chars@[at + 1]),
    ensures
        value == two_digits(chars@, at as int),
        value <= 99,
{
    digit_of(chars[at]) * 10 + digit_of(chars[at + 1])
}

/// Tells whether a text has the fixed pattern of a timestamp.
pub fn has_timestamp_shape(chars: &[char]) -> (r: bool)
    ensures
        r == is_timestamp_text(chars@),
{
    chars.len() == 16 && is_ascii_digit(chars[0]) && is_ascii_digit(chars[1]) && is_ascii_digit(
        chars[2],
    ) && is_ascii_digit(chars[3]) && chars[4] == '-' && is_ascii_digit(chars[5]) && is_ascii_digit(
        chars[6],
    ) && chars[7] == '-' && is_ascii_digit(chars[8]) && is_ascii_digit(chars[9]) && chars[10] == ' '
        && is_ascii_digit(chars[11]) && is_ascii_digit(chars[12]) && chars[13] == ':'
        && is_ascii_digit(chars[14]) && is_ascii_digit(chars[15])
}

/// Reads the fields out of a text of the fixed pattern.
fn read_timestamp_fields(chars: &[char]) -> (stamp: Timestamp)
    requires
        is_timestamp_text(chars@),
    ensures
        stamp == timestamp_fields(chars@),
        0 <= stamp.year <= 9999,
        stamp.month <= 99,
        stamp.day <= 99,
        stamp.hour <= 99,
        stamp.minute <= 99,
{
    let year = two_digits_at(chars, 0) * 100 + two_digits_at(chars, 2);
    Timestamp {
        year: year as i32,
        month: two_digits_at(chars, 5) as u8,
        day: two_digits_at(chars, 8) as u8,
        hour: two_digits_at(chars, 11) as u8,
        minute: two_digits_at(chars, 14) as u8,
    }
}

/// Decides what a text of a last-modified cell denotes, given what the
/// calendar made of the same text.
///
/// The text must have the fixed pattern, and the calendar must have read the
/// very fields that the text spells out; then those fields are the result.
pub fn confirm_timestamp(chars: &[char], parsed: Option<Timestamp>) -> (stamp: Option<Timestamp>)
    ensures
        stamp == confirmed_timestamp(chars@, parsed),
{
    if !has_timestamp_shape(chars) {
        return None;
    }
    let spelled = read_timestamp_fields(chars);
    match parsed {
        Some(read) => {
            if read.year == spelled.year && read.month == spelled.month && read.day == spelled.day
                && read.hour == spelled.hour && read.minute == spelled.minute {
                Some(read)
            } else {
                None
            }
        },
        None => None,
    }
}

/// Decodes the text of a last-modified cell.
///
/// White space around the text is ignored. A text that does not have the
/// pattern `YYYY-MM-DD hh:mm` exactly is rejected; one that has it denotes
/// the fields it spells out, provided that the calendar knows that date and
/// time.
pub fn decode_timestamp(text: &str) -> (stamp: Option<Timestamp>)
    ensures
        stamp == decoded_timestamp(text@),
        !is_timestamp_text(trimmed(text@)) ==> stamp is None,
        stamp matches Some(found) ==> found == timestamp_fields(trimmed(text@)) && found.in_range(),
{
    let chars = chars_of(text);
    let (start, end) = trim_bounds(chars.as_slice());
    let kept = slice_subrange(chars.as_slice(), start, end);
    if !has_timestamp_shape(kept) {
        return None;
    }
    let parsed = parse_date_time(
        text.substring_char(start, end),
        "[year]-[month]-[day] [hour]:[minute]",
    );
    confirm_timestamp(kept, parsed)
}

} // verus!
