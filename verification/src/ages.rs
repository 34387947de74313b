//! Ages written as text, such as `7d` or `1.5h`.
//!
//! An age is a decimal number and a unit: `s`, `m` (minutes), `h`, `d`,
//! `w` or `y`; days where no unit is named. The text is read in lower
//! case. The library holds an age as a whole number
//! of seconds, rounded up: the age of a file is a whole number of
//! seconds too, so a file is at least as old as the age that was
//! written exactly when it is at least as old as the rounded one.

use vstd::prelude::*;
use crate::decimal::clamp_u64;
use crate::decimal::is_decimal;
use crate::decimal::scale_decimal;
use crate::decimal::scaled_ceil;
use crate::text::chars_of;
use crate::text::is_digit;
use crate::text::is_digit_char;
use crate::text::is_letter;
use crate::text::is_letter_char;
use crate::text::lowercase_text;
use crate::text::to_lowercase;
use crate::text::split_on;
use crate::text::split_text;
use crate::text::texts;

verus! {

/// The length of a minute in seconds.
pub const SECONDS_PER_MINUTE: u32 = 60;

/// The length of an hour in seconds.
pub const SECONDS_PER_HOUR: u32 = 3600;

/// The length of a day in seconds.
pub const SECONDS_PER_DAY: u32 = 86400;

/// The length of a week in seconds.
pub const SECONDS_PER_WEEK: u32 = 604800;

/// A year of 365.25 days.
pub const SECONDS_PER_YEAR: u32 = 31557600;

/// The number of seconds that one of `unit` lasts; a day where no unit
/// is named or the unit is not known.
pub open spec fn unit_seconds(unit: Option<char>) -> nat {
    match unit {
        Some('s') => 1,
        Some('m') => SECONDS_PER_MINUTE as nat,
        Some('h') => SECONDS_PER_HOUR as nat,
        Some('w') => SECONDS_PER_WEEK as nat,
        Some('y') => SECONDS_PER_YEAR as nat,
        _ => SECONDS_PER_DAY as nat,
    }
}

/// What has been read of an age: the characters of the number, and the
/// character that ended it.
pub ghost struct AgeTokens {
    pub digits: Seq<char>,
    pub unit: Option<char>,
}

/// Reading one more character.
///
/// - Once the unit is known, nothing more is read.
/// - A digit joins the number; so does a point after the first digit.
/// - A comma is passed over.
/// - After the first digit, any other character is the unit.
pub open spec fn age_step(st: AgeTokens, c: char) -> AgeTokens {
    if st.unit is Some {
        st
    } else if is_digit(c) || (c == '.' && st.digits.len() > 0) {
        AgeTokens { digits: st.digits.push(c), ..st }
    } else if st.digits.len() > 0 && c != ',' {
        AgeTokens { unit: Some(c), ..st }
    } else {
        st
    }
}

/// Reading all of `s`.
pub open spec fn age_scan(s: Seq<char>) -> AgeTokens
    decreases s.len(),
{
    if s.len() == 0 {
        AgeTokens { digits: Seq::empty(), unit: None }
    } else {
        age_step(age_scan(s.drop_last()), s.last())
    }
}

/// The age that the tokens stand for, in seconds: the decimal number
/// times the unit, rounded up, and at most `u64::MAX`. Where the number
/// is no decimal number, 0.
pub open spec fn age_value(t: AgeTokens) -> u64 {
    if is_decimal(t.digits) {
        clamp_u64(scaled_ceil(t.digits, unit_seconds(t.unit)))
    } else {
        0
    }
}

/// The age that the text `lowered`, which is in lower case, states, in
/// seconds; 0 where it states none.
pub open spec fn age_read(lowered: Seq<char>) -> u64 {
    age_value(age_scan(lowered))
}

/// The age that `s` states, read in lower case.
pub open spec fn age_seconds(s: Seq<char>) -> u64 {
    age_read(lowercase_text(s))
}

/// The first ASCII letter of `s`; `-` where it holds none.
pub open spec fn first_letter(s: Seq<char>) -> char
    decreases s.len(),
{
    if s.len() == 0 {
        '-'
    } else if is_letter(s[0]) {
        s[0]
    } else {
        first_letter(s.skip(1))
    }
}

/// The number of seconds that one of `unit` lasts.
pub fn seconds_in_unit(unit: Option<char>) -> (r: u32)
    ensures
        r == unit_seconds(unit),
{
    match unit {
        Some(c) => {
            if c == 's' {
                1
            } else if c == 'm' {
                SECONDS_PER_MINUTE
            } else if c == 'h' {
                SECONDS_PER_HOUR
            } else if c == 'w' {
                SECONDS_PER_WEEK
            } else if c == 'y' {
                SECONDS_PER_YEAR
            } else {
                SECONDS_PER_DAY
            }
        },
        None => SECONDS_PER_DAY,
    }
}

/// Reads an age such as `7d`, `2w` or `1.5h`, in seconds. Capitals are
/// read as their lower-case forms.
pub fn extract_age(age_str: &str) -> (r: u64)
    ensures
        r == age_seconds(age_str@),
{
    let lowered = to_lowercase(age_str);
    read_age(lowered.as_str())
}

/// Reads an age that is written in lower case, in seconds.
pub fn read_age(lowered: &str) -> (r: u64)
    ensures
        r == age_read(lowered@),
{
    let chars = chars_of(lowered);
    let mut digits: Vec<char> = Vec::new();
    let mut unit: Option<char> = None;
    let mut i: usize = 0;
    while i < chars.len()
        invariant
            i <= chars.len(),
            age_scan(chars@.take(i as int)) == (AgeTokens { digits: digits@, unit }),
        decreases chars.len() - i,
    {
        let c = chars[i];
        proof {
            assert(chars@.take(i + 1).drop_last() == chars@.take(i as int));
            assert(chars@.take(i + 1).last() == c);
        }
        if unit.is_none() {
            if is_digit_char(c) || (c == '.' && digits.len() > 0) {
                digits.push(c);
            } else if digits.len() > 0 && c != ',' {
                unit = Some(c);
            }
        }
        i += 1;
    }
    assert(chars@.take(chars.len() as int) == chars@);
    match scale_decimal(&digits, seconds_in_unit(unit)) {
        Some((floor, whole)) => {
            if whole || floor == u64::MAX {
                floor
            } else {
                floor + 1
            }
        },
        None => 0,
    }
}

/// The pieces of `str_val` between its hyphens: the two ends of a range
/// of ages.
pub fn extract_string_parts(str_val: &str) -> (parts: Vec<String>)
    ensures
        texts(parts@) == split_on(str_val@, '-'),
{
    split_text(str_val, '-')
}

/// The first ASCII letter of `str_val` in lower case: the unit that an
/// age names. `-` where it holds no such letter.
pub fn extract_first_suffix_letter(str_val: &str) -> (r: char)
    ensures
        r == first_letter(lowercase_text(str_val@)),
{
    let lowered = to_lowercase(str_val);
    first_letter_of(lowered.as_str())
}

/// The first ASCII letter of `text`; `-` where it holds none.
pub fn first_letter_of(text: &str) -> (r: char)
    ensures
        r == first_letter(text@),
{
    let chars = chars_of(text);
    let mut i: usize = 0;
    assert(chars@.skip(0) == chars@);
    while i < chars.len()
        invariant
            i <= chars.len(),
            chars@ == text@,
            first_letter(text@) == first_letter(chars@.skip(i as int)),
        decreases chars.len() - i,
    {
        if is_letter_char(chars[i]) {
            return chars[i];
        }
        assert(chars@.skip(i as int).skip(1) == chars@.skip(i + 1));
        i += 1;
    }
    '-'
}

} // verus!
