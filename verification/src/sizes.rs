//! Size ranges written as text, such as `10k,5m`.
//!
//! The text is read once from left to right. Digits gather in the token
//! of the lower bound until that token ends; a comma, or the end of the
//! first number, turns to the token of the upper bound. A letter `k`,
//! `m` or `g` directly after a number is that token's unit. The text
//! is read in lower case.

use vstd::prelude::*;
use crate::decimal::clamp_u64;
use crate::decimal::is_decimal;
use crate::decimal::scale_decimal;
use crate::decimal::scaled_floor;
use crate::text::is_digit;
use crate::text::is_digit_char;
use crate::text::chars_of;
use crate::text::lowercase_text;
use crate::text::to_lowercase;

verus! {

/// The unit of a token that names none: bytes.
pub const BYTES: char = 'b';

/// The number of bytes that one of `unit` holds.
pub open spec fn unit_bytes(unit: char) -> nat {
    if unit == 'k' {
        1024
    } else if unit == 'm' {
        1024 * 1024
    } else if unit == 'g' {
        1024 * 1024 * 1024
    } else {
        1
    }
}

/// The size that the token `tok` with `unit` stands for, in bytes: the
/// decimal number times the unit, rounded down, and at most `u64::MAX`.
/// A token that is no decimal number stands for 0.
pub open spec fn size_value(tok: Seq<char>, unit: char) -> u64 {
    if is_decimal(tok) {
        clamp_u64(scaled_floor(tok, unit_bytes(unit)))
    } else {
        0
    }
}

/// What has been read of a size range.
pub ghost struct SizeTokens {
    /// The last character read was part of a number.
    pub in_number: bool,
    /// The token of the lower bound is closed: what follows belongs to
    /// the upper bound.
    pub has_min: bool,
    pub min_digits: Seq<char>,
    pub max_digits: Seq<char>,
    pub min_unit: char,
    pub max_unit: char,
}

/// Nothing read yet.
pub open spec fn no_size_tokens() -> SizeTokens {
    SizeTokens {
        in_number: false,
        has_min: false,
        min_digits: Seq::empty(),
        max_digits: Seq::empty(),
        min_unit: BYTES,
        max_unit: BYTES,
    }
}

/// `c` names a unit of size.
pub open spec fn is_size_unit(c: char) -> bool {
    c == 'k' || c == 'm' || c == 'g'
}

/// `st` with `c` added to the token that is open.
pub open spec fn with_digit(st: SizeTokens, c: char) -> SizeTokens {
    if st.has_min {
        SizeTokens { max_digits: st.max_digits.push(c), ..st }
    } else {
        SizeTokens { min_digits: st.min_digits.push(c), ..st }
    }
}

/// `st` with `c` as the unit of the token that is open.
pub open spec fn with_unit(st: SizeTokens, c: char) -> SizeTokens {
    if st.has_min {
        SizeTokens { max_unit: c, ..st }
    } else {
        SizeTokens { min_unit: c, ..st }
    }
}

/// Reading one more character.
///
/// - A digit joins the open token.
/// - A comma closes the lower bound's token.
/// - Inside a number, a point joins the open token; any other character
///   ends the number, gives the token its unit if it names one, and
///   closes the lower bound's token.
/// - Any other character is passed over.
pub open spec fn size_step(st: SizeTokens, c: char) -> SizeTokens {
    if is_digit(c) {
        SizeTokens { in_number: true, ..with_digit(st, c) }
    } else if c == ',' {
        SizeTokens { in_number: false, has_min: true, ..st }
    } else if st.in_number && c == '.' {
        with_digit(st, c)
    } else if st.in_number {
        let named = if is_size_unit(c) {
            with_unit(st, c)
        } else {
            st
        };
        SizeTokens { in_number: false, has_min: true, ..named }
    } else {
        st
    }
}

/// Reading all of `s`.
pub open spec fn size_scan(s: Seq<char>) -> SizeTokens
    decreases s.len(),
{
    if s.len() == 0 {
        no_size_tokens()
    } else {
        size_step(size_scan(s.drop_last()), s.last())
    }
}

/// The bounds that the tokens stand for.
///
/// A token without a unit takes the unit of the other one. The upper
/// bound counts only where it is larger than the lower one; otherwise
/// it is 0, which means that there is none.
pub open spec fn bounds_of(t: SizeTokens) -> (u64, u64) {
    let min_unit = if t.min_unit == BYTES && t.max_unit != BYTES {
        t.max_unit
    } else {
        t.min_unit
    };
    let max_unit = if min_unit != BYTES && t.max_unit == BYTES {
        min_unit
    } else {
        t.max_unit
    };
    let min = size_value(t.min_digits, min_unit);
    let max = size_value(t.max_digits, max_unit);
    if max > min {
        (min, max)
    } else {
        (min, 0)
    }
}

/// The size range that the text `lowered`, which is in lower case,
/// states: its lower and its upper bound in bytes, 0 for a bound that
/// is not stated.
pub open spec fn sizes_read(lowered: Seq<char>) -> (u64, u64) {
    bounds_of(size_scan(lowered))
}

/// The size range that `s` states, read in lower case.
pub open spec fn size_range(s: Seq<char>) -> (u64, u64) {
    sizes_read(lowercase_text(s))
}

/// The number of bytes that one of `unit` holds.
pub fn unit_multiplier(unit: char) -> (r: u32)
    ensures
        r == unit_bytes(unit),
{
    if unit == 'k' {
        1024
    } else if unit == 'm' {
        1024 * 1024
    } else if unit == 'g' {
        1024 * 1024 * 1024
    } else {
        1
    }
}

/// The size in bytes that the digits `num_chars` with `unit` stand for.
pub fn extract_size_val(num_chars: &Vec<char>, unit: char) -> (r: u64)
    ensures
        r == size_value(num_chars@, unit),
{
    match scale_decimal(num_chars, unit_multiplier(unit)) {
        Some((floor, _)) => floor,
        None => 0,
    }
}

/// Reads a size range such as `10k,5m`: the lower and the upper bound
/// in bytes. Capitals are read as their lower-case forms.
pub fn extract_sizes(size_str: &str) -> (r: (u64, u64))
    ensures
        r == size_range(size_str@),
        r.1 == 0 || r.1 > r.0,
{
    let lowered = to_lowercase(size_str);
    read_sizes(lowered.as_str())
}

/// Reads a size range that is written in lower case.
pub fn read_sizes(lowered: &str) -> (r: (u64, u64))
    ensures
        r == sizes_read(lowered@),
        r.1 == 0 || r.1 > r.0,
{
    let chars = chars_of(lowered);
    let mut in_number: bool = false;
    let mut has_min: bool = false;
    let mut min_chars: Vec<char> = Vec::new();
    let mut max_chars: Vec<char> = Vec::new();
    let mut min_unit: char = BYTES;
    let mut max_unit: char = BYTES;
    let mut i: usize = 0;
    while i < chars.len()
        invariant
            i <= chars.len(),
            size_scan(chars@.take(i as int)) == (SizeTokens {
                in_number,
                has_min,
                min_digits: min_chars@,
                max_digits: max_chars@,
                min_unit,
                max_unit,
            }),
        decreases chars.len() - i,
    {
        let c = chars[i];
        proof {
            assert(chars@.take(i + 1).drop_last() == chars@.take(i as int));
            assert(chars@.take(i + 1).last() == c);
        }
        if is_digit_char(c) {
            in_number = true;
            if has_min {
                max_chars.push(c);
            } else {
                min_chars.push(c);
            }
        } else if c == ',' {
            in_number = false;
            has_min = true;
        } else if in_number && c == '.' {
            if has_min {
                max_chars.push(c);
            } else {
                min_chars.push(c);
            }
        } else if in_number {
            if c == 'k' || c == 'm' || c == 'g' {
                if has_min {
                    max_unit = c;
                } else {
                    min_unit = c;
                }
            }
            in_number = false;
            has_min = true;
        }
        i += 1;
    }
    assert(chars@.take(chars.len() as int) == chars@);
    let min_ref_unit = if min_unit == BYTES && max_unit != BYTES {
        max_unit
    } else {
        min_unit
    };
    let max_ref_unit = if min_ref_unit != BYTES && max_unit == BYTES {
        min_ref_unit
    } else {
        max_unit
    };
    let min = extract_size_val(&min_chars, min_ref_unit);
    let max = extract_size_val(&max_chars, max_ref_unit);
    if max > min {
        (min, max)
    } else {
        (min, 0)
    }
}

} // verus!
