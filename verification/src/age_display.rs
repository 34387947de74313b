//! Ages and ranges of ages in words.
//!
//! An age is a whole number of seconds. Where it is named with a
//! number and a unit, the number is given to a thousandth of the unit.

use vstd::prelude::*;
use crate::display::decimal_text;
use crate::display::digit_char;
use crate::display::duration_text;
use crate::display::push_decimal;
use crate::display::rounded_div;
use crate::display::seconds_to_day_hours_min_secs;
use crate::text::append_str;
use crate::text::chars_of;
use crate::text::text_of;

verus! {

/// Half a day, in seconds: below it an age is named in hours, minutes
/// or seconds.
pub const HALF_DAY: u64 = 43200;

/// Two years of 365.25 days, in seconds: above it an age is named in
/// years.
pub const TWO_YEARS: u64 = 63115200;

/// The length in seconds of the year by which long ages are named,
/// 362.25 days.
pub const NAMING_YEAR: u64 = 31298400;

/// The length in seconds of the unit in which the age `seconds` is
/// named.
pub open spec fn naming_unit(seconds: u64) -> nat {
    if seconds < HALF_DAY {
        if seconds >= 3600 {
            3600
        } else if seconds >= 60 {
            60
        } else {
            1
        }
    } else if seconds > TWO_YEARS {
        NAMING_YEAR as nat
    } else {
        86400
    }
}

/// The name of the unit in which the age `seconds` is named.
pub open spec fn naming_unit_name(seconds: u64) -> Seq<char> {
    if seconds < HALF_DAY {
        if seconds >= 3600 {
            "hour"@
        } else if seconds >= 60 {
            "min"@
        } else {
            "sec"@
        }
    } else if seconds > TWO_YEARS {
        "year"@
    } else {
        "day"@
    }
}

/// The age `seconds` in thousandths of its naming unit, rounded to the
/// nearest.
pub open spec fn naming_thousandths(seconds: u64) -> nat {
    rounded_div(seconds as nat * 1000, naming_unit(seconds))
}

/// A number of thousandths as a short decimal number: the whole part,
/// and after a point the last of the three decimals that is not 0;
/// the whole part alone where all three are 0.
pub open spec fn short_decimal(thousandths: nat) -> Seq<char> {
    let whole = decimal_text(thousandths / 1000);
    let d1 = (thousandths % 1000) / 100;
    let d2 = (thousandths % 100) / 10;
    let d3 = thousandths % 10;
    if d3 != 0 {
        whole + seq!['.', digit_char(d3)]
    } else if d2 != 0 {
        whole + seq!['.', digit_char(d2)]
    } else if d1 != 0 {
        whole + seq!['.', digit_char(d1)]
    } else {
        whole
    }
}

/// An age with the word `old`.
pub open spec fn age_text(seconds: u64) -> Seq<char> {
    duration_text(seconds) + " old"@
}

/// A bound on the age in words: `newer than` or `older than` an age.
pub open spec fn age_bound_text(seconds: u64, is_after: bool) -> Seq<char> {
    if is_after {
        "newer than "@ + age_text(seconds)
    } else {
        "older than "@ + age_text(seconds)
    }
}

/// Two bounds on the age in words. The least age is written as a bare
/// number where it is named in the same unit as the greatest.
pub open spec fn age_between_text(min: u64, max: u64) -> Seq<char> {
    "between "@ + if naming_unit_name(min) != naming_unit_name(max) {
        duration_text(min)
    } else {
        short_decimal(naming_thousandths(min))
    } + " and "@ + duration_text(max) + " old"@
}

/// A range of ages in words: both bounds, the one that is set, or
/// `All ages`. The greatest age counts only above the least.
pub open spec fn age_range_text(min: u64, max: u64) -> Seq<char> {
    if min > 0 && max > min {
        age_between_text(min, max)
    } else if min > 0 {
        age_bound_text(min, false)
    } else if max > min {
        age_bound_text(max, true)
    } else {
        "All ages"@
    }
}

/// The number of the naming units in the age `seconds`, in
/// thousandths, and the name of the unit.
pub fn extract_day_ref_pairs(seconds: u64) -> (r: (u64, String))
    ensures
        r.0 == naming_thousandths(seconds),
        r.1@ == naming_unit_name(seconds),
{
    let (unit, name): (u64, &str) = if seconds < HALF_DAY {
        if seconds >= 3600 {
            (3600, "hour")
        } else if seconds >= 60 {
            (60, "min")
        } else {
            (1, "sec")
        }
    } else if seconds > TWO_YEARS {
        (NAMING_YEAR, "year")
    } else {
        (86400, "day")
    };
    let scaled: u128 = (seconds as u128) * 1000;
    let q: u128 = scaled / (unit as u128);
    let rem: u128 = scaled % (unit as u128);
    assert(q <= 1_000_000_000_000_000_000) by {
        if seconds < HALF_DAY {
            assert(scaled <= 43_200_000);
            assert(q <= scaled) by (nonlinear_arith)
                requires
                    q == scaled / (unit as u128),
                    unit >= 1,
                    scaled >= 0,
            ;
        } else {
            assert(unit >= 86400);
            assert(q <= 0xFFFF_FFFF_FFFF_FFFF * 1000 / 86400) by (nonlinear_arith)
                requires
                    q == scaled / (unit as u128),
                    scaled <= 0xFFFF_FFFF_FFFF_FFFF * 1000,
                    unit >= 86400,
            ;
        }
    }
    let num: u128 = if 2 * rem > unit as u128 || (2 * rem == unit as u128 && q % 2 == 1) {
        q + 1
    } else {
        q
    };
    (num as u64, name.to_owned())
}

/// A number of thousandths as a short decimal number.
pub fn smart_dec_format(thousandths: u64) -> (r: String)
    ensures
        r@ == short_decimal(thousandths as nat),
{
    let mut acc: Vec<char> = Vec::new();
    push_decimal(&mut acc, thousandths / 1000);
    let d1: u8 = ((thousandths % 1000) / 100) as u8;
    let d2: u8 = ((thousandths % 100) / 10) as u8;
    let d3: u8 = (thousandths % 10) as u8;
    let last: u8 = if d3 != 0 {
        d3
    } else if d2 != 0 {
        d2
    } else {
        d1
    };
    if last != 0 {
        acc.push('.');
        acc.push((48u8 + last) as char);
    }
    proof {
        assert('0' as u8 == 48u8);
        let whole = decimal_text((thousandths / 1000) as nat);
        if last != 0 {
            assert(acc@ == whole + seq!['.', digit_char(last as nat)]);
        }
    }
    text_of(&acc)
}

/// The age `seconds` as a number and a unit: the number as a short
/// decimal, the name of the unit, and the ending of the plural, which
/// is empty for exactly one day.
pub fn to_time_unit_pairs(seconds: u64) -> (r: (String, String, String))
    ensures
        r.0@ == short_decimal(naming_thousandths(seconds)),
        r.1@ == naming_unit_name(seconds),
        r.2@ == if seconds == 86400 {
            Seq::<char>::empty()
        } else {
            seq!['s']
        },
{
    let (num, unit) = extract_day_ref_pairs(seconds);
    let mut ending: String = String::new();
    if seconds != 86400 {
        ending.push('s');
    }
    (smart_dec_format(num), unit, ending)
}

/// An age with the word `old`.
pub fn days_unit_display(seconds: u64) -> (r: String)
    ensures
        r@ == age_text(seconds),
{
    let mut acc: Vec<char> = chars_of(seconds_to_day_hours_min_secs(seconds).as_str());
    append_str(&mut acc, " old");
    text_of(&acc)
}

/// A bound on the age in words.
pub fn days_part_display(seconds: u64, is_after: bool) -> (r: String)
    ensures
        r@ == age_bound_text(seconds, is_after),
{
    let mut acc: Vec<char> = if is_after {
        chars_of("newer than ")
    } else {
        chars_of("older than ")
    };
    append_str(&mut acc, days_unit_display(seconds).as_str());
    text_of(&acc)
}

/// Two bounds on the age in words.
pub fn days_between_display(min: u64, max: u64) -> (r: String)
    ensures
        r@ == age_between_text(min, max),
{
    let (start_num, start_unit, _ending) = to_time_unit_pairs(min);
    let (_end_num, end_unit) = extract_day_ref_pairs(max);
    let mut acc: Vec<char> = chars_of("between ");
    if !start_unit.as_str().eq(end_unit.as_str()) {
        append_str(&mut acc, seconds_to_day_hours_min_secs(min).as_str());
    } else {
        append_str(&mut acc, start_num.as_str());
    }
    append_str(&mut acc, " and ");
    append_str(&mut acc, seconds_to_day_hours_min_secs(max).as_str());
    append_str(&mut acc, " old");
    assert(acc@ == age_between_text(min, max));
    text_of(&acc)
}

/// A range of ages in words.
pub fn days_age_display(min: u64, max: u64) -> (r: String)
    ensures
        r@ == age_range_text(min, max),
{
    let has_min = min > 0;
    let has_max = max > min;
    if has_min && has_max {
        days_between_display(min, max)
    } else if has_min {
        days_part_display(min, false)
    } else if has_max {
        days_part_display(max, true)
    } else {
        "All ages".to_owned()
    }
}

} // verus!
