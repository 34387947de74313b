//! Short texts for a report: counts, durations, sizes, the name of an
//! action.

use vstd::prelude::*;
use crate::text::append_str;
use crate::text::chars_of;
use crate::text::has_char;
use crate::text::join_with;
use crate::text::longer_than;
use crate::text::rows;
use crate::text::split_chars;
use crate::text::split_on;
use crate::text::text_of;
use crate::text::utf8_len;

verus! {

/// The text that `size::Size` shows for a number of bytes, such as
/// `1.28 MiB`.
pub uninterp spec fn size_text(bytes: u64) -> Seq<char>;

/// The character of the decimal digit `d`.
pub open spec fn digit_char(d: nat) -> char
    recommends
        d < 10,
{
    (('0' as u8) + (d as u8)) as char
}

/// The decimal digits of `n`, without leading zeros.
pub open spec fn decimal_text(n: nat) -> Seq<char>
    decreases n,
{
    if n < 10 {
        seq![digit_char(n)]
    } else {
        decimal_text(n / 10).push(digit_char(n % 10))
    }
}

/// `n / d`, rounded to the nearest whole number, and to the even one
/// where two are equally near.
pub open spec fn rounded_div(n: nat, d: nat) -> nat
    recommends
        d > 0,
{
    let q = n / d;
    let r = n % d;
    if 2 * r > d || (2 * r == d && q % 2 == 1) {
        q + 1
    } else {
        q
    }
}

/// The word for `count` things: `single` for one of them; otherwise
/// `single` with the ending `plural`, where that is `s`, or `es` and
/// shorter in bytes than the word; otherwise `plural`, a word of its
/// own.
pub open spec fn plural_text(single: Seq<char>, plural: Seq<char>, count: u64) -> Seq<char> {
    if count == 1 {
        single
    } else if plural == seq!['s'] || (plural == seq!['e', 's'] && utf8_len(plural) < utf8_len(
        single,
    )) {
        single + plural
    } else {
        plural
    }
}

/// A duration in words, in its two largest units as long as it is
/// short enough for the smaller one to matter: `2 days 3h`, `5h 10m`,
/// `3m 20s`, `45s`.
///
/// - From a day on: the days, and the hours beyond them if the
///   duration is under three days and no whole number of days.
/// - From an hour on: the hours, and the minutes beyond them if the
///   duration is under six hours and no whole number of hours.
/// - From a minute on: the minutes, and the seconds beyond them if the
///   duration is under five minutes and no whole number of minutes.
/// - Below a minute: the seconds.
///
/// Each amount is rounded to the nearest whole number; the seconds are
/// exact. The word for the days goes by their whole number.
pub open spec fn duration_text(seconds: u64) -> Seq<char> {
    let s = seconds as nat;
    if s >= 86400 {
        let days = decimal_text(rounded_div(s, 86400)) + seq![' '] + plural_text(
            "day"@,
            "s"@,
            (s / 86400) as u64,
        );
        if s < 86400 * 3 && s % 86400 != 0 {
            days + seq![' '] + decimal_text(rounded_div(s % 86400, 3600)) + seq!['h']
        } else {
            days
        }
    } else if s >= 3600 {
        let hours = decimal_text(rounded_div(s, 3600)) + seq!['h'];
        if s < 3600 * 6 && s % 3600 != 0 {
            hours + seq![' '] + decimal_text(rounded_div(s % 3600, 60)) + seq!['m']
        } else {
            hours
        }
    } else if s >= 60 {
        let minutes = decimal_text(rounded_div(s, 60)) + seq!['m'];
        if s < 60 * 5 && s % 60 != 0 {
            minutes + seq![' '] + decimal_text(s % 60) + seq!['s']
        } else {
            minutes
        }
    } else {
        decimal_text(s) + seq!['s']
    }
}

/// A pattern of alternatives that is longer than 32 bytes, cut after
/// the second alternative; any other pattern as it is.
pub open spec fn short_pattern(p: Seq<char>) -> Seq<char> {
    if utf8_len(p) > 32 && p.contains('|') && p.contains('(') {
        let pieces = split_on(p, '|');
        pieces[0] + seq!['|'] + pieces[1] + seq!['|', '.', '.', '.', ')']
    } else {
        p
    }
}

/// The name of the action that the flags ask for.
pub open spec fn action_text(delete_mode: bool, move_mode: bool, move_target: Option<Seq<char>>)
    -> Seq<char> {
    if move_mode {
        match move_target {
            Some(t) => "move to"@ + seq![' '] + t,
            None => "move to"@,
        }
    } else if delete_mode {
        "delete"@
    } else {
        "list"@
    }
}

/// `Size::from_bytes(byte_size).to_string()` of the crate `size`: the
/// size in the largest binary unit that leaves it at least 1, such as
/// `1.28 MiB`. The text depends on the number of bytes alone.
#[verifier::external_body]
pub fn smart_size(byte_size: u64) -> (r: String)
    ensures
        r@ == size_text(byte_size),
{
    size::Size::from_bytes(byte_size).to_string()
}

/// A size after the word `prefix`; nothing for the size 0.
pub fn size_display(size: u64, prefix: &str) -> (r: String)
    ensures
        r@ == if size > 0 {
            prefix@ + seq![' '] + size_text(size)
        } else {
            Seq::empty()
        },
{
    let mut acc: Vec<char> = Vec::new();
    if size > 0 {
        append_str(&mut acc, prefix);
        acc.push(' ');
        let shown = smart_size(size);
        append_str(&mut acc, shown.as_str());
    }
    text_of(&acc)
}

/// Appends the decimal digits of `n` to `acc`.
pub fn push_decimal(acc: &mut Vec<char>, n: u64)
    ensures
        final(acc)@ == old(acc)@ + decimal_text(n as nat),
    decreases n,
{
    if n >= 10 {
        push_decimal(acc, n / 10);
    }
    let d: u8 = (n % 10) as u8;
    acc.push((48u8 + d) as char);
    proof {
        assert('0' as u8 == 48u8);
        if n < 10 {
            assert(old(acc)@.push(digit_char(n as nat)) == old(acc)@ + seq![digit_char(n as nat)]);
        } else {
            assert((old(acc)@ + decimal_text((n / 10) as nat)).push(digit_char((n % 10) as nat))
                == old(acc)@ + decimal_text((n / 10) as nat).push(digit_char((n % 10) as nat)));
        }
    }
}

/// `n / d`, rounded to the nearest whole number.
pub fn div_rounded(n: u64, d: u64) -> (r: u64)
    requires
        d > 0,
        d <= u32::MAX,
    ensures
        r == rounded_div(n as nat, d as nat),
{
    let q: u64 = n / d;
    let rem: u64 = n % d;
    if 2 * rem > d || (2 * rem == d && q % 2 == 1) {
        assert(q < u64::MAX) by (nonlinear_arith)
            requires
                q == n as int / d as int,
                (n as int) % (d as int) > 0,
                n <= u64::MAX,
                d > 0,
        ;
        q + 1
    } else {
        q
    }
}

/// The word for `count` things.
pub fn pluralize_64(single_form: &str, plural_form: &str, count: u64) -> (r: String)
    ensures
        r@ == plural_text(single_form@, plural_form@, count),
{
    proof {
        reveal_strlit("s");
        reveal_strlit("es");
        assert("s"@ =~= seq!['s']);
        assert("es"@ =~= seq!['e', 's']);
    }
    if count == 1 {
        single_form.to_owned()
    } else {
        let single = chars_of(single_form);
        let as_ending = plural_form.eq("s") || (plural_form.eq("es") && longer_than(&single, 2));
        proof {
            let es = seq!['e', 's'];
            assert(es.drop_last() =~= seq!['e']);
            assert(seq!['e'].drop_last() =~= Seq::<char>::empty());
            assert(utf8_len(Seq::<char>::empty()) == 0);
            assert(utf8_len(seq!['e']) == 1);
            assert(utf8_len(es) == 2);
        }
        if as_ending {
            let mut acc: Vec<char> = single;
            append_str(&mut acc, plural_form);
            text_of(&acc)
        } else {
            plural_form.to_owned()
        }
    }
}

/// A duration of `seconds` in words.
pub fn seconds_to_day_hours_min_secs(seconds: u64) -> (r: String)
    ensures
        r@ == duration_text(seconds),
{
    let mut acc: Vec<char> = Vec::new();
    if seconds >= 86400 {
        push_decimal(&mut acc, div_rounded(seconds, 86400));
        acc.push(' ');
        let word = pluralize_64("day", "s", seconds / 86400);
        append_str(&mut acc, word.as_str());
        if seconds < 86400 * 3 && seconds % 86400 != 0 {
            acc.push(' ');
            push_decimal(&mut acc, div_rounded(seconds % 86400, 3600));
            acc.push('h');
        }
    } else if seconds >= 3600 {
        push_decimal(&mut acc, div_rounded(seconds, 3600));
        acc.push('h');
        if seconds < 3600 * 6 && seconds % 3600 != 0 {
            acc.push(' ');
            push_decimal(&mut acc, div_rounded(seconds % 3600, 60));
            acc.push('m');
        }
    } else if seconds >= 60 {
        push_decimal(&mut acc, div_rounded(seconds, 60));
        acc.push('m');
        if seconds < 60 * 5 && seconds % 60 != 0 {
            acc.push(' ');
            push_decimal(&mut acc, seconds % 60);
            acc.push('s');
        }
    } else {
        push_decimal(&mut acc, seconds);
        acc.push('s');
    }
    assert(acc@ == duration_text(seconds));
    text_of(&acc)
}

/// A long pattern of alternatives, cut after the second one.
pub fn to_short_pattern(pattern: &str) -> (r: String)
    ensures
        r@ == short_pattern(pattern@),
{
    let v = chars_of(pattern);
    if longer_than(&v, 32) && has_char(&v, '|') && has_char(&v, '(') {
        let pieces = split_chars(&v, '|');
        proof {
            crate::text::lemma_split_count(v@, '|');
            assert(rows(pieces@)[0] == pieces@[0]@);
            assert(rows(pieces@)[1] == pieces@[1]@);
        }
        let mut acc: Vec<char> = Vec::new();
        crate::text::append_chars(&mut acc, &pieces[0]);
        acc.push('|');
        crate::text::append_chars(&mut acc, &pieces[1]);
        append_str(&mut acc, "|...)");
        proof {
            reveal_strlit("|...)");
            assert("|...)"@ =~= seq!['|', '.', '.', '.', ')']);
            assert(acc@ == short_pattern(pattern@));
        }
        text_of(&acc)
    } else {
        pattern.to_owned()
    }
}

/// The name of the action that the flags ask for.
pub fn build_action_text(delete_mode: bool, move_mode: bool, move_target: &Option<String>) -> (r:
    String)
    ensures
        r@ == action_text(
            delete_mode,
            move_mode,
            match move_target {
                Some(t) => Some(t@),
                None => None,
            },
        ),
{
    if move_mode {
        let mut acc: Vec<char> = chars_of("move to");
        match move_target {
            Some(tg) => {
                acc.push(' ');
                append_str(&mut acc, tg.as_str());
            },
            None => {},
        }
        text_of(&acc)
    } else if delete_mode {
        "delete".to_owned()
    } else {
        "list".to_owned()
    }
}

/// The target of a move or a copy, and whether one was named.
pub fn extract_move_target(move_opt: Option<String>) -> (r: (String, bool))
    ensures
        r.0@ == match move_opt {
            Some(t) => t@,
            None => Seq::empty(),
        },
        r.1 == (r.0@.len() > 0),
{
    let target = match move_opt {
        Some(t) => t,
        None => String::new(),
    };
    let named = !target.as_str().is_empty();
    (target, named)
}

} // verus!
