//! Decimal numbers written as text, scaled by a whole factor.
//!
//! A size or an age is written as digits with at most one decimal point
//! and multiplied by the factor that its unit stands for. The product
//! is computed exactly: the text may hold any number of digits, and the
//! result is cut off only where it leaves `u64`.

use vstd::prelude::*;
use vstd::arithmetic::div_mod::lemma_fundamental_div_mod_converse;
use crate::text::is_digit;
use crate::text::is_digit_char;

verus! {

/// Ten to the power `n`.
pub open spec fn pow10(n: nat) -> nat
    decreases n,
{
    if n == 0 {
        1
    } else {
        10 * pow10((n - 1) as nat)
    }
}

/// The value of one decimal digit.
pub open spec fn digit_value(c: char) -> nat {
    (c as int - '0' as int) as nat
}

/// Every character of `s` is a decimal digit.
pub open spec fn all_digits(s: Seq<char>) -> bool {
    forall|i: int| 0 <= i < s.len() ==> is_digit(#[trigger] s[i])
}

/// The number that the digits of `s` spell; 0 for the empty text.
pub open spec fn digits_value(s: Seq<char>) -> nat
    decreases s.len(),
{
    if s.len() == 0 {
        0
    } else {
        digits_value(s.drop_last()) * 10 + digit_value(s.last())
    }
}

/// The number of characters of `s` before its first `c`; the length of
/// `s` where it holds no `c`.
pub open spec fn position(s: Seq<char>, c: char) -> int
    decreases s.len(),
{
    if s.len() == 0 || s[0] == c {
        0
    } else {
        1 + position(s.skip(1), c)
    }
}

/// What stands before the decimal point.
pub open spec fn whole_part(tok: Seq<char>) -> Seq<char> {
    tok.take(position(tok, '.'))
}

/// What stands after the decimal point; empty where there is no point.
pub open spec fn fraction_part(tok: Seq<char>) -> Seq<char> {
    if position(tok, '.') < tok.len() {
        tok.skip(position(tok, '.') + 1)
    } else {
        Seq::empty()
    }
}

/// `tok` is a decimal number: digits, with at most one decimal point
/// among them, and at least one digit.
pub open spec fn is_decimal(tok: Seq<char>) -> bool {
    &&& all_digits(whole_part(tok))
    &&& all_digits(fraction_part(tok))
    &&& whole_part(tok).len() + fraction_part(tok).len() > 0
}

/// The decimal number `tok` times `factor`, as a fraction: its numerator
/// over `pow10(fraction_part(tok).len())`.
pub open spec fn scaled_numerator(tok: Seq<char>, factor: nat) -> nat {
    digits_value(whole_part(tok) + fraction_part(tok)) * factor
}

/// The decimal number `tok` times `factor`, rounded down.
pub open spec fn scaled_floor(tok: Seq<char>, factor: nat) -> nat {
    scaled_numerator(tok, factor) / pow10(fraction_part(tok).len())
}

/// The decimal number `tok` times `factor` is a whole number.
pub open spec fn scaled_is_whole(tok: Seq<char>, factor: nat) -> bool {
    scaled_numerator(tok, factor) % pow10(fraction_part(tok).len()) == 0
}

/// The decimal number `tok` times `factor`, rounded up.
pub open spec fn scaled_ceil(tok: Seq<char>, factor: nat) -> nat {
    if scaled_is_whole(tok, factor) {
        scaled_floor(tok, factor)
    } else {
        scaled_floor(tok, factor) + 1
    }
}

/// `n`, or the largest `u64` where `n` is larger.
pub open spec fn clamp_u64(n: nat) -> u64 {
    if n > u64::MAX {
        u64::MAX
    } else {
        n as u64
    }
}

/// A power of ten is positive.
pub proof fn lemma_pow10_positive(n: nat)
    ensures
        pow10(n) > 0,
    decreases n,
{
    if n > 0 {
        lemma_pow10_positive((n - 1) as nat);
    }
}

/// Where `p` is the place of the first `c` in `s`, `position` is `p`.
pub proof fn lemma_position(s: Seq<char>, c: char, p: int)
    requires
        0 <= p <= s.len(),
        forall|j: int| 0 <= j < p ==> s[j] != c,
        p == s.len() || s[p] == c,
    ensures
        position(s, c) == p,
    decreases p,
{
    if p > 0 {
        let rest = s.skip(1);
        assert forall|j: int| 0 <= j < p - 1 implies rest[j] != c by {
            assert(rest[j] == s[j + 1]);
        }
        lemma_position(rest, c, p - 1);
    }
}

/// The digits of `a` followed by those of `b` spell the number of `a`,
/// shifted by the length of `b`, plus the number of `b`.
pub proof fn lemma_digits_value_concat(a: Seq<char>, b: Seq<char>)
    ensures
        digits_value(a + b) == digits_value(a) * pow10(b.len()) + digits_value(b),
    decreases b.len(),
{
    if b.len() == 0 {
        assert(a + b == a);
        assert(pow10(0) == 1);
        assert(digits_value(a) * 1 == digits_value(a));
    } else {
        let ab = a + b;
        assert(ab.drop_last() == a + b.drop_last());
        assert(ab.last() == b.last());
        lemma_digits_value_concat(a, b.drop_last());
        let x = digits_value(a);
        let p = pow10(b.drop_last().len());
        let y = digits_value(b.drop_last());
        assert(pow10(b.len()) == 10 * p);
        assert(digits_value(ab) == digits_value(ab.drop_last()) * 10 + digit_value(ab.last()));
        assert(digits_value(b) == y * 10 + digit_value(b.last()));
        assert((x * p + y) * 10 == x * (10 * p) + y * 10) by (nonlinear_arith);
        assert(x * pow10(b.len()) == x * (10 * p));
    }
}

/// Rounding up keeps every comparison with a whole number: a whole
/// number is at least the product exactly when it is at least the
/// product rounded up.
pub proof fn lemma_ceil_compares(tok: Seq<char>, factor: nat, n: nat)
    ensures
        n >= scaled_ceil(tok, factor) <==> n * pow10(fraction_part(tok).len())
            >= scaled_numerator(tok, factor),
{
    let p = pow10(fraction_part(tok).len());
    let x = scaled_numerator(tok, factor);
    lemma_pow10_positive(fraction_part(tok).len());
    vstd::arithmetic::div_mod::lemma_fundamental_div_mod(x as int, p as int);
    vstd::arithmetic::div_mod::lemma_mod_pos_bound(x as int, p as int);
    let q = x / p;
    let r = x % p;
    assert(x == p * q + r);
    if n >= q + 1 {
        assert(n * p >= (q + 1) * p) by (nonlinear_arith)
            requires
                n >= q + 1,
                p > 0,
        ;
        assert((q + 1) * p == p * q + p) by (nonlinear_arith);
    }
    if n <= q {
        assert(n * p <= q * p) by (nonlinear_arith)
            requires
                n <= q,
                p > 0,
        ;
        assert(q * p == p * q) by (nonlinear_arith);
    }
    if n < q {
        assert(n * p <= (q - 1) * p) by (nonlinear_arith)
            requires
                n <= q - 1,
                p > 0,
        ;
        assert((q - 1) * p == p * q - p) by (nonlinear_arith);
    }
}

/// Rounding down keeps every comparison with a whole number: a whole
/// number is at most the product exactly when it is at most the
/// product rounded down.
pub proof fn lemma_floor_compares(tok: Seq<char>, factor: nat, n: nat)
    ensures
        n <= scaled_floor(tok, factor) <==> n * pow10(fraction_part(tok).len())
            <= scaled_numerator(tok, factor),
{
    let p = pow10(fraction_part(tok).len());
    let x = scaled_numerator(tok, factor);
    lemma_pow10_positive(fraction_part(tok).len());
    vstd::arithmetic::div_mod::lemma_fundamental_div_mod(x as int, p as int);
    vstd::arithmetic::div_mod::lemma_mod_pos_bound(x as int, p as int);
    let q = x / p;
    assert(x == p * q + x % p);
    if n <= q {
        assert(n * p <= q * p) by (nonlinear_arith)
            requires
                n <= q,
                p > 0,
        ;
        assert(q * p == p * q) by (nonlinear_arith);
    } else {
        assert(n * p >= (q + 1) * p) by (nonlinear_arith)
            requires
                n >= q + 1,
                p > 0,
        ;
        assert((q + 1) * p == p * q + p) by (nonlinear_arith);
    }
}

/// The number spelled by the digits `tok[0..n]`, cut off at `u64::MAX`.
fn whole_value(tok: &Vec<char>, n: usize) -> (r: u64)
    requires
        n <= tok.len(),
        all_digits(tok@.take(n as int)),
    ensures
        r == clamp_u64(digits_value(tok@.take(n as int))),
{
    let mut acc: u64 = 0;
    let mut i: usize = 0;
    while i < n
        invariant
            i <= n <= tok.len(),
            all_digits(tok@.take(n as int)),
            acc == clamp_u64(digits_value(tok@.take(i as int))),
        decreases n - i,
    {
        let c = tok[i];
        assert(is_digit(c)) by {
            assert(tok@.take(n as int)[i as int] == c);
        }
        proof {
            assert(tok@.take(i + 1).drop_last() == tok@.take(i as int));
            assert(tok@.take(i + 1).last() == c);
        }
        let d: u64 = (c as u64) - ('0' as u64);
        if acc > (u64::MAX - d) / 10 {
            acc = u64::MAX;
        } else {
            acc = acc * 10 + d;
        }
        i += 1;
    }
    acc
}

/// The digits `tok[from..]` as a fraction, times `factor`: the whole
/// part of the product, and whether nothing is left beside it.
fn fraction_value(tok: &Vec<char>, from: usize, factor: u32) -> (r: (u64, bool))
    requires
        from <= tok.len(),
        all_digits(tok@.skip(from as int)),
    ensures
        ({
            let f = tok@.skip(from as int);
            &&& r.0 == (digits_value(f) * (factor as nat)) / pow10(f.len())
            &&& r.1 == ((digits_value(f) * (factor as nat)) % pow10(f.len()) == 0)
        }),
{
    let mut carry: u64 = 0;
    let mut whole: bool = true;
    let mut i: usize = tok.len();
    let ghost mut rest: int = 0;
    proof {
        assert(tok@.skip(i as int).len() == 0);
        assert(digits_value(tok@.skip(i as int)) == 0);
        assert(pow10(0) == 1);
    }
    while i > from
        invariant
            from <= i <= tok.len(),
            all_digits(tok@.skip(from as int)),
            carry <= factor,
            0 <= rest < pow10((tok.len() - i) as nat),
            digits_value(tok@.skip(i as int)) * factor == carry * pow10((tok.len() - i) as nat)
                + rest,
            whole == (rest == 0),
        decreases i,
    {
        i -= 1;
        let c = tok[i];
        assert(is_digit(c)) by {
            assert(tok@.skip(from as int)[i - from] == c);
        }
        let d: u64 = (c as u64) - ('0' as u64);
        assert(d * factor <= 9 * factor <= 9 * 0xFFFF_FFFF) by (nonlinear_arith)
            requires
                d <= 9,
                factor <= 0xFFFF_FFFF,
        ;
        let t: u64 = d * (factor as u64) + carry;
        proof {
            let tail = tok@.skip(i + 1);
            let head = seq![c];
            let p = pow10(tail.len());
            assert(tok@.skip(i as int) == head + tail);
            assert(head.drop_last().len() == 0);
            assert(digits_value(head.drop_last()) == 0);
            assert(digits_value(head) == d);
            lemma_digits_value_concat(head, tail);
            lemma_pow10_positive(tail.len());
            assert(pow10((tok.len() - i) as nat) == 10 * p);
            let tv = digits_value(tail);
            let q = t / 10;
            let m = t % 10;
            assert((d * p + tv) * factor == (d * factor) * p + tv * factor) by (nonlinear_arith);
            assert((d * factor) * p + carry * p == (q * 10 + m) * p) by (nonlinear_arith)
                requires
                    d * factor + carry == q * 10 + m,
            ;
            assert((q * 10 + m) * p == q * (10 * p) + m * p) by (nonlinear_arith);
            assert(m * p + rest < 10 * p) by (nonlinear_arith)
                requires
                    m <= 9,
                    rest < p,
            ;
            assert(m * p + rest == 0 <==> m == 0 && rest == 0) by (nonlinear_arith)
                requires
                    m >= 0,
                    rest >= 0,
                    p > 0,
            ;
            rest = m * p + rest;
        }
        if t % 10 != 0 {
            whole = false;
        }
        carry = t / 10;
    }
    proof {
        let f = tok@.skip(from as int);
        lemma_pow10_positive(f.len());
        lemma_fundamental_div_mod_converse(
            (digits_value(f) * factor) as int,
            pow10(f.len()) as int,
            carry as int,
            rest as int,
        );
    }
    (carry, whole)
}

/// The decimal number `tok` times `factor`: rounded down and cut off at
/// `u64::MAX`, and whether the product is a whole number. `None` where
/// `tok` is no decimal number.
pub fn scale_decimal(tok: &Vec<char>, factor: u32) -> (r: Option<(u64, bool)>)
    ensures
        r is Some == is_decimal(tok@),
        r matches Some(v) ==> v.0 == clamp_u64(scaled_floor(tok@, factor as nat)) && v.1
            == scaled_is_whole(tok@, factor as nat),
{
    let n: usize = tok.len();
    let mut p: usize = 0;
    while p < n && tok[p] != '.'
        invariant
            p <= n == tok.len(),
            forall|j: int| 0 <= j < p ==> tok@[j] != '.',
        decreases n - p,
    {
        p += 1;
    }
    proof {
        lemma_position(tok@, '.', p as int);
    }
    let from: usize = if p < n {
        p + 1
    } else {
        n
    };
    assert(fraction_part(tok@) == tok@.skip(from as int));
    let mut i: usize = 0;
    while i < n
        invariant
            i <= n == tok.len(),
            p <= n,
            position(tok@, '.') == p,
            from == if p < n { p + 1 } else { n as int },
            forall|j: int| 0 <= j < i && j != p ==> is_digit(tok@[j]),
        decreases n - i,
    {
        if i != p && !is_digit_char(tok[i]) {
            proof {
                if i < p {
                    assert(whole_part(tok@)[i as int] == tok@[i as int]);
                } else {
                    assert(fraction_part(tok@)[i - from] == tok@[i as int]);
                }
            }
            return None;
        }
        i += 1;
    }
    assert(all_digits(whole_part(tok@)));
    assert(all_digits(fraction_part(tok@)));
    if n == 0 || (p < n && n == 1) {
        return None;
    }
    let w = whole_value(tok, p);
    let (carry, whole) = fraction_value(tok, from, factor);
    assert(w * factor <= 0xFFFF_FFFF_FFFF_FFFF * 0xFFFF_FFFF) by (nonlinear_arith)
        requires
            w <= 0xFFFF_FFFF_FFFF_FFFF,
            factor <= 0xFFFF_FFFF,
    ;
    let total: u128 = (w as u128) * (factor as u128) + (carry as u128);
    proof {
        let wp = whole_part(tok@);
        let fp = fraction_part(tok@);
        let pw = pow10(fp.len());
        let wv = digits_value(wp);
        let fv = digits_value(fp);
        let fac = factor as nat;
        lemma_digits_value_concat(wp, fp);
        lemma_pow10_positive(fp.len());
        let rem = (fv * fac) % pw;
        assert(fv * fac == pw * carry + rem) by {
            vstd::arithmetic::div_mod::lemma_fundamental_div_mod((fv * fac) as int, pw as int);
        }
        assert((wv * pw + fv) * fac == (wv * fac + carry) * pw + rem) by (nonlinear_arith)
            requires
                fv * fac == pw * carry + rem,
        ;
        assert(0 <= rem < pw) by {
            vstd::arithmetic::div_mod::lemma_mod_pos_bound((fv * fac) as int, pw as int);
        }
        lemma_fundamental_div_mod_converse(
            scaled_numerator(tok@, fac) as int,
            pw as int,
            (wv * fac + carry) as int,
            rem as int,
        );
        assert(scaled_floor(tok@, fac) == wv * fac + carry);
        if wv > u64::MAX {
            assert(wv * fac + carry >= w * fac + carry) by (nonlinear_arith)
                requires
                    wv >= w,
            ;
            if fac >= 1 {
                assert(w * fac >= w) by (nonlinear_arith)
                    requires
                        fac >= 1,
                ;
            } else {
                assert(wv * fac == 0 && w * fac == 0) by (nonlinear_arith)
                    requires
                        fac == 0,
                ;
            }
        }
    }
    let floor: u64 = if total > u64::MAX as u128 {
        u64::MAX
    } else {
        total as u64
    };
    Some((floor, whole))
}

} // verus!
