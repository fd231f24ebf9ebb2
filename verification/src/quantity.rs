//! Parses Kubernetes resource quantities ("100m", "2", "1Gi", "1500M", ...).
//!
//! A quantity is a decimal literal (the grammar that `f64::from_str` accepts:
//! optional sign, digits with an optional fraction, optional exponent, or
//! `inf`/`infinity`/`nan`) scaled by a unit. The scaled value is rounded to
//! the nearest integer, halves away from zero; negative values and NaN give 0
//! and values beyond `u64::MAX` give `u64::MAX`. The arithmetic is exact.

use vstd::prelude::*;
use vstd::arithmetic::power::*;
use vstd::arithmetic::div_mod::*;
use vstd::arithmetic::mul::*;
use crate::text::{
    all_digits, all_whitespace, chars_of, decimal, digit_value, digits_value, ends_with, is_digit,
    is_whitespace, lemma_decimal_numeral, lemma_digits_value_push, lemma_parse_u64_decimal,
    lemma_trim_solid, lemma_trim_surrounding, parse_u64, parse_u64_spec, push_all, slice_chars,
    trim, trim_chars,
};

verus! {

// ---------------------------------------------------------------------------
// Arithmetic facts about digit strings and rounding
// ---------------------------------------------------------------------------

/// `10^k`.
pub open spec fn pow10(k: nat) -> int {
    pow(10, k)
}

pub proof fn lemma_pow10_pos(k: nat)
    ensures
        pow10(k) > 0,
{
    lemma_pow_positive(10, k);
}

pub proof fn lemma_pow10_succ(k: nat)
    ensures
        pow10(k + 1) == 10 * pow10(k),
{
    lemma_pow_adds(10, k, 1);
    lemma_pow1(10);
    lemma_mul_is_commutative(pow(10, k), 10);
}

pub proof fn lemma_pow10_mono(a: nat, b: nat)
    requires
        a <= b,
    ensures
        pow10(a) <= pow10(b),
{
    lemma_pow_increases(10, a, b);
}

pub proof fn lemma_pow10_adds(a: nat, b: nat)
    ensures
        pow10(a + b) == pow10(a) * pow10(b),
{
    lemma_pow_adds(10, a, b);
}

/// The value of `x` followed by `y` splits into the two parts.
pub proof fn lemma_digits_concat(x: Seq<char>, y: Seq<char>)
    ensures
        digits_value(x + y) == digits_value(x) * pow10(y.len()) + digits_value(y),
    decreases y.len(),
{
    if y.len() == 0 {
        assert(x + y =~= x);
        lemma_pow0(10);
    } else {
        let y0 = y.drop_last();
        assert((x + y).drop_last() =~= x + y0);
        assert((x + y).last() == y.last());
        lemma_digits_concat(x, y0);
        lemma_pow10_succ(y0.len());
        let a = digits_value(x);
        let p = pow10(y0.len());
        assert((a * p + digits_value(y0)) * 10 + digit_value(y.last()) == a * (10 * p) + (
        digits_value(y0) * 10 + digit_value(y.last()))) by (nonlinear_arith);
    }
}

/// A string of `k` digits spells a number below `10^k`.
pub proof fn lemma_digits_bound(y: Seq<char>)
    requires
        all_digits(y),
    ensures
        digits_value(y) < pow10(y.len()),
    decreases y.len(),
{
    if y.len() == 0 {
        lemma_pow0(10);
    } else {
        let y0 = y.drop_last();
        assert(all_digits(y0)) by {
            assert forall|i: int| 0 <= i < y0.len() implies is_digit(y0[i]) by {
                assert(y0[i] == y[i]);
            }
        }
        lemma_digits_bound(y0);
        lemma_pow10_succ(y0.len());
        assert(is_digit(y[y.len() - 1]));
        assert(digit_value(y.last()) <= 9);
    }
}

/// Rounding `P/Q * F/G` to nearest (halves up) splits into the integer part
/// of `P/Q` and the scaled fraction.
pub proof fn lemma_round_split(p: int, q: int, f: int, g: int)
    requires
        p >= 0,
        q > 0,
        f >= 0,
        g > 0,
    ensures
        (2 * p * f + g * q) / (2 * g * q) == (2 * (p / q) * f + (2 * f * (p % q)) / q + g) / (2
            * g),
{
    let i = p / q;
    let r = p % q;
    lemma_fundamental_div_mod(p, q);
    lemma_mod_pos_bound(p, q);
    let b = (2 * f * r) / q;
    let s = (2 * f * r) % q;
    assert(2 * f * r >= 0) by (nonlinear_arith)
        requires
            f >= 0,
            r >= 0,
    ;
    lemma_fundamental_div_mod(2 * f * r, q);
    lemma_mod_pos_bound(2 * f * r, q);
    let k = 2 * i * f + g + b;
    assert(2 * p * f + g * q == q * k + s) by (nonlinear_arith)
        requires
            p == q * i + r,
            2 * f * r == q * b + s,
            k == 2 * i * f + g + b,
    ;
    assert(k >= 0) by (nonlinear_arith)
        requires
            k == 2 * i * f + g + b,
            i >= 0,
            f >= 0,
            g > 0,
            b >= 0,
    {
    }
    assert(i >= 0) by {
        lemma_div_pos_is_pos(p, q);
    }
    assert(b >= 0) by {
        lemma_div_pos_is_pos(2 * f * r, q);
    }
    assert((q * k + s) / q == k) by {
        lemma_fundamental_div_mod_converse(q * k + s, q, k, s);
    }
    assert(q * k + s >= 0) by (nonlinear_arith)
        requires
            q > 0,
            k >= 0,
            s >= 0,
    ;
    lemma_div_denominator(q * k + s, q, 2 * g);
    assert(q * (2 * g) == 2 * g * q) by (nonlinear_arith);
}

/// One step of the right-to-left evaluation of `floor(M * 0.d...)`.
pub proof fn lemma_frac_step(m: int, d: int, r: int, k: nat)
    requires
        m >= 0,
        d >= 0,
        r >= 0,
    ensures
        (m * (d * pow10(k) + r)) / pow10(k + 1) == (m * d + (m * r) / pow10(k)) / 10,
{
    lemma_pow10_pos(k);
    lemma_pow10_succ(k);
    let pk = pow10(k);
    assert(m * (d * pk + r) == m * r + (m * d) * pk) by (nonlinear_arith);
    assert(m * r >= 0 && m * d >= 0 && m * r + (m * d) * pk >= 0) by (nonlinear_arith)
        requires
            m >= 0,
            d >= 0,
            r >= 0,
            pk > 0,
    ;
    lemma_hoist_over_denominator(m * r, m * d, pk as nat);
    lemma_div_denominator(m * r + (m * d) * pk, pk, 10);
    assert(pk * 10 == pow10(k + 1));
}

// ---------------------------------------------------------------------------
// The decimal literal grammar
// ---------------------------------------------------------------------------

/// A finite decimal literal: its digits (integer part followed by fraction),
/// how many of them stand before the point, and the decimal exponent.
pub struct DecimalLit {
    pub digits: Seq<char>,
    pub int_len: nat,
    pub exp: int,
}

/// A literal that `f64::from_str` accepts.
pub enum FloatLit {
    Finite { neg: bool, lit: DecimalLit },
    Infinite { neg: bool },
    NotANumber,
}

/// An optional leading sign and the rest: `(negative, rest)`.
pub open spec fn sign_split(s: Seq<char>) -> (bool, Seq<char>) {
    if s.len() > 0 && (s[0] == '+' || s[0] == '-') {
        (s[0] == '-', s.drop_first())
    } else {
        (false, s)
    }
}

/// `s` equals the lowercase word `lower` ignoring ASCII case, with `upper` its uppercase.
pub open spec fn eq_ignore_case(s: Seq<char>, lower: Seq<char>, upper: Seq<char>) -> bool {
    s.len() == lower.len() && lower.len() == upper.len() && forall|i: int|
        0 <= i < s.len() ==> s[i] == lower[i] || s[i] == upper[i]
}

/// Index of the first `e` or `E` at or after `i`, or `s.len()`.
pub open spec fn exp_mark(s: Seq<char>, i: int) -> int
    decreases s.len() - i,
{
    if i < 0 || i >= s.len() || s[i] == 'e' || s[i] == 'E' {
        i
    } else {
        exp_mark(s, i + 1)
    }
}

/// Index of the first `.` at or after `i`, or `s.len()`.
pub open spec fn dot_mark(s: Seq<char>, i: int) -> int
    decreases s.len() - i,
{
    if i < 0 || i >= s.len() || s[i] == '.' {
        i
    } else {
        dot_mark(s, i + 1)
    }
}

pub proof fn lemma_exp_mark(s: Seq<char>, i: int)
    requires
        0 <= i <= s.len(),
    ensures
        i <= exp_mark(s, i) <= s.len(),
    decreases s.len() - i,
{
    if i < s.len() && s[i] != 'e' && s[i] != 'E' {
        lemma_exp_mark(s, i + 1);
    }
}

pub proof fn lemma_dot_mark(s: Seq<char>, i: int)
    requires
        0 <= i <= s.len(),
    ensures
        i <= dot_mark(s, i) <= s.len(),
    decreases s.len() - i,
{
    if i < s.len() && s[i] != '.' {
        lemma_dot_mark(s, i + 1);
    }
}

/// The value of an exponent: optional sign, then one or more digits.
pub open spec fn exponent_value(s: Seq<char>) -> Option<int> {
    let (neg, d) = sign_split(s);
    if d.len() > 0 && all_digits(d) {
        Some(
            if neg {
                -digits_value(d)
            } else {
                digits_value(d) as int
            },
        )
    } else {
        None
    }
}

/// A finite decimal literal without sign: `digits [. digits] [(e|E) [sign] digits]`,
/// with at least one digit in the mantissa.
pub open spec fn decimal_literal(b: Seq<char>) -> Option<DecimalLit> {
    let ei = exp_mark(b, 0);
    let mant = b.subrange(0, ei);
    let di = dot_mark(mant, 0);
    let ip = mant.subrange(0, di);
    let fp = if di < mant.len() {
        mant.subrange(di + 1, mant.len() as int)
    } else {
        Seq::<char>::empty()
    };
    let exp = if ei < b.len() {
        exponent_value(b.subrange(ei + 1, b.len() as int))
    } else {
        Some(0int)
    };
    if all_digits(ip) && all_digits(fp) && ip.len() + fp.len() > 0 && exp is Some {
        Some(DecimalLit { digits: ip + fp, int_len: ip.len(), exp: exp->0 })
    } else {
        None
    }
}

/// What `f64::from_str` accepts, with the value it denotes.
pub open spec fn float_literal(t: Seq<char>) -> Option<FloatLit> {
    let (neg, b) = sign_split(t);
    if eq_ignore_case(b, seq!['i', 'n', 'f'], seq!['I', 'N', 'F']) || eq_ignore_case(
        b,
        seq!['i', 'n', 'f', 'i', 'n', 'i', 't', 'y'],
        seq!['I', 'N', 'F', 'I', 'N', 'I', 'T', 'Y'],
    ) {
        Some(FloatLit::Infinite { neg })
    } else if eq_ignore_case(b, seq!['n', 'a', 'n'], seq!['N', 'A', 'N']) {
        Some(FloatLit::NotANumber)
    } else {
        match decimal_literal(b) {
            Some(lit) => Some(FloatLit::Finite { neg, lit }),
            None => None,
        }
    }
}

/// `N * 10^scale * num / den` rounded to the nearest integer, halves up.
pub open spec fn round_scaled(n: nat, scale: int, num: nat, den: nat) -> int {
    let a: nat = if scale >= 0 {
        scale as nat
    } else {
        0
    };
    let b: nat = if scale < 0 {
        (-scale) as nat
    } else {
        0
    };
    (2 * n * num * pow10(a) + den * pow10(b)) / (2 * den * pow10(b))
}

/// Saturating conversion to `u64`.
pub open spec fn saturate(x: int) -> u64 {
    if x < 0 {
        0
    } else if x > u64::MAX {
        u64::MAX
    } else {
        x as u64
    }
}

/// `(value * num / den).round() as u64` for a parsed literal, with exact arithmetic.
pub open spec fn scaled_u64(f: FloatLit, num: nat, den: nat) -> u64 {
    match f {
        FloatLit::NotANumber => 0,
        FloatLit::Infinite { neg } => if neg {
            0
        } else {
            u64::MAX
        },
        FloatLit::Finite { neg, lit } => if neg {
            0
        } else {
            saturate(
                round_scaled(
                    digits_value(lit.digits),
                    lit.exp - (lit.digits.len() - lit.int_len),
                    num,
                    den,
                ),
            )
        },
    }
}

/// A decimal literal scaled by `num / den`, or `None` when it is not a literal.
pub open spec fn parse_scaled_spec(t: Seq<char>, num: nat, den: nat) -> Option<u64> {
    match float_literal(t) {
        Some(f) => Some(scaled_u64(f, num, den)),
        None => None,
    }
}

// ---------------------------------------------------------------------------
// The evaluation that the executable code follows
// ---------------------------------------------------------------------------

/// Integer part of `0.D * 10^p` where `D` has `len(D)` digits.
pub open spec fn int_part(d: Seq<char>, p: int) -> int {
    if p <= 0 {
        0
    } else if p < d.len() {
        digits_value(d.subrange(0, p)) as int
    } else {
        digits_value(d) * pow10((p - d.len()) as nat)
    }
}

/// `floor(M * fraction)` for the fractional part of `0.D * 10^p`.
pub open spec fn frac_floor(d: Seq<char>, p: int, m: int) -> int {
    if p >= d.len() {
        0
    } else {
        let s = if p > 0 {
            p
        } else {
            0
        };
        (m * digits_value(d.subrange(s, d.len() as int))) / pow10((d.len() - p) as nat)
    }
}

pub proof fn lemma_frac_floor_nonneg(d: Seq<char>, p: int, m: int)
    requires
        m >= 0,
    ensures
        frac_floor(d, p, m) >= 0,
{
    if p < d.len() {
        let s = if p > 0 {
            p
        } else {
            0
        };
        let v = digits_value(d.subrange(s, d.len() as int)) as int;
        assert(m * v >= 0) by (nonlinear_arith)
            requires
                m >= 0,
                v >= 0,
        ;
        lemma_pow10_pos((d.len() - p) as nat);
        lemma_div_pos_is_pos(m * v, pow10((d.len() - p) as nat));
    }
}

/// The rounding of `0.D * 10^p * F / G` computed from its integer and fractional parts.
pub proof fn lemma_round_by_parts(d: Seq<char>, p: int, f: int, g: int)
    requires
        all_digits(d),
        f >= 0,
        g > 0,
    ensures
        round_scaled(digits_value(d), p - d.len(), f as nat, g as nat) == (2 * int_part(d, p) * f
            + frac_floor(d, p, 2 * f) + g) / (2 * g),
{
    let l = d.len() as int;
    let n = digits_value(d) as int;
    lemma_digits_bound(d);
    if p >= l {
        let k = (p - l) as nat;
        lemma_pow0(10);
        lemma_pow10_pos(k);
        assert(n * pow10(k) >= 0) by (nonlinear_arith)
            requires
                n >= 0,
                pow10(k) > 0,
        ;
        assert(2 * n * f * pow10(k) == 2 * (n * pow10(k)) * f) by (nonlinear_arith);
        assert(g * 1 == g && 2 * g * 1 == 2 * g);
    } else {
        let s: int = if p > 0 {
            p
        } else {
            0
        };
        let x = d.subrange(0, s);
        let y = d.subrange(s, l);
        assert(d =~= x + y);
        lemma_digits_concat(x, y);
        let b = (l - p) as nat;
        lemma_pow10_pos(b);
        lemma_pow0(10);
        lemma_round_split(n, pow10(b), f, g);
        assert(2 * n * f * 1 == 2 * n * f);
        assert(all_digits(y)) by {
            assert forall|i: int| 0 <= i < y.len() implies is_digit(y[i]) by {
                assert(y[i] == d[s + i]);
            }
        }
        lemma_digits_bound(y);
        if p > 0 {
            // n = dv(x) * 10^b + dv(y), dv(y) < 10^b
            assert(y.len() == b);
            lemma_fundamental_div_mod_converse(
                n,
                pow10(b),
                digits_value(x) as int,
                digits_value(y) as int,
            );
            assert(int_part(d, p) == digits_value(x));
            assert(x =~= d.subrange(0, p));
        } else {
            assert(x.len() == 0);
            assert(digits_value(x) == 0);
            assert(y =~= d);
            lemma_pow0(10);
            assert(pow10(y.len()) == pow10(l as nat));
            lemma_pow10_mono(l as nat, b);
            lemma_fundamental_div_mod_converse(n, pow10(b), 0, n);
            assert(0 * pow10(b) == 0);
        }
    }
}

/// Saturation bound for the integer part: any integer part at least this
/// large rounds to more than `u64::MAX` for every supported unit.
pub open spec fn int_cap() -> int {
    18446744073709551616000
}

pub proof fn lemma_big_int_part_saturates(i: int, b: int, f: int, g: int)
    requires
        i >= int_cap(),
        b >= 0,
        1 <= f,
        1 <= g <= 1000,
    ensures
        (2 * i * f + b + g) / (2 * g) > u64::MAX,
{
    assert(2 * i * f + b + g >= 2 * g * (u64::MAX + 1)) by (nonlinear_arith)
        requires
            i >= int_cap(),
            b >= 0,
            1 <= f,
            1 <= g <= 1000,
    ;
    lemma_div_is_ordered(2 * g * (u64::MAX + 1), 2 * i * f + b + g, 2 * g);
    lemma_div_multiples_vanish(u64::MAX + 1, 2 * g);
    assert(2 * g * (u64::MAX + 1) == (u64::MAX + 1) * (2 * g)) by (nonlinear_arith);
}

/// Bound at which a decimal exponent is saturated; beyond it every nonzero
/// literal is either far above `u64::MAX` or far below one half.
pub open spec fn exp_cap() -> int {
    1180591620717411303424
}

/// The exponent as the evaluation carries it.
pub open spec fn clamp_exp(e: int) -> int {
    if e > exp_cap() {
        exp_cap()
    } else if e < -exp_cap() {
        -exp_cap()
    } else {
        e
    }
}

pub proof fn lemma_pow10_23()
    ensures
        pow10(23) == 100000000000000000000000,
{
    reveal_with_fuel(pow, 24);
}

pub proof fn lemma_pow10_16()
    ensures
        pow10(16) == 10000000000000000,
{
    reveal_with_fuel(pow, 17);
}

/// `floor(m * 0.y... / 10^e)` vanishes once `10^e` exceeds `m * 10^len(y)`.
pub proof fn lemma_frac_small(m: int, y: Seq<char>, e: nat)
    requires
        all_digits(y),
        0 <= m <= 10000000000000000,
        e >= y.len() + 16,
    ensures
        (m * digits_value(y)) / pow10(e) == 0,
{
    lemma_digits_bound(y);
    lemma_pow10_16();
    lemma_pow10_adds(y.len(), 16);
    lemma_pow10_mono(y.len() + 16, e);
    lemma_pow10_pos(y.len());
    let v = digits_value(y) as int;
    let py = pow10(y.len());
    let p16 = pow10(16);
    assert(m * v < py * p16) by (nonlinear_arith)
        requires
            0 <= m <= p16,
            0 <= v < py,
            p16 > 0,
    ;
    assert(m * v >= 0) by (nonlinear_arith)
        requires
            m >= 0,
            v >= 0,
    ;
    lemma_basic_div(m * v, pow10(e));
}

/// The value computed from the integer and fractional parts, saturated.
pub open spec fn parts_result(d: Seq<char>, p: int, num: int, den: int) -> u64 {
    saturate((2 * int_part(d, p) * num + frac_floor(d, p, 2 * num) + den) / (2 * den))
}

/// Saturating the exponent does not change the result.
pub proof fn lemma_clamp_exp_sound(d: Seq<char>, int_len: int, e: int, num: int, den: int)
    requires
        all_digits(d),
        0 <= int_len <= d.len() <= usize::MAX,
        1 <= num <= 1125899906842624,
        1 <= den <= 1000,
    ensures
        parts_result(d, int_len + e, num, den) == parts_result(
            d,
            int_len + clamp_exp(e),
            num,
            den,
        ),
{
    let c = clamp_exp(e);
    if c != e {
        let l = d.len() as int;
        if e > exp_cap() {
            // Both integer parts are either zero or huge.
            let p1 = int_len + e;
            let p2 = int_len + c;
            assert(p2 >= l + 23);
            lemma_pow10_mono(23, (p2 - l) as nat);
            lemma_pow10_mono((p2 - l) as nat, (p1 - l) as nat);
            lemma_pow10_23();
            let v = digits_value(d) as int;
            if v == 0 {
                assert(int_part(d, p1) == 0 && int_part(d, p2) == 0);
            } else {
                assert(v * pow10((p2 - l) as nat) >= pow10((p2 - l) as nat)) by (nonlinear_arith)
                    requires
                        v >= 1,
                        pow10((p2 - l) as nat) >= 0,
                ;
                assert(v * pow10((p1 - l) as nat) >= pow10((p1 - l) as nat)) by (nonlinear_arith)
                    requires
                        v >= 1,
                        pow10((p1 - l) as nat) >= 0,
                ;
                lemma_big_int_part_saturates(int_part(d, p1), 0, num, den);
                lemma_big_int_part_saturates(int_part(d, p2), 0, num, den);
                assert(2 * int_part(d, p1) * num + 0 + den == 2 * int_part(d, p1) * num
                    + frac_floor(d, p1, 2 * num) + den);
                assert(2 * int_part(d, p2) * num + 0 + den == 2 * int_part(d, p2) * num
                    + frac_floor(d, p2, 2 * num) + den);
            }
        } else {
            let p1 = int_len + e;
            let p2 = int_len + c;
            assert(p1 <= -16 && p2 <= -16);
            lemma_frac_small(2 * num, d, (l - p1) as nat);
            lemma_frac_small(2 * num, d, (l - p2) as nat);
            assert(d.subrange(0, l) =~= d);
        }
    }
}

// ---------------------------------------------------------------------------
// Executable evaluation
// ---------------------------------------------------------------------------

fn digit_of(c: char) -> (v: u64)
    requires
        is_digit(c),
    ensures
        v == digit_value(c),
        v <= 9,
{
    (c as u32 - '0' as u32) as u64
}

/// Whether every character is an ASCII digit.
pub fn all_digits_exec(v: &[char]) -> (r: bool)
    ensures
        r == all_digits(v@),
{
    let mut i: usize = 0;
    while i < v.len()
        invariant
            i <= v@.len(),
            forall|k: int| 0 <= k < i ==> is_digit(v@[k]),
        decreases v.len() - i,
    {
        if !('0' <= v[i] && v[i] <= '9') {
            return false;
        }
        i += 1;
    }
    true
}

/// Case-insensitive comparison with a word given in both cases.
fn eq_ignore_case_exec(s: &[char], lower: &[char], upper: &[char]) -> (r: bool)
    ensures
        r == eq_ignore_case(s@, lower@, upper@),
{
    if s.len() != lower.len() || lower.len() != upper.len() {
        return false;
    }
    let mut i: usize = 0;
    while i < s.len()
        invariant
            s@.len() == lower@.len() == upper@.len(),
            i <= s@.len(),
            forall|k: int| 0 <= k < i ==> s@[k] == lower@[k] || s@[k] == upper@[k],
        decreases s.len() - i,
    {
        if s[i] != lower[i] && s[i] != upper[i] {
            return false;
        }
        i += 1;
    }
    true
}

/// `10^k` as `u128` needs no more; the exponent cap as an executable constant.
const EXP_CAP: u128 = 1180591620717411303424;

const INT_CAP: u128 = 18446744073709551616000;

/// The value of an exponent, saturated at the cap.
fn exponent_clamped(s: &[char]) -> (r: Option<i128>)
    ensures
        match exponent_value(s@) {
            Some(v) => r == Some(clamp_exp(v) as i128),
            None => r is None,
        },
{
    let mut start: usize = 0;
    let mut neg = false;
    if s.len() > 0 && (s[0] == '+' || s[0] == '-') {
        neg = s[0] == '-';
        start = 1;
    }
    let ghost d = sign_split(s@).1;
    assert(d =~= s@.subrange(start as int, s@.len() as int));
    if start >= s.len() {
        assert(d.len() == 0);
        return None;
    }
    let mut acc: u128 = 0;
    let mut i = start;
    while i < s.len()
        invariant
            start <= i <= s@.len(),
            d == sign_split(s@).1,
            d == s@.subrange(start as int, s@.len() as int),
            all_digits(s@.subrange(start as int, i as int)),
            acc as int == if digits_value(s@.subrange(start as int, i as int)) > exp_cap() {
                exp_cap()
            } else {
                digits_value(s@.subrange(start as int, i as int)) as int
            },
        decreases s.len() - i,
    {
        let c = s[i];
        if !('0' <= c && c <= '9') {
            assert(d[i - start] == c);
            assert(!is_digit(d[i - start]));
            return None;
        }
        let dv = digit_of(c);
        let ghost prev = s@.subrange(start as int, i as int);
        assert(s@.subrange(start as int, i + 1) =~= prev.push(c));
        proof {
            lemma_digits_value_push(prev, c);
        }
        let next = acc * 10 + dv as u128;
        acc = if next > EXP_CAP {
            EXP_CAP
        } else {
            next
        };
        i += 1;
    }
    assert(s@.subrange(start as int, s@.len() as int) == d);
    let e: i128 = if neg {
        -(acc as i128)
    } else {
        acc as i128
    };
    Some(e)
}

/// Splits an unsigned decimal literal into its digits, the number of integer
/// digits, and the saturated exponent.
fn decimal_parts(b: &[char]) -> (r: Option<(Vec<char>, usize, i128)>)
    ensures
        match decimal_literal(b@) {
            Some(lit) => r matches Some((d, il, e)) && d@ == lit.digits && il == lit.int_len && e
                == clamp_exp(lit.exp),
            None => r is None,
        },
{
    let n = b.len();
    let mut ei: usize = 0;
    proof {
        lemma_exp_mark(b@, 0);
    }
    while ei < n && b[ei] != 'e' && b[ei] != 'E'
        invariant
            n == b@.len(),
            ei <= n,
            exp_mark(b@, 0) == exp_mark(b@, ei as int),
        decreases n - ei,
    {
        ei += 1;
    }
    let mant = slice_chars(b, 0, ei);
    let m = mant.len();
    let mut di: usize = 0;
    while di < m && mant[di] != '.'
        invariant
            m == mant@.len(),
            di <= m,
            dot_mark(mant@, 0) == dot_mark(mant@, di as int),
        decreases m - di,
    {
        di += 1;
    }
    let ip = slice_chars(&mant, 0, di);
    let fp = if di < m {
        slice_chars(&mant, di + 1, m)
    } else {
        Vec::new()
    };
    assert(fp@ =~= if di < m {
        mant@.subrange(di + 1, m as int)
    } else {
        Seq::<char>::empty()
    });
    if !all_digits_exec(&ip) || !all_digits_exec(&fp) || (ip.len() == 0 && fp.len() == 0) {
        return None;
    }
    let exp: i128 = if ei < n {
        let tail = slice_chars(b, ei + 1, n);
        match exponent_clamped(&tail) {
            Some(e) => e,
            None => {
                return None;
            },
        }
    } else {
        0
    };
    let il = ip.len();
    let mut digits = ip;
    push_all(&mut digits, &fp);
    Some((digits, il, exp))
}

/// `saturate(round(0.D * 10^p * num / den))`, computed from the parts.
fn eval_parts(d: &Vec<char>, p: i128, num: u64, den: u64) -> (r: u64)
    requires
        all_digits(d@),
        -(exp_cap() + usize::MAX) <= p <= exp_cap() + usize::MAX,
        1 <= num <= 1125899906842624,
        1 <= den <= 1000,
    ensures
        r == parts_result(d@, p as int, num as int, den as int),
{
    let l = d.len();
    let ghost dd = d@;
    // Integer part, saturated at INT_CAP.
    let mut ip: u128 = 0;
    if p > 0 {
        let upto: usize = if p < l as i128 {
            p as usize
        } else {
            l
        };
        let mut j: usize = 0;
        assert(dd.subrange(0, 0) =~= Seq::<char>::empty());
        while j < upto
            invariant
                upto <= l == dd.len(),
                dd == d@,
                all_digits(dd),
                j <= upto,
                ip as int == if digits_value(dd.subrange(0, j as int)) > INT_CAP {
                    INT_CAP as int
                } else {
                    digits_value(dd.subrange(0, j as int)) as int
                },
            decreases upto - j,
        {
            let c = d[j];
            let dv = digit_of(c);
            assert(dd.subrange(0, j + 1) =~= dd.subrange(0, j as int).push(c));
            proof {
                lemma_digits_value_push(dd.subrange(0, j as int), c);
            }
            let next = ip * 10 + dv as u128;
            ip = if next > INT_CAP {
                INT_CAP
            } else {
                next
            };
            j += 1;
        }
        if p > l as i128 {
            assert(dd.subrange(0, l as int) =~= dd);
            let total: u128 = (p - l as i128) as u128;
            let mut k: u128 = total;
            let ghost mut done: nat = 0;
            proof {
                lemma_pow0(10);
            }
            assert(digits_value(dd) * pow10(0) == digits_value(dd));
            while k > 0 && ip != 0 && ip != INT_CAP
                invariant
                    done + k == total,
                    ip as int == if digits_value(dd) * pow10(done) > INT_CAP {
                        INT_CAP as int
                    } else {
                        digits_value(dd) * pow10(done)
                    },
                decreases k,
            {
                proof {
                    lemma_pow10_succ(done);
                    lemma_pow10_pos(done);
                    let x = digits_value(dd) * pow10(done);
                    assert(digits_value(dd) * pow10(done + 1) == x * 10) by (nonlinear_arith)
                        requires
                            x == digits_value(dd) * pow10(done),
                            pow10(done + 1) == 10 * pow10(done),
                    ;
                }
                let next = ip * 10;
                ip = if next > INT_CAP {
                    INT_CAP
                } else {
                    next
                };
                k = k - 1;
                proof {
                    done = done + 1;
                }
            }
            proof {
                let v = digits_value(dd) as int;
                lemma_pow10_pos(done);
                lemma_pow10_pos(total as nat);
                lemma_pow10_mono(done, total as nat);
                if k > 0 {
                    if ip == 0 {
                        assert(v * pow10(done) == 0);
                        assert(v == 0) by (nonlinear_arith)
                            requires
                                v * pow10(done) == 0,
                                pow10(done) > 0,
                                v >= 0,
                        ;
                        assert(v * pow10(total as nat) == 0) by (nonlinear_arith)
                            requires
                                v == 0,
                        ;
                    } else {
                        assert(v * pow10(done) >= INT_CAP);
                        assert(v * pow10(total as nat) >= v * pow10(done)) by (nonlinear_arith)
                            requires
                                v >= 0,
                                pow10(total as nat) >= pow10(done),
                        ;
                    }
                }
            }
        }
    }
    proof {
        if p > 0 && p < l as i128 {
            assert(ip as int == if int_part(dd, p as int) > INT_CAP {
                INT_CAP as int
            } else {
                int_part(dd, p as int)
            });
        } else if p > 0 && p == l as i128 {
            assert(dd.subrange(0, l as int) =~= dd);
            lemma_pow0(10);
            assert(((p as int) - dd.len()) as nat == 0);
            assert(pow10(0) == 1);
            assert(digits_value(dd) * 1 == digits_value(dd));
            assert(int_part(dd, p as int) == digits_value(dd));
        }
    }
    // Fractional part: t = floor(m * fraction).
    let m: u64 = 2 * num;
    let mut t: u64 = 0;
    if p < l as i128 {
        let s: usize = if p > 0 {
            p as usize
        } else {
            0
        };
        let mut j: usize = l;
        proof {
            lemma_pow0(10);
            assert(dd.subrange(l as int, l as int) =~= Seq::<char>::empty());
            assert(digits_value(Seq::<char>::empty()) == 0);
            assert(m * 0 == 0);
            assert(0int / pow10(0) == 0);
        }
        while j > s
            invariant
                s <= j <= l == dd.len(),
                dd == d@,
                all_digits(dd),
                m == 2 * num,
                1 <= num <= 1125899906842624,
                t as int == (m * digits_value(dd.subrange(j as int, l as int))) / pow10(
                    (l - j) as nat,
                ),
                t < m,
            decreases j,
        {
            j = j - 1;
            let c = d[j];
            let dv = digit_of(c);
            proof {
                let y = dd.subrange(j + 1, l as int);
                assert(dd.subrange(j as int, l as int) =~= seq![c] + y);
                lemma_digits_concat(seq![c], y);
                assert(digits_value(seq![c]) == digit_value(c)) by {
                    assert(seq![c].drop_last() =~= Seq::<char>::empty());
                    assert(seq![c].last() == c);
                    assert(digits_value(Seq::<char>::empty()) == 0);
                }
                lemma_frac_step(m as int, dv as int, digits_value(y) as int, (l - j - 1) as nat);
                assert((l - j - 1) as nat + 1 == (l - j) as nat);
                assert(all_digits(dd.subrange(j as int, l as int))) by {
                    assert forall|i: int| 0 <= i < l - j implies is_digit(
                        dd.subrange(j as int, l as int)[i],
                    ) by {
                        assert(dd.subrange(j as int, l as int)[i] == dd[j + i]);
                    }
                }
                lemma_digits_bound(dd.subrange(j as int, l as int));
                lemma_pow10_pos((l - j) as nat);
                let r = digits_value(dd.subrange(j as int, l as int)) as int;
                let q = pow10((l - j) as nat);
                assert(m * r < q * m) by (nonlinear_arith)
                    requires
                        0 <= r < q,
                        m > 0,
                ;
                assert(m * r >= 0) by (nonlinear_arith)
                    requires
                        0 <= r,
                        m > 0,
                ;
                lemma_multiply_divide_lt(m * r, q, m as int);
                assert(m * dv + t <= 10 * m);
            }
            t = (m * dv + t) / 10;
        }
        if p < 0 {
            let z: u64 = if p < -20 {
                20
            } else {
                (-p) as u64
            };
            let mut k: u64 = 0;
            let ghost y = dd.subrange(0, l as int);
            let ghost x = m * digits_value(y);
            proof {
                assert(x >= 0) by (nonlinear_arith)
                    requires
                        x == m * digits_value(y),
                        m >= 0,
                ;
            }
            while k < z
                invariant
                    k <= z <= 20,
                    x >= 0,
                    t as int == x / pow10((l + k) as nat),
                decreases z - k,
            {
                proof {
                    lemma_pow10_pos((l + k) as nat);
                    lemma_div_denominator(x, pow10((l + k) as nat), 10);
                    lemma_pow10_succ((l + k) as nat);
                    assert(pow10((l + k) as nat) * 10 == pow10((l + k + 1) as nat));
                }
                t = t / 10;
                k = k + 1;
            }
            proof {
                if p < -20 {
                    assert(all_digits(y)) by {
                        assert(y =~= dd);
                    }
                    lemma_frac_small(m as int, y, (l + 20) as nat);
                    lemma_frac_small(m as int, y, (l - p) as nat);
                }
            }
        }
    }
    proof {
        lemma_frac_floor_nonneg(dd, p as int, 2 * num);
    }
    if ip >= INT_CAP {
        proof {
            lemma_big_int_part_saturates(
                int_part(dd, p as int),
                frac_floor(dd, p as int, 2 * num),
                num as int,
                den as int,
            );
        }
        return u64::MAX;
    }
    assert(2 * ip * num <= 2 * INT_CAP * 1125899906842624) by (nonlinear_arith)
        requires
            ip < INT_CAP,
            num <= 1125899906842624,
    ;
    let total: u128 = 2 * ip * (num as u128) + (t as u128) + (den as u128);
    let q: u128 = total / (2 * den as u128);
    if q > u64::MAX as u128 {
        u64::MAX
    } else {
        q as u64
    }
}

/// A decimal literal scaled by `num / den`, rounded and saturated.
pub fn parse_scaled(t: &[char], num: u64, den: u64) -> (r: Option<u64>)
    requires
        1 <= num <= 1125899906842624,
        1 <= den <= 1000,
    ensures
        r == parse_scaled_spec(t@, num as nat, den as nat),
{
    let mut start: usize = 0;
    let mut neg = false;
    if t.len() > 0 && (t[0] == '+' || t[0] == '-') {
        neg = t[0] == '-';
        start = 1;
    }
    let b = slice_chars(t, start, t.len());
    assert(b@ =~= sign_split(t@).1);
    assert(neg == sign_split(t@).0);
    let inf_lower: [char; 3] = ['i', 'n', 'f'];
    let inf_upper: [char; 3] = ['I', 'N', 'F'];
    let infinity_lower: [char; 8] = ['i', 'n', 'f', 'i', 'n', 'i', 't', 'y'];
    let infinity_upper: [char; 8] = ['I', 'N', 'F', 'I', 'N', 'I', 'T', 'Y'];
    let nan_lower: [char; 3] = ['n', 'a', 'n'];
    let nan_upper: [char; 3] = ['N', 'A', 'N'];
    assert(inf_lower@ == seq!['i', 'n', 'f']);
    assert(inf_upper@ == seq!['I', 'N', 'F']);
    assert(infinity_lower@ == seq!['i', 'n', 'f', 'i', 'n', 'i', 't', 'y']);
    assert(infinity_upper@ == seq!['I', 'N', 'F', 'I', 'N', 'I', 'T', 'Y']);
    assert(nan_lower@ == seq!['n', 'a', 'n']);
    assert(nan_upper@ == seq!['N', 'A', 'N']);
    if eq_ignore_case_exec(&b, &inf_lower, &inf_upper) || eq_ignore_case_exec(
        &b,
        &infinity_lower,
        &infinity_upper,
    ) {
        return Some(
            if neg {
                0
            } else {
                u64::MAX
            },
        );
    }
    if eq_ignore_case_exec(&b, &nan_lower, &nan_upper) {
        return Some(0);
    }
    match decimal_parts(&b) {
        None => None,
        Some((d, il, e)) => {
            if neg {
                return Some(0);
            }
            let ghost lit = decimal_literal(b@)->0;
            let dl = d.len();
            assert(all_digits(d@)) by {
                let ei = exp_mark(b@, 0);
                lemma_exp_mark(b@, 0);
                let mant = b@.subrange(0, ei);
                let di = dot_mark(mant, 0);
                lemma_dot_mark(mant, 0);
                let ip = mant.subrange(0, di);
                let fp = if di < mant.len() {
                    mant.subrange(di + 1, mant.len() as int)
                } else {
                    Seq::<char>::empty()
                };
                assert forall|i: int| 0 <= i < d@.len() implies is_digit(d@[i]) by {
                    if i < ip.len() {
                        assert(d@[i] == ip[i]);
                    } else {
                        assert(d@[i] == fp[i - ip.len()]);
                    }
                }
            }
            let p: i128 = il as i128 + e;
            let r = eval_parts(&d, p, num, den);
            proof {
                lemma_clamp_exp_sound(d@, il as int, lit.exp, num as int, den as int);
                lemma_round_by_parts(d@, il + lit.exp, num as int, den as int);
                assert(lit.exp - (lit.digits.len() - lit.int_len) == (il + lit.exp) - d@.len());
            }
            Some(r)
        },
    }
}

// ---------------------------------------------------------------------------
// Quantities
// ---------------------------------------------------------------------------

/// What `parse_cpu_millis` returns: a trailing `m` means an integer count of
/// millicores; otherwise the quantity is a number of cores.
pub open spec fn cpu_millis_spec(q: Seq<char>) -> Option<u64> {
    let t = trim(q);
    if t.len() > 0 && t.last() == 'm' {
        parse_u64_spec(t.drop_last())
    } else {
        parse_scaled_spec(t, 1000, 1)
    }
}

/// The unit suffix of a memory quantity, tried in this order:
/// `(suffix length, numerator, denominator)` of the factor.
pub open spec fn mem_unit(t: Seq<char>) -> Option<(nat, nat, nat)> {
    if seq!['K', 'i'].is_suffix_of(t) {
        Some((2, 1024, 1))
    } else if seq!['M', 'i'].is_suffix_of(t) {
        Some((2, 1048576, 1))
    } else if seq!['G', 'i'].is_suffix_of(t) {
        Some((2, 1073741824, 1))
    } else if seq!['T', 'i'].is_suffix_of(t) {
        Some((2, 1099511627776, 1))
    } else if seq!['P', 'i'].is_suffix_of(t) {
        Some((2, 1125899906842624, 1))
    } else if seq!['k'].is_suffix_of(t) {
        Some((1, 1000, 1))
    } else if seq!['M'].is_suffix_of(t) {
        Some((1, 1000000, 1))
    } else if seq!['G'].is_suffix_of(t) {
        Some((1, 1000000000, 1))
    } else if seq!['T'].is_suffix_of(t) {
        Some((1, 1000000000000, 1))
    } else if seq!['P'].is_suffix_of(t) {
        Some((1, 1000000000000000, 1))
    } else if seq!['m'].is_suffix_of(t) {
        Some((1, 1, 1000))
    } else {
        None
    }
}

/// What `parse_mem_bytes` returns: the number before the first matching unit
/// suffix, scaled by the unit; a bare number is a count of bytes.
pub open spec fn mem_bytes_spec(q: Seq<char>) -> Option<u64> {
    let t = trim(q);
    match mem_unit(t) {
        Some((k, num, den)) => parse_scaled_spec(t.subrange(0, t.len() - k), num, den),
        None => parse_scaled_spec(t, 1, 1),
    }
}

/// Parses a CPU quantity into millicores.
pub fn parse_cpu_millis(q: &str) -> (r: Option<u64>)
    ensures
        r == cpu_millis_spec(q@),
{
    let raw = chars_of(q);
    let t = trim_chars(&raw);
    if t.len() > 0 && t[t.len() - 1] == 'm' {
        let body = slice_chars(&t, 0, t.len() - 1);
        assert(body@ =~= t@.drop_last());
        return parse_u64(&body);
    }
    parse_scaled(&t, 1000, 1)
}

/// The unit of a memory quantity, in the order `parse_mem_bytes` tries them.
fn mem_unit_exec(t: &[char]) -> (r: Option<(usize, u64, u64)>)
    ensures
        match mem_unit(t@) {
            Some((k, num, den)) => r == Some((k as usize, num as u64, den as u64)),
            None => r is None,
        },
{
    let ki: [char; 2] = ['K', 'i'];
    let mi: [char; 2] = ['M', 'i'];
    let gi: [char; 2] = ['G', 'i'];
    let ti: [char; 2] = ['T', 'i'];
    let pi: [char; 2] = ['P', 'i'];
    let k: [char; 1] = ['k'];
    let mm: [char; 1] = ['M'];
    let g: [char; 1] = ['G'];
    let tt: [char; 1] = ['T'];
    let pp: [char; 1] = ['P'];
    let milli: [char; 1] = ['m'];
    assert(ki@ == seq!['K', 'i']);
    assert(mi@ == seq!['M', 'i']);
    assert(gi@ == seq!['G', 'i']);
    assert(ti@ == seq!['T', 'i']);
    assert(pi@ == seq!['P', 'i']);
    assert(k@ == seq!['k']);
    assert(mm@ == seq!['M']);
    assert(g@ == seq!['G']);
    assert(tt@ == seq!['T']);
    assert(pp@ == seq!['P']);
    assert(milli@ == seq!['m']);
    if ends_with(t, &ki) {
        Some((2, 1024, 1))
    } else if ends_with(t, &mi) {
        Some((2, 1048576, 1))
    } else if ends_with(t, &gi) {
        Some((2, 1073741824, 1))
    } else if ends_with(t, &ti) {
        Some((2, 1099511627776, 1))
    } else if ends_with(t, &pi) {
        Some((2, 1125899906842624, 1))
    } else if ends_with(t, &k) {
        Some((1, 1000, 1))
    } else if ends_with(t, &mm) {
        Some((1, 1000000, 1))
    } else if ends_with(t, &g) {
        Some((1, 1000000000, 1))
    } else if ends_with(t, &tt) {
        Some((1, 1000000000000, 1))
    } else if ends_with(t, &pp) {
        Some((1, 1000000000000000, 1))
    } else if ends_with(t, &milli) {
        Some((1, 1, 1000))
    } else {
        None
    }
}

/// Parses a memory quantity into bytes.
pub fn parse_mem_bytes(q: &str) -> (r: Option<u64>)
    ensures
        r == mem_bytes_spec(q@),
{
    let raw = chars_of(q);
    let t = trim_chars(&raw);
    match mem_unit_exec(&t) {
        Some((k, num, den)) => {
            let body = slice_chars(&t, 0, t.len() - k);
            parse_scaled(&body, num, den)
        },
        None => parse_scaled(&t, 1, 1),
    }
}

// ---------------------------------------------------------------------------
// Laws of quantities
// ---------------------------------------------------------------------------

proof fn lemma_marks_of_digits(s: Seq<char>, i: int)
    requires
        all_digits(s),
        0 <= i <= s.len(),
    ensures
        exp_mark(s, i) == s.len(),
        dot_mark(s, i) == s.len(),
    decreases s.len() - i,
{
    if i < s.len() {
        assert(is_digit(s[i]));
        lemma_marks_of_digits(s, i + 1);
    }
}

/// A plain numeral `n` scaled by a whole factor `num` is `n * num`, saturated.
pub proof fn lemma_parse_scaled_numeral(n: nat, num: nat)
    ensures
        parse_scaled_spec(decimal(n), num, 1) == Some(saturate((n * num) as int)),
{
    let d = decimal(n);
    lemma_decimal_numeral(n);
    assert(is_digit(d[0]));
    assert(sign_split(d) == (false, d));
    assert(!eq_ignore_case(d, seq!['i', 'n', 'f'], seq!['I', 'N', 'F']));
    assert(!eq_ignore_case(
        d,
        seq!['i', 'n', 'f', 'i', 'n', 'i', 't', 'y'],
        seq!['I', 'N', 'F', 'I', 'N', 'I', 'T', 'Y'],
    ));
    assert(!eq_ignore_case(d, seq!['n', 'a', 'n'], seq!['N', 'A', 'N']));
    lemma_marks_of_digits(d, 0);
    assert(d.subrange(0, d.len() as int) =~= d);
    assert(d + Seq::<char>::empty() =~= d);
    assert(all_digits(Seq::<char>::empty()));
    let lit = DecimalLit { digits: d, int_len: d.len(), exp: 0 };
    assert(decimal_literal(d) == Some(lit));
    assert(float_literal(d) == Some(FloatLit::Finite { neg: false, lit }));
    assert(pow10(0) == 1) by {
        reveal(pow);
    }
    assert(round_scaled(n, 0, num, 1) == n * num) by (nonlinear_arith)
        requires
            pow10(0) == 1,
            round_scaled(n, 0, num, 1) == (2 * n * num * pow10(0) + 1 * pow10(0)) / (2 * 1 * pow10(
                0,
            )),
    ;
}

/// CPU quantities: `n` with the suffix `m` is `n` millicores; a whole number
/// `n` of cores (up to 2^53 millicores, where a float holds it exactly) is
/// `n * 1000` millicores, as is `n * 1000` with the suffix `m`. Whitespace
/// around a quantity is ignored, and a text ending in `m` whose rest is not
/// an unsigned integer is refused.
pub proof fn law_cpu_quantities(n: u64, w1: Seq<char>, q: Seq<char>, w2: Seq<char>)
    requires
        all_whitespace(w1),
        all_whitespace(w2),
    ensures
        cpu_millis_spec(decimal(n as nat) + seq!['m']) == Some(n),
        n * 1000 <= 0x20000000000000 ==> cpu_millis_spec(decimal(n as nat)) == Some(
            (n * 1000) as u64,
        ) && cpu_millis_spec(decimal((n * 1000) as nat) + seq!['m']) == Some((n * 1000) as u64),
        cpu_millis_spec(w1 + q + w2) == cpu_millis_spec(q),
        trim(q).len() > 0 && trim(q).last() == 'm' && parse_u64_spec(trim(q).drop_last()) is None
            ==> cpu_millis_spec(q) is None,
{
    lemma_trim_surrounding(w1, q, w2);
    lemma_cpu_millis_suffixed(n);
    if n * 1000 <= 0x20000000000000 {
        let m = (n * 1000) as u64;
        lemma_cpu_millis_suffixed(m);
        let d = decimal(n as nat);
        lemma_decimal_numeral(n as nat);
        assert(is_digit(d[0]) && is_digit(d.last()));
        lemma_trim_solid(d);
        lemma_parse_scaled_numeral(n as nat, 1000);
    }
}

proof fn lemma_cpu_millis_suffixed(n: u64)
    ensures
        cpu_millis_spec(decimal(n as nat) + seq!['m']) == Some(n),
{
    let d = decimal(n as nat);
    let t = d + seq!['m'];
    lemma_decimal_numeral(n as nat);
    assert(t[0] == d[0] && is_digit(d[0]));
    assert(t.last() == 'm');
    lemma_trim_solid(t);
    assert(t.drop_last() =~= d);
    lemma_parse_u64_decimal(n);
}

/// The unit suffixes of memory quantities with their whole factors.
pub open spec fn mem_suffix(i: int) -> (Seq<char>, nat) {
    if i == 0 {
        (seq!['K', 'i'], 1024)
    } else if i == 1 {
        (seq!['M', 'i'], 1048576)
    } else if i == 2 {
        (seq!['G', 'i'], 1073741824)
    } else if i == 3 {
        (seq!['T', 'i'], 1099511627776)
    } else if i == 4 {
        (seq!['P', 'i'], 1125899906842624)
    } else if i == 5 {
        (seq!['k'], 1000)
    } else if i == 6 {
        (seq!['M'], 1000000)
    } else if i == 7 {
        (seq!['G'], 1000000000)
    } else if i == 8 {
        (seq!['T'], 1000000000000)
    } else {
        (seq!['P'], 1000000000000000)
    }
}

proof fn lemma_mem_unit_of(d: Seq<char>, i: int)
    requires
        d.len() > 0,
        all_digits(d),
        0 <= i < 10,
    ensures
        mem_unit(d + mem_suffix(i).0) == Some((mem_suffix(i).0.len(), mem_suffix(i).1, 1nat)),
{
    let x = mem_suffix(i).0;
    let t = d + x;
    assert(is_digit(d.last()));
    assert(t[d.len() - 1] == d.last());
    assert(t.last() == x.last());
    if x.len() == 2 {
        assert(t[t.len() - 2] == x[0]);
    }
    assert(t.subrange(t.len() - x.len(), t.len() as int) =~= x);
}

proof fn lemma_mem_unit_of_numeral(d: Seq<char>)
    requires
        d.len() > 0,
        all_digits(d),
    ensures
        mem_unit(d) is None,
{
    assert(is_digit(d.last()));
    lemma_not_suffix(seq!['K', 'i'], d);
    lemma_not_suffix(seq!['M', 'i'], d);
    lemma_not_suffix(seq!['G', 'i'], d);
    lemma_not_suffix(seq!['T', 'i'], d);
    lemma_not_suffix(seq!['P', 'i'], d);
    lemma_not_suffix(seq!['k'], d);
    lemma_not_suffix(seq!['M'], d);
    lemma_not_suffix(seq!['G'], d);
    lemma_not_suffix(seq!['T'], d);
    lemma_not_suffix(seq!['P'], d);
    lemma_not_suffix(seq!['m'], d);
}

proof fn lemma_not_suffix(x: Seq<char>, t: Seq<char>)
    requires
        x.len() > 0,
        t.len() > 0,
        x.last() != t.last(),
    ensures
        !x.is_suffix_of(t),
{
    if x.is_suffix_of(t) {
        assert(t.subrange(t.len() - x.len(), t.len() as int)[x.len() - 1] == t.last());
    }
}

/// Memory quantities: a whole number `n` with a binary (`Ki` .. `Pi`) or
/// decimal (`k` .. `P`) unit is `n` times the unit, and the same as the
/// plain number of bytes (up to 2^53 bytes, where a float holds it exactly).
/// Whitespace around a quantity is ignored, and a quantity whose number
/// (before the first matching unit, or the whole text) is not a decimal
/// literal is refused.
pub proof fn law_mem_quantities(n: u64, i: int, w1: Seq<char>, q: Seq<char>, w2: Seq<char>)
    requires
        0 <= i < 10,
        all_whitespace(w1),
        all_whitespace(w2),
    ensures
        n * mem_suffix(i).1 <= 0x20000000000000 ==> mem_bytes_spec(
            decimal(n as nat) + mem_suffix(i).0,
        ) == Some((n * mem_suffix(i).1) as u64) && mem_bytes_spec(
            decimal((n * mem_suffix(i).1) as nat),
        ) == Some((n * mem_suffix(i).1) as u64),
        mem_bytes_spec(w1 + q + w2) == mem_bytes_spec(q),
        match mem_unit(trim(q)) {
            Some((k, _, _)) => float_literal(trim(q).subrange(0, trim(q).len() - k)) is None
                ==> mem_bytes_spec(q) is None,
            None => float_literal(trim(q)) is None ==> mem_bytes_spec(q) is None,
        },
{
    lemma_trim_surrounding(w1, q, w2);
    let f = mem_suffix(i).1;
    if n * f <= 0x20000000000000 {
        let x = mem_suffix(i).0;
        let d = decimal(n as nat);
        let t = d + x;
        lemma_decimal_numeral(n as nat);
        assert(is_digit(d[0]));
        assert(t[0] == d[0]);
        assert(x.last() != ' ' && !is_whitespace(x.last()));
        assert(t.last() == x.last());
        lemma_trim_solid(t);
        lemma_mem_unit_of(d, i);
        assert(t.subrange(0, t.len() - x.len()) =~= d);
        lemma_parse_scaled_numeral(n as nat, f);
        let m = (n * f) as nat;
        let e = decimal(m);
        lemma_decimal_numeral(m);
        assert(is_digit(e[0]) && is_digit(e.last()));
        lemma_trim_solid(e);
        lemma_mem_unit_of_numeral(e);
        lemma_parse_scaled_numeral(m, 1);
    }
}

} // verus!
