//! Exact ratios of unsigned integers, computed and printed by the `fraction`
//! crate.

use crate::text::{decimal, padded_decimal, pow10};
use fraction::Fraction;
use vstd::arithmetic::div_mod::{
    lemma_div_multiples_vanish, lemma_fundamental_div_mod, lemma_mod_multiples_basic,
    lemma_truncate_middle,
};
use vstd::prelude::*;

verus! {

/// The greatest common divisor of `a` and `b`; `gcd(a, 0)` is `a`.
pub open spec fn gcd(a: nat, b: nat) -> nat
    decreases b,
{
    if b == 0 {
        a
    } else {
        gcd(b, a % b)
    }
}

/// The numerator of `x / y` in lowest terms.
pub open spec fn lowest_numer(x: nat, y: nat) -> nat {
    x / gcd(x, y)
}

/// The denominator of `x / y` in lowest terms.
pub open spec fn lowest_denom(x: nat, y: nat) -> nat {
    y / gcd(x, y)
}

/// A non-negative ratio `numer / denom`.
#[derive(Clone, Copy, Debug, PartialEq, Eq, Structural)]
pub struct Ratio {
    pub numer: u64,
    pub denom: u64,
}

impl Ratio {
    /// `self` is `x / y` written in lowest terms.
    pub open spec fn is_lowest_terms_of(self, x: nat, y: nat) -> bool {
        self.numer == lowest_numer(x, y) && self.denom == lowest_denom(x, y)
    }

    /// The ratio `n / 1`.
    pub fn from_integer(n: u64) -> (r: Ratio)
        ensures
            r.numer == n,
            r.denom == 1,
    {
        Ratio { numer: n, denom: 1 }
    }
}

/// How a ratio is written where a tool expects a rate: the numerator alone
/// for a whole number, else numerator, a slash and the denominator.
pub open spec fn ratio_text(r: Ratio) -> Seq<char> {
    if r.numer == 0 || r.denom == 1 {
        decimal(r.numer as nat)
    } else {
        decimal(r.numer as nat) + seq!['/'] + decimal(r.denom as nat)
    }
}

/// `n / d` as a decimal number with exactly `places` digits behind the point,
/// further digits cut off.
pub open spec fn fixed_point_text(n: nat, d: nat, places: nat) -> Seq<char> {
    decimal(n / d) + seq!['.'] + padded_decimal(((n % d) * pow10(places)) / d, places)
}

/// A common divisor exists and divides both numbers, unless both are zero.
pub proof fn lemma_gcd_divides(a: nat, b: nat)
    ensures
        (a > 0 || b > 0) ==> gcd(a, b) > 0,
        gcd(a, b) > 0 ==> a % gcd(a, b) == 0 && b % gcd(a, b) == 0,
        gcd(a, b) > 0 ==> a == gcd(a, b) * (a / gcd(a, b)) && b == gcd(a, b) * (b / gcd(a, b)),
    decreases b,
{
    if b == 0 {
        if a > 0 {
            assert(a % a == 0 && a / a == 1 && 0nat % a == 0 && 0nat / a == 0) by (nonlinear_arith)
                requires
                    a > 0,
            ;
        }
    } else {
        let r = a % b;
        let g = gcd(b, r);
        lemma_gcd_divides(b, r);
        assert(gcd(a, b) == g);
        let bk = b / g;
        let rk = r / g;
        let q = a / b;
        lemma_fundamental_div_mod(a as int, b as int);
        let k = bk * q + rk;
        assert(a == k * g) by (nonlinear_arith)
            requires
                a == b * q + r,
                b == g * bk,
                r == g * rk,
                k == bk * q + rk,
        ;
        lemma_mod_multiples_basic(k as int, g as int);
        lemma_div_multiples_vanish(k as int, g as int);
        assert(g * k == k * g) by (nonlinear_arith);
    }
}

/// Against one, every number is already in lowest terms.
pub proof fn lemma_gcd_one(a: nat)
    ensures
        gcd(a, 1) == 1,
        lowest_numer(a, 1) == a,
        lowest_denom(a, 1) == 1,
{
    reveal_with_fuel(gcd, 3);
    assert(a % 1 == 0);
}

/// Writing `x / y` in lowest terms keeps its value and makes neither term
/// larger.
pub proof fn lemma_lowest_terms(x: nat, y: nat)
    requires
        y > 0,
    ensures
        lowest_denom(x, y) > 0,
        lowest_numer(x, y) * y == x * lowest_denom(x, y),
        lowest_numer(x, y) <= x,
        lowest_denom(x, y) <= y,
        gcd(x, y) * lowest_numer(x, y) == x,
        gcd(x, y) * lowest_denom(x, y) == y,
{
    lemma_gcd_divides(x, y);
    let g = gcd(x, y);
    let n = x / g;
    let d = y / g;
    assert(d > 0 && n <= x && d <= y && n * y == x * d) by (nonlinear_arith)
        requires
            g > 0,
            y > 0,
            x == g * n,
            y == g * d,
    ;
}

/// Scaling two numbers scales their greatest common divisor alike.
pub proof fn lemma_gcd_scales(g: nat, a: nat, b: nat)
    requires
        g > 0,
    ensures
        gcd(g * a, g * b) == g * gcd(a, b),
    decreases b,
{
    if b == 0 {
        assert(g * b == 0) by (nonlinear_arith)
            requires
                b == 0,
        ;
    } else {
        lemma_truncate_middle(a as int, g as int, b as int);
        lemma_gcd_scales(g, b, a % b);
        assert(g * b > 0);
        assert(gcd(g * a, g * b) == gcd(g * b, (g * a) % (g * b)));
    }
}

/// The terms of a ratio in lowest terms have no common divisor but one.
pub proof fn lemma_lowest_terms_coprime(x: nat, y: nat)
    requires
        y > 0,
    ensures
        gcd(lowest_numer(x, y), lowest_denom(x, y)) == 1,
{
    lemma_lowest_terms(x, y);
    let g = gcd(x, y);
    let n = lowest_numer(x, y);
    let d = lowest_denom(x, y);
    lemma_gcd_scales(g, n, d);
    assert(gcd(n, d) == 1) by (nonlinear_arith)
        requires
            g > 0,
            g == g * gcd(n, d),
    ;
}

/// The product of two ratios, from `fraction`'s `*` on `Fraction`: the
/// crate multiplies numerators and denominators and hands the result back
/// in lowest terms. Neither product may leave `u64`, since the crate
/// multiplies in that type.
#[verifier::external_body]
pub(crate) fn fraction_mul(a: Ratio, b: Ratio) -> (r: Ratio)
    requires
        a.denom > 0,
        b.denom > 0,
        a.numer * b.numer <= u64::MAX,
        a.denom * b.denom <= u64::MAX,
    ensures
        r.is_lowest_terms_of((a.numer * b.numer) as nat, (a.denom * b.denom) as nat),
{
    let p = Fraction::new(a.numer, a.denom) * Fraction::new(b.numer, b.denom);
    Ratio { numer: *p.numer().unwrap(), denom: *p.denom().unwrap() }
}

/// The quotient of two ratios, from `fraction`'s `/` on `Fraction`: the
/// crate multiplies crosswise and hands the result back in lowest terms.
/// The divisor may not be zero (the crate then answers with an infinity
/// or a not-a-number), and neither cross product may leave `u64`.
#[verifier::external_body]
pub(crate) fn fraction_div(a: Ratio, b: Ratio) -> (r: Ratio)
    requires
        a.denom > 0,
        b.denom > 0,
        b.numer > 0,
        a.numer * b.denom <= u64::MAX,
        a.denom * b.numer <= u64::MAX,
    ensures
        r.is_lowest_terms_of((a.numer * b.denom) as nat, (a.denom * b.numer) as nat),
{
    let q = Fraction::new(a.numer, a.denom) / Fraction::new(b.numer, b.denom);
    Ratio { numer: *q.numer().unwrap(), denom: *q.denom().unwrap() }
}

/// A ratio as `fraction` prints it with `{}`: the numerator, and behind a
/// slash the denominator unless the ratio is zero or the denominator one.
/// The terms are printed as given.
#[verifier::external_body]
pub(crate) fn fraction_text(a: Ratio) -> (s: String)
    ensures
        s@ == ratio_text(a),
{
    format!("{}", Fraction::new_raw(a.numer, a.denom))
}

/// A ratio as `fraction` prints it with a precision and the `#` flag:
/// the whole part, a point, and exactly `places` digits of the decimal
/// expansion, cut off and not rounded, zeros included. The denominator is
/// kept small enough that the crate's long division never leaves `u64`.
#[verifier::external_body]
pub(crate) fn fraction_decimal_text(a: Ratio, places: usize) -> (s: String)
    requires
        a.denom > 0,
        a.denom * 10 <= u64::MAX,
        places >= 1,
    ensures
        s@ == fixed_point_text(a.numer as nat, a.denom as nat, places as nat),
{
    format!("{:#.*}", places, Fraction::new_raw(a.numer, a.denom))
}

} // verus!
