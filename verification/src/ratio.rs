//! Exact rational values.
//!
//! Solutions are reported as rationals in canonical form: the denominator is
//! positive and numerator and denominator share no factor.  Working with exact
//! rationals keeps the consistency checks of the resolver exact, where a
//! floating-point comparison would be fragile; the surrounding code generator
//! converts a canonical rational to the floating-point literal it splices.

use vstd::prelude::*;
use crate::gcd::{gcd, gcd_u128, lemma_gcd_divides, lemma_gcd_pos, lemma_exact_div};
use vstd::arithmetic::div_mod::lemma_div_nonincreasing;

verus! {

/// Absolute value at the specification level.
pub open spec fn abs_int(n: int) -> int {
    if n < 0 {
        -n
    } else {
        n
    }
}

/// The (positive) factor removed when `n / d` is brought to lowest terms.
pub open spec fn common(n: int, d: int) -> int {
    gcd(abs_int(n) as nat, abs_int(d) as nat) as int
}

/// Numerator of `n / d` in canonical form: magnitudes divided by their gcd,
/// the sign of the fraction carried by the numerator.
pub open spec fn canon_num(n: int, d: int) -> int
    recommends
        d != 0,
{
    if (n < 0) == (d < 0) {
        abs_int(n) / common(n, d)
    } else {
        -(abs_int(n) / common(n, d))
    }
}

/// Denominator of `n / d` in canonical form; always positive.
pub open spec fn canon_den(n: int, d: int) -> int
    recommends
        d != 0,
{
    abs_int(d) / common(n, d)
}

/// An exact rational number.
#[derive(Clone, Copy, Debug, PartialEq, Eq, Structural)]
pub struct Ratio {
    /// Numerator; carries the sign of the value.
    pub num: i128,
    /// Denominator; positive for every value built by [`Ratio::new`].
    pub den: i128,
}

impl Ratio {
    /// This value is `n / d` brought to canonical form.
    pub open spec fn is_canon(self, n: int, d: int) -> bool {
        self.num as int == canon_num(n, d) && self.den as int == canon_den(n, d)
    }

    /// Reduce `num / den` to canonical form.
    pub fn new(num: i128, den: i128) -> (r: Ratio)
        requires
            den != 0,
            num != i128::MIN,
            den != i128::MIN,
        ensures
            r.is_canon(num as int, den as int),
    {
        let mag_n: u128 = if num < 0 {
            (-num) as u128
        } else {
            num as u128
        };
        let mag_d: u128 = if den < 0 {
            (-den) as u128
        } else {
            den as u128
        };
        proof {
            lemma_gcd_pos(mag_n as nat, mag_d as nat);
        }
        let g = gcd_u128(mag_n, mag_d);
        proof {
            lemma_div_nonincreasing(mag_n as int, g as int);
            lemma_div_nonincreasing(mag_d as int, g as int);
        }
        let qn = mag_n / g;
        let qd = mag_d / g;
        let signed_num: i128 = if (num < 0) == (den < 0) {
            qn as i128
        } else {
            -(qn as i128)
        };
        Ratio { num: signed_num, den: qd as i128 }
    }
}

/// A value in canonical form stands for exactly the fraction it was reduced
/// from: its denominator is positive and cross-multiplication recovers `n / d`.
pub proof fn lemma_canon_val(n: int, d: int)
    requires
        d != 0,
    ensures
        canon_den(n, d) > 0,
        canon_num(n, d) * d == n * canon_den(n, d),
{
    let g = common(n, d);
    lemma_gcd_pos(abs_int(n) as nat, abs_int(d) as nat);
    lemma_gcd_divides(abs_int(n) as nat, abs_int(d) as nat);
    lemma_exact_div(abs_int(n), g);
    lemma_exact_div(abs_int(d), g);
    let an = abs_int(n) / g;
    let ad = abs_int(d) / g;
    assert(an * g == abs_int(n));
    assert(ad * g == abs_int(d));
    assert(ad > 0) by (nonlinear_arith)
        requires
            ad * g == abs_int(d),
            abs_int(d) > 0,
            g > 0,
    ;
    assert(canon_num(n, d) * d == n * canon_den(n, d)) by (nonlinear_arith)
        requires
            d != 0,
            g > 0,
            an * g == abs_int(n),
            ad * g == abs_int(d),
            abs_int(n) == (if n < 0 { -n } else { n }),
            abs_int(d) == (if d < 0 { -d } else { d }),
            canon_num(n, d) == (if (n < 0) == (d < 0) { an } else { -an }),
            canon_den(n, d) == ad,
    ;
}

} // verus!
