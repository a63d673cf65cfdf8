//! Greatest common divisor, used to keep rational results in lowest terms.

use vstd::prelude::*;
use vstd::arithmetic::div_mod::{lemma_fundamental_div_mod, lemma_div_multiples_vanish};

verus! {

/// Euclid's greatest common divisor.
pub open spec fn gcd(a: nat, b: nat) -> nat
    decreases b,
{
    if b == 0 {
        a
    } else {
        gcd(b, a % b)
    }
}

/// `d` divides `a` exactly.
pub open spec fn divides(d: int, a: int) -> bool {
    exists|k: int| a == #[trigger] (k * d)
}

/// The gcd of two naturals divides both of them.
pub proof fn lemma_gcd_divides(a: nat, b: nat)
    ensures
        divides(gcd(a, b) as int, a as int),
        divides(gcd(a, b) as int, b as int),
    decreases b,
{
    if b == 0 {
        assert(a as int == 1 * (a as int));
        assert(0int == 0 * (a as int));
    } else {
        lemma_gcd_divides(b, a % b);
        let g = gcd(b, a % b) as int;
        let k1 = choose|k: int| b as int == #[trigger] (k * g);
        let k2 = choose|k: int| (a % b) as int == #[trigger] (k * g);
        lemma_fundamental_div_mod(a as int, b as int);
        assert(a as int == (b as int) * ((a as int) / (b as int)) + (a as int) % (b as int));
        let q = (a as int) / (b as int);
        assert(a as int == (k1 * g) * q + k2 * g);
        assert((k1 * g) * q + k2 * g == (k1 * q + k2) * g) by (nonlinear_arith);
        assert(a as int == (k1 * q + k2) * g);
    }
}

/// The gcd of two naturals is positive when the second is.
pub proof fn lemma_gcd_pos(a: nat, b: nat)
    requires
        b > 0,
    ensures
        gcd(a, b) > 0,
    decreases b,
{
    if a % b == 0 {
        assert(gcd(a, b) == gcd(b, a % b));
        assert(gcd(b, a % b) == b);
    } else {
        lemma_gcd_pos(b, a % b);
    }
}

/// gcd with 1 on the right is 1.
pub proof fn lemma_gcd_one(a: nat)
    ensures
        gcd(a, 1) == 1,
{
    assert(a % 1 == 0);
    assert(gcd(a, 1) == gcd(1, 0));
}

/// An exact quotient multiplied back gives the dividend.
pub proof fn lemma_exact_div(a: int, d: int)
    requires
        d > 0,
        divides(d, a),
    ensures
        (a / d) * d == a,
{
    let k = choose|k: int| a == #[trigger] (k * d);
    lemma_div_multiples_vanish(k, d);
    assert((d * k) / d == k);
    assert(d * k == k * d) by (nonlinear_arith);
    assert(a / d == k);
}

/// Euclid's algorithm on machine words, matching the specification-level
/// [`gcd`].
pub fn gcd_u128(a: u128, b: u128) -> (g: u128)
    ensures
        g as nat == gcd(a as nat, b as nat),
    decreases b,
{
    if b == 0 {
        a
    } else {
        gcd_u128(b, a % b)
    }
}

} // verus!
