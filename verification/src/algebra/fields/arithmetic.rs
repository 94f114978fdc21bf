//! The extended Euclidean algorithm and what follows from it: greatest common
//! divisors, Bézout coefficients and inverses modulo a number.

use crate::bignum::bigint_add;
use crate::bignum::bigint_div;
use crate::bignum::bigint_eq;
use crate::bignum::bigint_from_biguint;
use crate::bignum::bigint_mul;
use crate::bignum::bigint_rem;
use crate::bignum::bigint_sub;
use crate::bignum::bigint_to_biguint;
use crate::bignum::biguint_clone;
use crate::bignum::biguint_from_u64;
use crate::bignum::int_value;
use crate::bignum::nat_value;
use crate::bignum::trunc_div;
use crate::bignum::trunc_rem;
use num_bigint::BigInt;
use num_bigint::BigUint;
use vstd::arithmetic::div_mod::lemma_fundamental_div_mod;
use vstd::arithmetic::div_mod::lemma_mod_multiples_basic;
use vstd::arithmetic::div_mod::lemma_mod_multiples_vanish;
use vstd::arithmetic::div_mod::lemma_mul_mod_noop_right;
use vstd::arithmetic::div_mod::lemma_small_mod;
use vstd::prelude::*;

verus! {

/// The greatest common divisor, by Euclid's recurrence.
pub open spec fn gcd(a: nat, b: nat) -> nat
    decreases b,
{
    if b == 0 {
        a
    } else {
        gcd(b, a % b)
    }
}

/// The triple that the iteration ends with, started from the remainders
/// `old_r`, `r` and the coefficient pairs `old_s`, `s` and `old_t`, `t`.
pub open spec fn eea_from(old_r: int, r: int, old_s: int, s: int, old_t: int, t: int) -> (
    int,
    int,
    int,
)
    decreases r,
{
    if r <= 0 {
        (old_r, old_s, old_t)
    } else {
        let q = old_r / r;
        eea_from(r, old_r % r, s, old_s - q * s, t, old_t - q * t)
    }
}

/// The result `(g, x, y)` of the extended Euclidean algorithm on `a` and `b`.
pub open spec fn eea(a: nat, b: nat) -> (int, int, int) {
    eea_from(a as int, b as int, 1, 0, 0, 1)
}

/// Computes `(g, x, y)` with `a·x + b·y = g`, where `g` is the greatest common
/// divisor of `a` and `b`.
pub fn extended_euclidean_algorithm(a: BigUint, b: BigUint) -> (res: (BigInt, BigInt, BigInt))
    ensures
        (int_value(res.0), int_value(res.1), int_value(res.2)) == eea(nat_value(a), nat_value(b)),
        int_value(res.0) == gcd(nat_value(a), nat_value(b)),
        nat_value(a) * int_value(res.1) + nat_value(b) * int_value(res.2) == int_value(res.0),
{
    proof {
        lemma_eea_is_gcd(nat_value(a), nat_value(b));
        lemma_eea_bezout(nat_value(a), nat_value(b));
    }
    let zero = bigint_from_biguint(biguint_from_u64(0));
    let mut s = bigint_from_biguint(biguint_from_u64(0));
    let mut t = bigint_from_biguint(biguint_from_u64(1));
    let mut r = bigint_from_biguint(b);
    let mut old_s = bigint_from_biguint(biguint_from_u64(1));
    let mut old_t = bigint_from_biguint(biguint_from_u64(0));
    let mut old_r = bigint_from_biguint(a);
    while !bigint_eq(&r, &zero)
        invariant
            int_value(zero) == 0,
            int_value(old_r) >= 0,
            int_value(r) >= 0,
            eea_from(
                int_value(old_r),
                int_value(r),
                int_value(old_s),
                int_value(s),
                int_value(old_t),
                int_value(t),
            ) == eea(nat_value(a), nat_value(b)),
        decreases int_value(r),
    {
        let quotient = bigint_div(&old_r, &r);
        let next_r = bigint_sub(&old_r, &bigint_mul(&quotient, &r));
        let next_s = bigint_sub(&old_s, &bigint_mul(&quotient, &s));
        let next_t = bigint_sub(&old_t, &bigint_mul(&quotient, &t));
        proof {
            let (x, d) = (int_value(old_r), int_value(r));
            lemma_fundamental_div_mod(x, d);
            assert((x / d) * d == d * (x / d)) by (nonlinear_arith);
        }
        old_r = r;
        r = next_r;
        old_s = s;
        s = next_s;
        old_t = t;
        t = next_t;
    }
    (old_r, old_s, old_t)
}

/// The iteration keeps `a·s + b·t = r` for both rows, so its result satisfies
/// Bézout's identity.
proof fn lemma_eea_from_bezout(
    a: int,
    b: int,
    old_r: int,
    r: int,
    old_s: int,
    s: int,
    old_t: int,
    t: int,
)
    requires
        a * old_s + b * old_t == old_r,
        a * s + b * t == r,
    ensures
        ({
            let (g, x, y) = eea_from(old_r, r, old_s, s, old_t, t);
            a * x + b * y == g
        }),
    decreases r,
{
    if r > 0 {
        let q = old_r / r;
        lemma_fundamental_div_mod(old_r, r);
        assert(a * (old_s - q * s) + b * (old_t - q * t) == old_r - q * r) by (nonlinear_arith)
            requires
                a * old_s + b * old_t == old_r,
                a * s + b * t == r,
        ;
        lemma_eea_from_bezout(a, b, r, old_r % r, s, old_s - q * s, t, old_t - q * t);
    }
}

/// Bézout's identity: the coefficients that the algorithm returns combine `a`
/// and `b` into the first component of its result.
pub proof fn lemma_eea_bezout(a: nat, b: nat)
    ensures
        a * eea(a, b).1 + b * eea(a, b).2 == eea(a, b).0,
{
    lemma_eea_from_bezout(a as int, b as int, a as int, b as int, 1, 0, 0, 1);
}

/// The iteration follows Euclid's recurrence on its remainders, so its result
/// begins with their greatest common divisor.
proof fn lemma_eea_from_is_gcd(old_r: int, r: int, old_s: int, s: int, old_t: int, t: int)
    requires
        old_r >= 0,
        r >= 0,
    ensures
        eea_from(old_r, r, old_s, s, old_t, t).0 == gcd(old_r as nat, r as nat),
    decreases r,
{
    if r > 0 {
        let q = old_r / r;
        lemma_eea_from_is_gcd(r, old_r % r, s, old_s - q * s, t, old_t - q * t);
    }
}

/// The first component of the algorithm's result is the greatest common
/// divisor.
pub proof fn lemma_eea_is_gcd(a: nat, b: nat)
    ensures
        eea(a, b).0 == gcd(a, b),
{
    lemma_eea_from_is_gcd(a as int, b as int, 1, 0, 0, 1);
}

/// With a zero second argument the algorithm stops at once: `eea(a, 0)` is
/// `(a, 1, 0)`.
pub proof fn lemma_eea_zero(a: nat)
    ensures
        eea(a, 0) == (a as int, 1int, 0int),
{
}

/// For every `p` above one, `eea(1, p)` is `(1, 1, 0)`.
pub proof fn lemma_eea_one(p: nat)
    requires
        p > 1,
    ensures
        eea(1, p) == (1int, 1int, 0int),
{
    let p = p as int;
    assert(1int / p == 0 && 1int % p == 1) by (nonlinear_arith)
        requires
            p > 1,
    ;
    assert(eea_from(p, 1, 0, 1, 1, 0) == eea_from(1, 0, 1, 0 - p * 1, 0, 1 - p * 0));
}

/// Whether `p` is a prime number.
pub open spec fn is_prime(p: nat) -> bool {
    &&& p > 1
    &&& forall|d: nat| 1 < d < p ==> #[trigger] (p % d) != 0
}

/// The inverse of `a` modulo `p`: the Bézout coefficient of `a`, reduced into
/// `[0, p)`. It is an inverse where `a` and `p` have no common divisor; see
/// [`lemma_mod_inverse`].
pub open spec fn mod_inverse(a: nat, p: nat) -> nat {
    (eea(a, p).1 % (p as int)) as nat
}

/// A multiple of `d` plus a multiple of `d` is a multiple of `d`.
proof fn lemma_divides_combination(d: int, b: int, q: int, r: int)
    requires
        d > 0,
        b % d == 0,
        r % d == 0,
    ensures
        (b * q + r) % d == 0,
{
    lemma_fundamental_div_mod(b, d);
    lemma_fundamental_div_mod(r, d);
    let (kb, kr) = (b / d, r / d);
    assert(b * q + r == (kb * q + kr) * d) by (nonlinear_arith)
        requires
            b == d * kb,
            r == d * kr,
    ;
    lemma_mod_multiples_basic(kb * q + kr, d);
}

/// The greatest common divisor is positive unless both numbers are zero.
pub proof fn lemma_gcd_positive(a: nat, b: nat)
    requires
        a > 0 || b > 0,
    ensures
        gcd(a, b) > 0,
    decreases b,
{
    if b > 0 {
        lemma_gcd_positive(b, a % b);
    }
}

/// The greatest common divisor divides both numbers.
pub proof fn lemma_gcd_divides(a: nat, b: nat)
    requires
        a > 0 || b > 0,
    ensures
        a % gcd(a, b) == 0,
        b % gcd(a, b) == 0,
    decreases b,
{
    lemma_gcd_positive(a, b);
    if b != 0 {
        lemma_gcd_divides(b, a % b);
        lemma_fundamental_div_mod(a as int, b as int);
        lemma_divides_combination(
            gcd(a, b) as int,
            b as int,
            a as int / b as int,
            a as int % b as int,
        );
    }
}

/// A prime has no divisor in common with a number it does not divide.
pub proof fn lemma_prime_coprime(a: nat, p: nat)
    requires
        is_prime(p),
        a % p != 0,
    ensures
        gcd(a, p) == 1,
{
    lemma_gcd_positive(a, p);
    lemma_gcd_divides(a, p);
    // the divisor `g` of `p` is one or `p`, and `p` does not divide `a`
    let g = gcd(a, p);
    if g > p {
        lemma_small_mod(p, g);
    }
}

/// Where `a` and `p` have no common divisor, `mod_inverse(a, p)` is the
/// inverse of `a` modulo `p`.
pub proof fn lemma_mod_inverse(a: nat, p: nat)
    requires
        p > 1,
        gcd(a, p) == 1,
    ensures
        mod_inverse(a, p) < p,
        (a * mod_inverse(a, p)) % p == 1,
{
    let (g, x, y) = eea(a, p);
    let (a, p) = (a as int, p as int);
    lemma_eea_is_gcd(a as nat, p as nat);
    lemma_eea_bezout(a as nat, p as nat);
    assert(a * x == p * (-y) + 1) by (nonlinear_arith)
        requires
            a * x + p * y == 1,
    ;
    lemma_mod_multiples_vanish(-y, 1, p);
    lemma_small_mod(1, p as nat);
    lemma_mul_mod_noop_right(a, x, p);
}

/// Adding the modulus to a remainder that rounds toward zero, and reducing
/// again, gives the remainder that is never negative.
proof fn lemma_normalized_remainder(x: int, m: int)
    requires
        m > 0,
    ensures
        trunc_rem(x, m) + m >= 0,
        trunc_rem(trunc_rem(x, m) + m, m) == x % m,
{
    let q = trunc_div(x, m);
    let y = trunc_rem(x, m) + m;
    if x >= 0 {
        lemma_fundamental_div_mod(x, m);
    } else {
        let k = (-x) / m;
        lemma_fundamental_div_mod(-x, m);
        assert(m * (-k) == -(m * k)) by (nonlinear_arith);
    }
    assert(y == m * (1 - q) + x) by (nonlinear_arith)
        requires
            y == x - m * q + m,
    ;
    lemma_mod_multiples_vanish(1 - q, x, m);
    lemma_fundamental_div_mod(y, m);
}

/// The inverse of `a` modulo `p`, from the Bézout coefficient of `a`: the
/// coefficient may be negative, so the modulus is added to its remainder
/// before the last reduction.
pub fn modular_inverse(a: BigUint, p: BigUint) -> (inv: BigUint)
    requires
        nat_value(p) > 0,
    ensures
        nat_value(inv) == mod_inverse(nat_value(a), nat_value(p)),
        nat_value(inv) < nat_value(p),
{
    let m = bigint_from_biguint(biguint_clone(&p));
    let (_g, x, _y) = extended_euclidean_algorithm(a, p);
    proof {
        lemma_normalized_remainder(int_value(x), int_value(m));
    }
    let shifted = bigint_add(&bigint_rem(&x, &m), &m);
    bigint_to_biguint(bigint_rem(&shifted, &m))
}

} // verus!
