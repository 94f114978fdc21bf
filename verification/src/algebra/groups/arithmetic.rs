//! Algorithms on group elements: multiplication by a number through
//! doubling and adding, and the addition law of a curve in Weierstrass form.

use crate::algebra::fields::prime::field_add;
use crate::algebra::fields::prime::field_div;
use crate::algebra::fields::prime::field_mul;
use crate::algebra::fields::prime::field_sub;
use crate::algebra::fields::prime::lemma_add_associative;
use crate::algebra::fields::prime::FromBigUint;
use crate::algebra::fields::prime::PrimeField;
use crate::algebra::traits::Monoid;
use crate::algebra::traits::Semigroup;
use crate::bignum::biguint_bitand;
use crate::bignum::biguint_eq;
use crate::bignum::biguint_from_u64;
use crate::bignum::biguint_shr;
use crate::bignum::nat_value;
use num_bigint::BigUint;
use vstd::arithmetic::power2::lemma2_to64;
use vstd::prelude::*;

verus! {

/// The binary digits of `n`, least significant first, without leading zeros.
pub open spec fn binary_digits(n: nat) -> Seq<nat>
    decreases n,
{
    if n == 0 {
        Seq::empty()
    } else {
        seq![n % 2] + binary_digits(n / 2)
    }
}

/// The values of a sequence of numbers.
pub open spec fn values(numbers: Seq<BigUint>) -> Seq<nat> {
    numbers.map_values(|b: BigUint| nat_value(b))
}

/// What doubling and adding leaves in `result` once the binary digits of
/// `times` are used up, least significant first: for each digit one, the
/// addend is added to the result; after each digit, the addend is doubled.
pub open spec fn double_and_add<T: Semigroup>(times: nat, addend: T::V, result: T::V) -> T::V
    decreases times,
{
    if times == 0 {
        result
    } else {
        let next = if times % 2 == 1 {
            T::plus(addend, result)
        } else {
            result
        };
        double_and_add::<T>(times / 2, T::plus(addend, addend), next)
    }
}

/// The binary digits of `n`, least significant first.
pub fn bits(n: BigUint) -> (ret: Vec<BigUint>)
    ensures
        values(ret@) == binary_digits(nat_value(n)),
{
    let zero = biguint_from_u64(0);
    let one = biguint_from_u64(1);
    let ghost whole = nat_value(n);
    let mut n = n;
    let mut ret = Vec::<BigUint>::new();
    while !biguint_eq(&n, &zero)
        invariant
            nat_value(zero) == 0,
            nat_value(one) == 1,
            values(ret@) + binary_digits(nat_value(n)) == binary_digits(whole),
        decreases nat_value(n),
    {
        let digit = biguint_bitand(&n, &one);
        let half = biguint_shr(&n, 1);
        proof {
            lemma2_to64();
            assert(values(ret@).push(nat_value(digit)) + binary_digits(nat_value(half)) == values(
                ret@,
            ) + binary_digits(nat_value(n)));
        }
        ret.push(digit);
        n = half;
    }
    ret
}

/// Multiplies `x` by `times` by doubling and adding, starting from `init`:
/// the binary digits of `times` are taken from the least significant up; for
/// each digit one the addend is added to the result, and after each digit
/// the addend is doubled. With `times` zero the result is `init`. Where the
/// addition is associative the result is `x` added `times` times to `init`
/// ([`lemma_double_and_add_is_repeated_addition`]).
pub fn double_and_add_algorithm<T: Semigroup>(times: BigUint, x: T, init: T) -> (sum: T)
    ensures
        sum@ == double_and_add::<T>(nat_value(times), x@, init@),
{
    let one = biguint_from_u64(1);
    let ghost target = double_and_add::<T>(nat_value(times), x@, init@);
    let ghost mut rest = nat_value(times);
    let digits = bits(times);
    let mut result = init;
    let mut added = x;
    let mut i: usize = 0;
    while i < digits.len()
        invariant
            i <= digits.len(),
            nat_value(one) == 1,
            values(digits@).skip(i as int) == binary_digits(rest),
            double_and_add::<T>(rest, added@, result@) == target,
        decreases digits.len() - i,
    {
        proof {
            assert(values(digits@).skip(i as int)[0] == nat_value(digits@[i as int]));
            assert(values(digits@).skip(i as int + 1) == values(digits@).skip(i as int).skip(1));
        }
        if biguint_eq(&digits[i], &one) {
            let addend = added.clone();
            let ghost before = result;
            proof {
                T::lemma_clone_keeps_view(&added, &addend);
                T::lemma_add_defined(addend, result);
            }
            result = addend + result;
            proof {
                T::lemma_add(addend, before, result);
            }
        }
        let addend = added.clone();
        let ghost before = added;
        proof {
            T::lemma_clone_keeps_view(&added, &addend);
            T::lemma_add_defined(addend, added);
        }
        added = addend + added;
        proof {
            T::lemma_add(addend, before, added);
            rest = rest / 2;
        }
        i += 1;
    }
    result
}

/// With `times` zero nothing is added: the result is `init`.
pub proof fn lemma_double_and_add_zero<T: Semigroup>(x: T::V, init: T::V)
    ensures
        double_and_add::<T>(0, x, init) == init,
{
}

/// With `times` two the result is the double of `x`, added to `init`.
pub proof fn lemma_double_and_add_two<T: Semigroup>(x: T::V, init: T::V)
    ensures
        double_and_add::<T>(2, x, init) == T::plus(T::plus(x, x), init),
{
    reveal_with_fuel(double_and_add, 3);
}

/// `x` added `times` times to `init`, one addition after the other.
pub open spec fn repeated_addition<T: Semigroup>(times: nat, x: T::V, init: T::V) -> T::V
    decreases times,
{
    if times == 0 {
        init
    } else {
        T::plus(x, repeated_addition::<T>((times - 1) as nat, x, init))
    }
}

/// Whether the addition of `T` is associative.
pub open spec fn associative<T: Semigroup>() -> bool {
    forall|a: T::V, b: T::V, c: T::V| #[trigger]
        T::plus(T::plus(a, b), c) == T::plus(a, #[trigger] T::plus(b, c))
}

/// Adding `x` before the repeated additions is the same as adding it after
/// them.
proof fn lemma_repeated_addition_shift<T: Semigroup>(times: nat, x: T::V, init: T::V)
    ensures
        repeated_addition::<T>(times, x, T::plus(x, init)) == T::plus(
            x,
            repeated_addition::<T>(times, x, init),
        ),
    decreases times,
{
    if times > 0 {
        lemma_repeated_addition_shift::<T>((times - 1) as nat, x, init);
    }
}

/// Adding the double of `x` is the same as adding `x` twice as often.
proof fn lemma_repeated_addition_double<T: Semigroup>(times: nat, x: T::V, init: T::V)
    requires
        associative::<T>(),
    ensures
        repeated_addition::<T>(times, T::plus(x, x), init) == repeated_addition::<T>(
            2 * times,
            x,
            init,
        ),
    decreases times,
{
    if times > 0 {
        let fewer = (times - 1) as nat;
        lemma_repeated_addition_double::<T>(fewer, x, init);
        let rest = repeated_addition::<T>(2 * fewer, x, init);
        assert(repeated_addition::<T>((2 * times - 1) as nat, x, init) == T::plus(x, rest));
    }
}

/// Where the addition is associative, doubling and adding gives what
/// `times` additions of `x` to `init` give.
pub proof fn lemma_double_and_add_is_repeated_addition<T: Semigroup>(
    times: nat,
    x: T::V,
    init: T::V,
)
    requires
        associative::<T>(),
    ensures
        double_and_add::<T>(times, x, init) == repeated_addition::<T>(times, x, init),
    decreases times,
{
    if times > 0 {
        let half = times / 2;
        let next = if times % 2 == 1 {
            T::plus(x, init)
        } else {
            init
        };
        lemma_double_and_add_is_repeated_addition::<T>(half, T::plus(x, x), next);
        lemma_repeated_addition_double::<T>(half, x, next);
        if times % 2 == 1 {
            lemma_repeated_addition_shift::<T>(2 * half, x, init);
        }
    }
}

/// The addition of a prime field is associative, so that doubling and adding
/// in a field is repeated addition.
pub proof fn lemma_field_addition_associative<T: FromBigUint>()
    ensures
        associative::<PrimeField<T>>(),
{
    T::lemma_prime_above_one();
    assert forall|a: nat, b: nat, c: nat| #[trigger]
        field_add(T::prime_spec(), field_add(T::prime_spec(), a, b), c) == field_add(
            T::prime_spec(),
            a,
            #[trigger] field_add(T::prime_spec(), b, c),
        ) by {
        lemma_add_associative(T::prime_spec(), a, b, c);
    }
}

/// The denominator of the tangent's slope at `(u, v)`: `2v + a1·u + a3`. The
/// tangent is vertical where it is zero.
pub open spec fn tangent_denominator(p: nat, u: nat, v: nat, a1: nat, a3: nat) -> nat {
    field_add(p, field_add(p, field_mul(p, v, 2), field_mul(p, u, a1)), a3)
}

/// The slope of the tangent at `(u, v)`:
/// `(3u² + 2·a2·u − a1·v + a4) / (2v + a1·u + a3)`.
pub open spec fn tangent_slope(p: nat, u: nat, v: nat, a1: nat, a2: nat, a3: nat, a4: nat) -> nat {
    let squares = field_mul(p, field_mul(p, u, u), 3);
    let linear = field_mul(p, field_mul(p, u, a2), 2);
    let numerator = field_add(
        p,
        field_sub(p, field_add(p, squares, linear), field_mul(p, v, a1)),
        a4,
    );
    field_div(p, numerator, tangent_denominator(p, u, v, a1, a3))
}

/// The slope of the chord through `(u1, v1)` and `(u2, v2)`:
/// `(v1 − v2) / (u1 − u2)`.
pub open spec fn chord_slope(p: nat, u1: nat, v1: nat, u2: nat, v2: nat) -> nat {
    field_div(p, field_sub(p, v1, v2), field_sub(p, u1, u2))
}

/// The second coordinate of the sum, from the slope, the first point and the
/// first coordinate `u3` of the sum: `lam·(u1 − u3) − v1 − a1·u3 − a3`.
pub open spec fn third_ordinate(
    p: nat,
    lam: nat,
    u1: nat,
    v1: nat,
    u3: nat,
    a1: nat,
    a3: nat,
) -> nat {
    field_sub(
        p,
        field_sub(p, field_sub(p, field_mul(p, lam, field_sub(p, u1, u3)), v1), field_mul(p, a1, u3)),
        a3,
    )
}

/// The sum of `(u1, v1)` and `(u2, v2)` on the curve
/// `v² + a1·u·v + a3·v = u³ + a2·u² + a4·u + a6` over the field of order `p`,
/// with `(0, 0)` standing for the point at infinity.
pub open spec fn short_weierstrass_sum(
    p: nat,
    u1: nat,
    v1: nat,
    u2: nat,
    v2: nat,
    a1: nat,
    a2: nat,
    a3: nat,
    a4: nat,
) -> (nat, nat) {
    if u1 == 0 && v1 == 0 {
        (u2, v2)
    } else if u2 == 0 && v2 == 0 {
        (u1, v1)
    } else if u1 == u2 {
        if v1 != v2 {
            (0, 0)
        } else if tangent_denominator(p, u1, v1, a1, a3) == 0 {
            (0, 0)
        } else {
            let lam = tangent_slope(p, u1, v1, a1, a2, a3, a4);
            let u3 = field_sub(
                p,
                field_sub(p, field_add(p, field_mul(p, lam, lam), field_mul(p, lam, a1)), a2),
                field_mul(p, u2, 2),
            );
            (u3, third_ordinate(p, lam, u1, v1, u3, a1, a3))
        }
    } else {
        let lam = chord_slope(p, u1, v1, u2, v2);
        let u3 = field_sub(
            p,
            field_sub(
                p,
                field_sub(p, field_add(p, field_mul(p, lam, lam), field_mul(p, a1, lam)), a2),
                u1,
            ),
            u2,
        );
        (u3, third_ordinate(p, lam, u1, v1, u3, a1, a3))
    }
}

/// `lam·(u1 − u3) − v1 − a1·u3 − a3`.
fn third_ordinate_of<T: FromBigUint>(
    lam: PrimeField<T>,
    u1: PrimeField<T>,
    v1: PrimeField<T>,
    u3: PrimeField<T>,
    a1: PrimeField<T>,
    a3: PrimeField<T>,
) -> (v3: PrimeField<T>)
    ensures
        v3@ == third_ordinate(T::prime_spec(), lam@, u1@, v1@, u3@, a1@, a3@),
{
    lam * (u1 - u3.clone()) - v1 - a1 * u3 - a3
}

/// Adds two points of a curve in Weierstrass form, the point at infinity
/// written as `(0, 0)`: a point plus infinity is the point; a point plus its
/// mirror image, or a point with a vertical tangent plus itself, is infinity;
/// a point plus itself goes by the tangent, two other points by the chord.
pub fn short_weierstrass_form_curve_op<T: FromBigUint>(
    u1: PrimeField<T>,
    v1: PrimeField<T>,
    u2: PrimeField<T>,
    v2: PrimeField<T>,
    a1: PrimeField<T>,
    a2: PrimeField<T>,
    a3: PrimeField<T>,
    a4: PrimeField<T>,
) -> (sum: (PrimeField<T>, PrimeField<T>))
    ensures
        (sum.0@, sum.1@) == short_weierstrass_sum(
            T::prime_spec(),
            u1@,
            v1@,
            u2@,
            v2@,
            a1@,
            a2@,
            a3@,
            a4@,
        ),
{
    if u1.is_zero() && v1.is_zero() {
        (u2, v2)
    } else if u2.is_zero() && v2.is_zero() {
        (u1, v1)
    } else if u1 == u2 {
        if v1 != v2 {
            (PrimeField::<T>::zero(), PrimeField::<T>::zero())
        } else {
            let two = PrimeField::<T>::from(2u16);
            let three = PrimeField::<T>::from(3u16);
            let denominator = v1.clone() * two.clone() + u1.clone() * a1.clone() + a3.clone();
            if denominator.is_zero() {
                (PrimeField::<T>::zero(), PrimeField::<T>::zero())
            } else {
                let numerator = u1.clone() * u1.clone() * three + u1.clone() * a2.clone()
                    * two.clone() - v1.clone() * a1.clone() + a4;
                let lam = numerator / denominator;
                let u3 = lam.clone() * lam.clone() + lam.clone() * a1.clone() - a2 - u2 * two;
                let v3 = third_ordinate_of(lam, u1, v1, u3.clone(), a1, a3);
                (u3, v3)
            }
        }
    } else {
        let lam = (v1.clone() - v2) / (u1.clone() - u2.clone());
        let u3 = lam.clone() * lam.clone() + a1.clone() * lam.clone() - a2 - u1.clone() - u2;
        let v3 = third_ordinate_of(lam, u1, v1, u3.clone(), a1, a3);
        (u3, v3)
    }
}

} // verus!
