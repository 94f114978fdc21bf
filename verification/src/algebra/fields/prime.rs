//! Elements of a prime field.
//!
//! A field is named by an element type: the type fixes the modulus, an
//! element holds a residue. [`PrimeField`] wraps such an element and carries
//! the field operations, each reduced modulo the type's modulus. The view of
//! a [`PrimeField`] is its residue, a natural number.
//!
//! Nothing here checks that the modulus is prime. The operations are defined
//! for every modulus above one; the laws that need a prime say so.

use crate::algebra::fields::arithmetic::extended_euclidean_algorithm;
use crate::algebra::fields::arithmetic::gcd;
use crate::algebra::fields::arithmetic::is_prime;
use crate::algebra::fields::arithmetic::lemma_mod_inverse;
use crate::algebra::fields::arithmetic::lemma_prime_coprime;
use crate::algebra::fields::arithmetic::mod_inverse;
use crate::algebra::fields::arithmetic::modular_inverse;
use crate::algebra::traits::Field;
use crate::algebra::traits::Group;
use crate::algebra::traits::Groupoid;
use crate::algebra::traits::Monoid;
use crate::algebra::traits::MulInv;
use crate::algebra::traits::Ring;
use crate::algebra::traits::Semigroup;
use crate::bignum::bigint_eq;
use crate::bignum::bigint_from_biguint;
use crate::bignum::biguint_add;
use crate::bignum::biguint_eq;
use crate::bignum::biguint_from_decimal;
use crate::bignum::biguint_from_slice;
use crate::bignum::biguint_from_u64;
use crate::bignum::biguint_mul;
use crate::bignum::biguint_rem;
use crate::bignum::biguint_sub;
use crate::bignum::limbs_value;
use crate::bignum::nat_value;
use crate::bignum::parse_decimal;
use num_bigint::BigUint;
use vstd::arithmetic::div_mod::lemma_add_mod_noop;
use vstd::arithmetic::div_mod::lemma_fundamental_div_mod;
use vstd::arithmetic::div_mod::lemma_mod_multiples_basic;
use vstd::arithmetic::div_mod::lemma_mod_self_0;
use vstd::arithmetic::div_mod::lemma_mod_twice;
use vstd::arithmetic::div_mod::lemma_mul_mod_noop_left;
use vstd::arithmetic::div_mod::lemma_mul_mod_noop_right;
use vstd::arithmetic::div_mod::lemma_small_mod;
use vstd::prelude::*;
use vstd::std_specs::cmp::PartialEqSpecImpl;
use vstd::std_specs::convert::FromSpecImpl;
use vstd::std_specs::convert::TryFromSpecImpl;
use vstd::std_specs::ops::AddSpecImpl;
use vstd::std_specs::ops::DivSpecImpl;
use vstd::std_specs::ops::MulSpecImpl;
use vstd::std_specs::ops::NegSpecImpl;
use vstd::std_specs::ops::SubSpecImpl;

verus! {

/// What can go wrong in field arithmetic.
#[derive(Clone, Copy, Debug, PartialEq, Eq, Structural)]
pub enum Error {
    /// A text was not a decimal numeral.
    Parse,
    /// An element without a multiplicative inverse was to be inverted.
    NotInvertible,
}

/// What an element type tells about its field and about itself: the modulus,
/// which belongs to the type, and the residue, which belongs to the element.
pub trait Property: Sized {
    /// The modulus of the field.
    spec fn prime_spec() -> nat;

    /// The residue that the element holds.
    spec fn value_spec(&self) -> nat;

    /// The modulus is above one.
    proof fn lemma_prime_above_one()
        ensures
            Self::prime_spec() > 1,
    ;

    /// The modulus of the field, the same for every element.
    fn prime(&self) -> (p: BigUint)
        ensures
            nat_value(p) == Self::prime_spec(),
    ;

    /// The residue of this element.
    fn value(&self) -> (v: BigUint)
        ensures
            nat_value(v) == self.value_spec(),
    ;
}

/// An element type that can be made from a number. The number is taken as it
/// is, without reduction.
pub trait FromBigUint: Property {
    /// The element with the residue `value`.
    fn from(value: BigUint) -> (element: Self)
        ensures
            element.value_spec() == nat_value(value),
    ;
}

/// The sum of two residues modulo `p`.
pub open spec fn field_add(p: nat, a: nat, b: nat) -> nat {
    (a + b) % p
}

/// The additive inverse of a residue modulo `p`; the inverse of zero is zero.
pub open spec fn field_neg(p: nat, a: nat) -> nat {
    ((p - a % p) % (p as int)) as nat
}

/// The difference of two residues modulo `p`.
pub open spec fn field_sub(p: nat, a: nat, b: nat) -> nat {
    field_add(p, a, field_neg(p, b))
}

/// The product of two residues modulo `p`.
pub open spec fn field_mul(p: nat, a: nat, b: nat) -> nat {
    (a * b) % p
}

/// The multiplicative inverse of a residue modulo `p`, where it has one.
pub open spec fn field_inv(p: nat, a: nat) -> nat {
    mod_inverse(a, p)
}

/// The quotient of two residues modulo `p`.
pub open spec fn field_div(p: nat, a: nat, b: nat) -> nat {
    field_mul(p, a, field_inv(p, b))
}

/// Whether a residue has a multiplicative inverse modulo `p`.
pub open spec fn invertible(p: nat, a: nat) -> bool {
    gcd(a, p) == 1
}

/// An element of the prime field that `T` names.
#[derive(Debug)]
pub struct PrimeField<T: FromBigUint> {
    pub element: T,
}

impl<T: FromBigUint> View for PrimeField<T> {
    type V = nat;

    open spec fn view(&self) -> nat {
        self.element.value_spec()
    }
}

impl<T: FromBigUint> PrimeField<T> {
    /// The modulus of the field.
    pub open spec fn modulus() -> nat {
        T::prime_spec()
    }

    /// Whether the residue lies below the modulus. Every result of an
    /// operation is reduced; an element made from a number is as reduced as
    /// that number.
    pub open spec fn is_reduced(&self) -> bool {
        self@ < T::prime_spec()
    }

    /// The modulus of the field.
    pub fn prime(&self) -> (p: BigUint)
        ensures
            nat_value(p) == Self::modulus(),
    {
        self.element.prime()
    }

    /// The residue of the element.
    pub fn value(&self) -> (v: BigUint)
        ensures
            nat_value(v) == self@,
    {
        self.element.value()
    }

    /// The inverse of the element, or `Error::NotInvertible` where it has
    /// none.
    pub fn checked_mul_inv(self) -> (r: Result<Self, Error>)
        ensures
            match r {
                Ok(inv) => {
                    &&& invertible(Self::modulus(), self@)
                    &&& inv@ == field_inv(Self::modulus(), self@)
                    &&& field_mul(Self::modulus(), self@, inv@) == 1
                },
                Err(e) => !invertible(Self::modulus(), self@) && e == Error::NotInvertible,
            },
    {
        let (g, _x, _y) = extended_euclidean_algorithm(self.element.value(), self.element.prime());
        let one = bigint_from_biguint(biguint_from_u64(1));
        if bigint_eq(&g, &one) {
            Ok(self.mul_inv())
        } else {
            Err(Error::NotInvertible)
        }
    }
}

impl<T: FromBigUint> Clone for PrimeField<T> {
    fn clone(&self) -> (r: Self)
        ensures
            r@ == self@,
    {
        PrimeField { element: T::from(self.element.value()) }
    }
}

impl<T: FromBigUint> PartialEqSpecImpl for PrimeField<T> {
    open spec fn obeys_eq_spec() -> bool {
        true
    }

    open spec fn eq_spec(&self, other: &Self) -> bool {
        self@ == other@
    }
}

impl<T: FromBigUint> PartialEq for PrimeField<T> {
    /// Elements are equal when their residues are.
    fn eq(&self, other: &Self) -> (r: bool) {
        biguint_eq(&self.element.value(), &other.element.value())
    }
}

impl<T: FromBigUint> Eq for PrimeField<T> {

}

// What `add` returns is stated in its own contract, over views.
impl<T: FromBigUint> AddSpecImpl for PrimeField<T> {
    open spec fn obeys_add_spec() -> bool {
        false
    }

    open spec fn add_req(self, rhs: Self) -> bool {
        true
    }

    open spec fn add_spec(self, rhs: Self) -> Self {
        self
    }
}

impl<T: FromBigUint> std::ops::Add for PrimeField<T> {
    type Output = Self;

    fn add(self, rhs: Self) -> (sum: Self)
        ensures
            sum@ == field_add(Self::modulus(), self@, rhs@),
            sum.is_reduced(),
    {
        proof {
            T::lemma_prime_above_one();
        }
        let total = biguint_add(&self.element.value(), &rhs.element.value());
        PrimeField { element: T::from(biguint_rem(&total, &self.element.prime())) }
    }
}

// What `neg` returns is stated in its own contract, over views.
impl<T: FromBigUint> NegSpecImpl for PrimeField<T> {
    open spec fn obeys_neg_spec() -> bool {
        false
    }

    open spec fn neg_req(self) -> bool {
        true
    }

    open spec fn neg_spec(self) -> Self {
        self
    }
}

impl<T: FromBigUint> std::ops::Neg for PrimeField<T> {
    type Output = Self;

    fn neg(self) -> (n: Self)
        ensures
            n@ == field_neg(Self::modulus(), self@),
            n.is_reduced(),
    {
        proof {
            T::lemma_prime_above_one();
        }
        let p = self.element.prime();
        let residue = biguint_rem(&self.element.value(), &p);
        let complement = biguint_sub(&p, &residue);
        PrimeField { element: T::from(biguint_rem(&complement, &p)) }
    }
}

// What `sub` returns is stated in its own contract, over views.
impl<T: FromBigUint> SubSpecImpl for PrimeField<T> {
    open spec fn obeys_sub_spec() -> bool {
        false
    }

    open spec fn sub_req(self, rhs: Self) -> bool {
        true
    }

    open spec fn sub_spec(self, rhs: Self) -> Self {
        self
    }
}

impl<T: FromBigUint> std::ops::Sub for PrimeField<T> {
    type Output = Self;

    fn sub(self, rhs: Self) -> (difference: Self)
        ensures
            difference@ == field_sub(Self::modulus(), self@, rhs@),
            difference.is_reduced(),
    {
        self + std::ops::Neg::neg(rhs)
    }
}

// What `mul` returns is stated in its own contract, over views.
impl<T: FromBigUint> MulSpecImpl for PrimeField<T> {
    open spec fn obeys_mul_spec() -> bool {
        false
    }

    open spec fn mul_req(self, rhs: Self) -> bool {
        true
    }

    open spec fn mul_spec(self, rhs: Self) -> Self {
        self
    }
}

impl<T: FromBigUint> std::ops::Mul for PrimeField<T> {
    type Output = Self;

    fn mul(self, rhs: Self) -> (product: Self)
        ensures
            product@ == field_mul(Self::modulus(), self@, rhs@),
            product.is_reduced(),
    {
        proof {
            T::lemma_prime_above_one();
        }
        let total = biguint_mul(&self.element.value(), &rhs.element.value());
        PrimeField { element: T::from(biguint_rem(&total, &self.element.prime())) }
    }
}

// What `div` returns is stated in its own contract, over views.
impl<T: FromBigUint> DivSpecImpl for PrimeField<T> {
    open spec fn obeys_div_spec() -> bool {
        false
    }

    open spec fn div_req(self, rhs: Self) -> bool {
        true
    }

    open spec fn div_spec(self, rhs: Self) -> Self {
        self
    }
}

impl<T: FromBigUint> std::ops::Div for PrimeField<T> {
    type Output = Self;

    fn div(self, rhs: Self) -> (quotient: Self)
        ensures
            quotient@ == field_div(Self::modulus(), self@, rhs@),
            quotient.is_reduced(),
    {
        self * rhs.mul_inv()
    }
}

impl<T: FromBigUint> MulInv for PrimeField<T> {
    open spec fn inverse(a: nat) -> nat {
        field_inv(T::prime_spec(), a)
    }

    /// The inverse of an element that has one. Of an element that has none
    /// (zero, or one that shares a divisor with a modulus that is no prime)
    /// this is the reduced Bézout coefficient, which is no inverse;
    /// [`PrimeField::checked_mul_inv`] reports that case.
    fn mul_inv(self) -> (inv: Self)
        ensures
            inv.is_reduced(),
            invertible(T::prime_spec(), self@) ==> field_mul(T::prime_spec(), self@, inv@) == 1,
    {
        proof {
            T::lemma_prime_above_one();
            if invertible(T::prime_spec(), self@) {
                lemma_mod_inverse(self@, T::prime_spec());
            }
        }
        let residue = modular_inverse(self.element.value(), self.element.prime());
        PrimeField { element: T::from(residue) }
    }
}

impl<T: FromBigUint> Groupoid for PrimeField<T> {
    proof fn lemma_eq_decides_view(a: &Self, b: &Self) {
    }

    proof fn lemma_clone_keeps_view(a: &Self, b: &Self) {
    }
}

impl<T: FromBigUint> Semigroup for PrimeField<T> {
    open spec fn plus(a: nat, b: nat) -> nat {
        field_add(T::prime_spec(), a, b)
    }

    proof fn lemma_add_defined(a: Self, b: Self) {
    }

    proof fn lemma_add(a: Self, b: Self, sum: Self) {
    }
}

impl<T: FromBigUint> Monoid for PrimeField<T> {
    open spec fn zero_value() -> nat {
        0
    }

    fn zero() -> (z: Self) {
        PrimeField { element: T::from(biguint_from_u64(0)) }
    }

    fn is_zero(&self) -> (b: bool) {
        biguint_eq(&self.element.value(), &biguint_from_u64(0))
    }
}

impl<T: FromBigUint> Group for PrimeField<T> {
    open spec fn negated(a: nat) -> nat {
        field_neg(T::prime_spec(), a)
    }

    proof fn lemma_neg_defined(a: Self) {
    }

    proof fn lemma_neg(a: Self, n: Self) {
    }

    proof fn lemma_sub_defined(a: Self, b: Self) {
    }

    proof fn lemma_sub(a: Self, b: Self, difference: Self) {
    }
}

impl<T: FromBigUint> Ring for PrimeField<T> {
    open spec fn times(a: nat, b: nat) -> nat {
        field_mul(T::prime_spec(), a, b)
    }

    proof fn lemma_mul_defined(a: Self, b: Self) {
    }

    proof fn lemma_mul(a: Self, b: Self, product: Self) {
    }
}

impl<T: FromBigUint> Field for PrimeField<T> {
    open spec fn one_value() -> nat {
        1
    }

    fn one() -> (o: Self) {
        PrimeField { element: T::from(biguint_from_u64(1)) }
    }

    fn is_one(&self) -> (b: bool) {
        biguint_eq(&self.element.value(), &biguint_from_u64(1))
    }

    proof fn lemma_div_defined(a: Self, b: Self) {
    }

    proof fn lemma_div(a: Self, b: Self, quotient: Self) {
    }
}

// What `from` returns is stated in its own contract, over views.
impl<T: FromBigUint> FromSpecImpl<BigUint> for PrimeField<T> {
    open spec fn obeys_from_spec() -> bool {
        false
    }

    open spec fn from_spec(v: BigUint) -> Self {
        arbitrary()
    }
}

impl<T: FromBigUint> From<BigUint> for PrimeField<T> {
    /// The element with residue `v`, unreduced.
    fn from(v: BigUint) -> (e: Self)
        ensures
            e@ == nat_value(v),
    {
        PrimeField { element: T::from(v) }
    }
}

// What `from` returns is stated in its own contract, over views.
impl<T: FromBigUint> FromSpecImpl<u32> for PrimeField<T> {
    open spec fn obeys_from_spec() -> bool {
        false
    }

    open spec fn from_spec(v: u32) -> Self {
        arbitrary()
    }
}

impl<T: FromBigUint> From<u32> for PrimeField<T> {
    /// The element with residue `v`, unreduced.
    fn from(v: u32) -> (e: Self)
        ensures
            e@ == v,
    {
        PrimeField { element: T::from(biguint_from_u64(v as u64)) }
    }
}

// What `from` returns is stated in its own contract, over views.
impl<T: FromBigUint> FromSpecImpl<u16> for PrimeField<T> {
    open spec fn obeys_from_spec() -> bool {
        false
    }

    open spec fn from_spec(v: u16) -> Self {
        arbitrary()
    }
}

impl<T: FromBigUint> From<u16> for PrimeField<T> {
    /// The element with residue `v`, unreduced.
    fn from(v: u16) -> (e: Self)
        ensures
            e@ == v,
    {
        PrimeField { element: T::from(biguint_from_u64(v as u64)) }
    }
}

// What `from` returns is stated in its own contract, over views.
impl<'a, T: FromBigUint> FromSpecImpl<&'a [u32]> for PrimeField<T> {
    open spec fn obeys_from_spec() -> bool {
        false
    }

    open spec fn from_spec(v: &'a [u32]) -> Self {
        arbitrary()
    }
}

impl<'a, T: FromBigUint> From<&'a [u32]> for PrimeField<T> {
    /// The element whose residue has the base-2^32 digits `v`, least
    /// significant first, unreduced.
    fn from(v: &'a [u32]) -> (e: Self)
        ensures
            e@ == limbs_value(v@),
    {
        PrimeField { element: T::from(biguint_from_slice(v)) }
    }
}

// What `try_from` returns is stated in its own contract, over views.
impl<'a, T: FromBigUint> TryFromSpecImpl<&'a str> for PrimeField<T> {
    open spec fn obeys_try_from_spec() -> bool {
        false
    }

    open spec fn try_from_spec(s: &'a str) -> Result<Self, Error> {
        arbitrary()
    }
}

impl<'a, T: FromBigUint> TryFrom<&'a str> for PrimeField<T> {
    type Error = Error;

    /// The element whose residue the decimal numeral `s` denotes, unreduced,
    /// or `Error::Parse` where `s` is no decimal numeral.
    fn try_from(s: &'a str) -> (r: Result<Self, Error>)
        ensures
            match r {
                Ok(e) => parse_decimal(s@) == Some(e@),
                Err(e) => parse_decimal(s@) is None && e == Error::Parse,
            },
    {
        match biguint_from_decimal(s) {
            Ok(v) => Ok(PrimeField { element: T::from(v) }),
            Err(_) => Err(Error::Parse),
        }
    }
}

/// Addition is commutative: `a + b == b + a`.
pub proof fn lemma_add_commutative(p: nat, a: nat, b: nat)
    ensures
        field_add(p, a, b) == field_add(p, b, a),
{
}

/// Addition is associative: `(a + b) + c == a + (b + c)`.
pub proof fn lemma_add_associative(p: nat, a: nat, b: nat, c: nat)
    requires
        p > 0,
    ensures
        field_add(p, field_add(p, a, b), c) == field_add(p, a, field_add(p, b, c)),
{
    let (pi, ai, bi, ci) = (p as int, a as int, b as int, c as int);
    lemma_add_mod_noop(ai + bi, ci, pi);
    lemma_add_mod_noop(ai, bi + ci, pi);
    lemma_mod_twice(ai + bi, pi);
    lemma_mod_twice(bi + ci, pi);
    lemma_add_mod_noop((ai + bi) % pi, ci, pi);
    lemma_add_mod_noop(ai, (bi + ci) % pi, pi);
}

/// An element and its negation add up to zero: `a + (-a) == 0`.
pub proof fn lemma_add_negation(p: nat, a: nat)
    requires
        p > 0,
    ensures
        field_add(p, a, field_neg(p, a)) == 0,
{
    let (pi, ai) = (p as int, a as int);
    let r = ai % pi;
    lemma_fundamental_div_mod(ai, pi);
    if r == 0 {
        lemma_mod_self_0(pi);
    } else {
        lemma_small_mod((pi - r) as nat, p);
        assert(ai + (pi - r) == (ai / pi + 1) * pi) by (nonlinear_arith)
            requires
                ai == pi * (ai / pi) + r,
        ;
        lemma_mod_multiples_basic(ai / pi + 1, pi);
    }
}

/// An element minus itself is zero: `a - a == 0`.
pub proof fn lemma_sub_self(p: nat, a: nat)
    requires
        p > 0,
    ensures
        field_sub(p, a, a) == 0,
{
    lemma_add_negation(p, a);
}

/// Zero is the additive identity: `a + 0` is `a`, reduced.
pub proof fn lemma_add_zero(p: nat, a: nat)
    ensures
        field_add(p, a, 0) == a % p,
        field_add(p, 0, a) == a % p,
{
}

/// Multiplication is commutative: `a * b == b * a`.
pub proof fn lemma_mul_commutative(p: nat, a: nat, b: nat)
    ensures
        field_mul(p, a, b) == field_mul(p, b, a),
{
}

/// Multiplication is associative: `(a * b) * c == a * (b * c)`.
pub proof fn lemma_mul_associative(p: nat, a: nat, b: nat, c: nat)
    requires
        p > 0,
    ensures
        field_mul(p, field_mul(p, a, b), c) == field_mul(p, a, field_mul(p, b, c)),
{
    let (pi, ai, bi, ci) = (p as int, a as int, b as int, c as int);
    lemma_mul_mod_noop_left(ai * bi, ci, pi);
    lemma_mul_mod_noop_right(ai, bi * ci, pi);
    assert((ai * bi) * ci == ai * (bi * ci)) by (nonlinear_arith);
}

/// One is the multiplicative identity: `a * 1` is `a`, reduced.
pub proof fn lemma_mul_one(p: nat, a: nat)
    ensures
        field_mul(p, a, 1) == a % p,
        field_mul(p, 1, a) == a % p,
{
}

/// Multiplication distributes over addition: `a * (b + c) == a * b + a * c`.
pub proof fn lemma_mul_distributive(p: nat, a: nat, b: nat, c: nat)
    requires
        p > 0,
    ensures
        field_mul(p, a, field_add(p, b, c)) == field_add(p, field_mul(p, a, b), field_mul(p, a, c)),
{
    let (pi, ai, bi, ci) = (p as int, a as int, b as int, c as int);
    lemma_mul_mod_noop_right(ai, bi + ci, pi);
    lemma_add_mod_noop(ai * bi, ai * ci, pi);
    assert(ai * (bi + ci) == ai * bi + ai * ci) by (nonlinear_arith);
}

/// In a field of prime order every element that is not zero is invertible.
pub proof fn lemma_nonzero_invertible(p: nat, a: nat)
    requires
        is_prime(p),
        a % p != 0,
    ensures
        invertible(p, a),
{
    lemma_prime_coprime(a, p);
}

/// An invertible element times its inverse is one.
pub proof fn lemma_inverse_of_invertible(p: nat, a: nat)
    requires
        p > 1,
        invertible(p, a),
    ensures
        field_mul(p, a, field_inv(p, a)) == 1,
        field_div(p, a, a) == 1,
{
    lemma_mod_inverse(a, p);
}

/// In a field of prime order an element that is not zero, times its inverse,
/// is one: `a * mul_inv(a) == 1`.
pub proof fn lemma_mul_inverse(p: nat, a: nat)
    requires
        is_prime(p),
        a % p != 0,
    ensures
        field_mul(p, a, field_inv(p, a)) == 1,
{
    lemma_prime_coprime(a, p);
    lemma_mod_inverse(a, p);
}

/// In a field of prime order an element that is not zero, divided by itself,
/// is one: `a / a == 1`.
pub proof fn lemma_div_self(p: nat, a: nat)
    requires
        is_prime(p),
        a % p != 0,
    ensures
        field_div(p, a, a) == 1,
{
    lemma_mul_inverse(p, a);
}

} // verus!
