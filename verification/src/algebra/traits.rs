//! The algebraic capabilities, from the weakest to the strongest:
//! groupoid, semigroup, monoid, group, ring, field.
//!
//! Each capability adds operators to the one before it, so that a generic
//! algorithm can ask for no more than it uses. The operators are the
//! standard ones (`+`, `-`, `*`, `/`, `==`); a capability says what they
//! compute over the view of a value, the mathematical object the value
//! stands for, and asks the implementing type to prove that its operators
//! do so. Generic code learns what an operator returned by calling the
//! matching lemma.
//!
//! The capabilities fix which operations exist and what they return. The
//! laws of a structure (associativity, inverses and so on) are not demanded
//! here: they are stated and proved per type, where they hold.

use std::ops::Add;
use std::ops::Div;
use std::ops::Mul;
use std::ops::Neg;
use std::ops::Sub;
use vstd::prelude::*;
use vstd::std_specs::cmp::PartialEqSpec;

verus! {

/// A set of values with a decidable equality: `==` tells whether two values
/// stand for the same mathematical object, and a clone stands for the same
/// object as the value it was made from.
pub trait Groupoid: Sized + View + Eq + Clone {
    /// `a == b` holds exactly when the views are equal.
    proof fn lemma_eq_decides_view(a: &Self, b: &Self)
        ensures
            Self::obeys_eq_spec(),
            a.eq_spec(b) == (a@ == b@),
    ;

    /// Cloning keeps the view.
    proof fn lemma_clone_keeps_view(a: &Self, b: &Self)
        requires
            cloned(*a, *b),
        ensures
            a@ == b@,
    ;
}

/// A groupoid closed under `+`.
pub trait Semigroup: Groupoid + Add<Output = Self> {
    /// The sum of two objects.
    spec fn plus(a: Self::V, b: Self::V) -> Self::V;

    /// `a + b` is defined for every two values.
    proof fn lemma_add_defined(a: Self, b: Self)
        ensures
            call_requires(<Self as Add>::add, (a, b)),
    ;

    /// `a + b` stands for the sum of what `a` and `b` stand for.
    proof fn lemma_add(a: Self, b: Self, sum: Self)
        requires
            call_ensures(<Self as Add>::add, (a, b), sum),
        ensures
            sum@ == Self::plus(a@, b@),
    ;
}

/// A semigroup with an additive identity.
pub trait Monoid: Semigroup {
    /// The additive identity.
    spec fn zero_value() -> Self::V;

    fn zero() -> (z: Self)
        ensures
            z@ == Self::zero_value(),
    ;

    fn is_zero(&self) -> (b: bool)
        ensures
            b == (self@ == Self::zero_value()),
    ;
}

/// A monoid with unary and binary `-`: every value has an additive inverse,
/// and subtraction is addition of the inverse.
pub trait Group: Monoid + Neg<Output = Self> + Sub<Output = Self> {
    /// The additive inverse of an object.
    spec fn negated(a: Self::V) -> Self::V;

    /// `-a` is defined for every value.
    proof fn lemma_neg_defined(a: Self)
        ensures
            call_requires(<Self as Neg>::neg, (a,)),
    ;

    /// `-a` stands for the inverse of what `a` stands for.
    proof fn lemma_neg(a: Self, n: Self)
        requires
            call_ensures(<Self as Neg>::neg, (a,), n),
        ensures
            n@ == Self::negated(a@),
    ;

    /// `a - b` is defined for every two values.
    proof fn lemma_sub_defined(a: Self, b: Self)
        ensures
            call_requires(<Self as Sub>::sub, (a, b)),
    ;

    /// `a - b` stands for the sum of `a` and the inverse of `b`.
    proof fn lemma_sub(a: Self, b: Self, difference: Self)
        requires
            call_ensures(<Self as Sub>::sub, (a, b), difference),
        ensures
            difference@ == Self::plus(a@, Self::negated(b@)),
    ;
}

/// A group closed under `*`.
pub trait Ring: Group + Mul<Output = Self> {
    /// The product of two objects.
    spec fn times(a: Self::V, b: Self::V) -> Self::V;

    /// `a * b` is defined for every two values.
    proof fn lemma_mul_defined(a: Self, b: Self)
        ensures
            call_requires(<Self as Mul>::mul, (a, b)),
    ;

    /// `a * b` stands for the product of what `a` and `b` stand for.
    proof fn lemma_mul(a: Self, b: Self, product: Self)
        requires
            call_ensures(<Self as Mul>::mul, (a, b), product),
        ensures
            product@ == Self::times(a@, b@),
    ;
}

/// A multiplicative inverse. What `inverse` is of an object that has none is
/// for the implementing type to say.
pub trait MulInv: Sized + View {
    /// The multiplicative inverse of an object.
    spec fn inverse(a: Self::V) -> Self::V;

    fn mul_inv(self) -> (inv: Self)
        ensures
            inv@ == Self::inverse(self@),
    ;
}

/// A ring with a multiplicative identity, multiplicative inverses and `/`:
/// division is multiplication by the inverse.
pub trait Field: Ring + Div<Output = Self> + MulInv {
    /// The multiplicative identity.
    spec fn one_value() -> Self::V;

    fn one() -> (o: Self)
        ensures
            o@ == Self::one_value(),
    ;

    fn is_one(&self) -> (b: bool)
        ensures
            b == (self@ == Self::one_value()),
    ;

    /// `a / b` is defined for every two values.
    proof fn lemma_div_defined(a: Self, b: Self)
        ensures
            call_requires(<Self as Div>::div, (a, b)),
    ;

    /// `a / b` stands for the product of `a` and the inverse of `b`.
    proof fn lemma_div(a: Self, b: Self, quotient: Self)
        requires
            call_ensures(<Self as Div>::div, (a, b), quotient),
        ensures
            quotient@ == Self::times(a@, Self::inverse(b@)),
    ;
}

/// Multiplication of a value by a number of type `K`.
pub trait Scalar<K>: Sized + View {
    /// The `k`-fold multiple of an object.
    spec fn multiple(a: Self::V, k: K) -> Self::V;

    fn scalar(self, k: K) -> (product: Self)
        ensures
            product@ == Self::multiple(self@, k),
    ;
}

} // verus!
