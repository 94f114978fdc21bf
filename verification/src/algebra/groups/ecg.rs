//! The group of points of an elliptic curve.
//!
//! A curve is described by a point type `G` over a field `F`: `G` holds two
//! coordinates, makes a point from two coordinates, and knows the curve's
//! addition law and its identity. [`EllipticCurveGroup`] derives the group
//! operators from that and nothing else, so that one body of code serves
//! every curve. The view of a group element is its pair of coordinates.
//!
//! Whether two coordinates satisfy the curve's equation is not checked: that
//! is left to whoever makes the point.

use crate::algebra::fields::prime;
use crate::algebra::fields::prime::field_neg;
use crate::algebra::fields::prime::Error;
use crate::algebra::fields::prime::PrimeField;
use crate::algebra::groups::arithmetic::double_and_add;
use crate::algebra::groups::arithmetic::double_and_add_algorithm;
use crate::algebra::groups::arithmetic::lemma_double_and_add_two;
use crate::algebra::traits::Group;
use crate::algebra::traits::Groupoid;
use crate::algebra::traits::Monoid;
use crate::algebra::traits::Scalar;
use crate::algebra::traits::Semigroup;
use crate::bignum::biguint_from_u64;
use crate::bignum::limbs_value;
use crate::bignum::nat_value;
use crate::bignum::parse_decimal;
use num_bigint::BigUint;
use std::marker::PhantomData;
use vstd::prelude::*;
use vstd::std_specs::cmp::PartialEqSpecImpl;
use vstd::std_specs::convert::FromSpecImpl;
use vstd::std_specs::convert::TryFromSpecImpl;
use vstd::std_specs::ops::AddSpecImpl;
use vstd::std_specs::ops::NegSpecImpl;
use vstd::std_specs::ops::SubSpecImpl;

verus! {

/// A point with two coordinates in the field `F`.
pub trait CurvePoint<F: prime::FromBigUint>: Sized {
    /// The residue of the first coordinate.
    spec fn x_spec(&self) -> nat;

    /// The residue of the second coordinate.
    spec fn y_spec(&self) -> nat;

    fn x(&self) -> (x: PrimeField<F>)
        ensures
            x@ == self.x_spec(),
    ;

    fn y(&self) -> (y: PrimeField<F>)
        ensures
            y@ == self.y_spec(),
    ;
}

/// A point type that can be made from two coordinates, which are taken as
/// they are.
pub trait FromBigUint<F: prime::FromBigUint>: CurvePoint<F> {
    fn from(x: PrimeField<F>, y: PrimeField<F>) -> (point: Self)
        ensures
            point.x_spec() == x@,
            point.y_spec() == y@,
    ;
}

/// The addition law of a curve, with its identity.
pub trait Op<F: prime::FromBigUint>: FromBigUint<F> {
    /// The coordinates of the sum of two points.
    spec fn op_spec(a: (nat, nat), b: (nat, nat)) -> (nat, nat);

    /// The coordinates of the identity.
    spec fn identity_spec() -> (nat, nat);

    /// The identity is neutral on both sides.
    proof fn lemma_identity_neutral(a: (nat, nat))
        ensures
            Self::op_spec(a, Self::identity_spec()) == a,
            Self::op_spec(Self::identity_spec(), a) == a,
    ;

    fn identity() -> (point: Self)
        ensures
            (point.x_spec(), point.y_spec()) == Self::identity_spec(),
    ;

    fn op(a: Self, b: Self) -> (sum: Self)
        ensures
            (sum.x_spec(), sum.y_spec()) == Self::op_spec(
                (a.x_spec(), a.y_spec()),
                (b.x_spec(), b.y_spec()),
            ),
    ;
}

/// An element of the group of the curve `G` over the field `F`.
#[derive(Debug)]
pub struct EllipticCurveGroup<F: prime::FromBigUint, G: Op<F>> {
    pub point: G,
    pub field: PhantomData<F>,
}

impl<F: prime::FromBigUint, G: Op<F>> View for EllipticCurveGroup<F, G> {
    type V = (nat, nat);

    open spec fn view(&self) -> (nat, nat) {
        (self.point.x_spec(), self.point.y_spec())
    }
}

impl<F: prime::FromBigUint, G: Op<F>> EllipticCurveGroup<F, G> {
    /// The first coordinate.
    pub fn x(&self) -> (x: PrimeField<F>)
        ensures
            x@ == self@.0,
    {
        self.point.x()
    }

    /// The second coordinate.
    pub fn y(&self) -> (y: PrimeField<F>)
        ensures
            y@ == self@.1,
    {
        self.point.y()
    }

    /// The group element with the coordinates `x` and `y`.
    pub fn new(x: PrimeField<F>, y: PrimeField<F>) -> (point: Self)
        ensures
            point@ == (x@, y@),
    {
        EllipticCurveGroup { point: G::from(x, y), field: PhantomData }
    }
}

impl<F: prime::FromBigUint, G: Op<F>> Clone for EllipticCurveGroup<F, G> {
    fn clone(&self) -> (r: Self)
        ensures
            r@ == self@,
    {
        Self::new(self.point.x(), self.point.y())
    }
}

impl<F: prime::FromBigUint, G: Op<F>> PartialEqSpecImpl for EllipticCurveGroup<F, G> {
    open spec fn obeys_eq_spec() -> bool {
        true
    }

    open spec fn eq_spec(&self, other: &Self) -> bool {
        self@ == other@
    }
}

impl<F: prime::FromBigUint, G: Op<F>> PartialEq for EllipticCurveGroup<F, G> {
    /// Points are equal when both coordinates are.
    fn eq(&self, rhs: &Self) -> (r: bool) {
        self.point.x() == rhs.point.x() && self.point.y() == rhs.point.y()
    }
}

impl<F: prime::FromBigUint, G: Op<F>> Eq for EllipticCurveGroup<F, G> {

}

// What `add` returns is stated in its own contract, over views.
impl<F: prime::FromBigUint, G: Op<F>> AddSpecImpl for EllipticCurveGroup<F, G> {
    open spec fn obeys_add_spec() -> bool {
        false
    }

    open spec fn add_req(self, rhs: Self) -> bool {
        true
    }

    open spec fn add_spec(self, rhs: Self) -> Self {
        self
    }
}

impl<F: prime::FromBigUint, G: Op<F>> std::ops::Add for EllipticCurveGroup<F, G> {
    type Output = Self;

    /// The sum by the curve's addition law.
    fn add(self, rhs: Self) -> (sum: Self)
        ensures
            sum@ == G::op_spec(self@, rhs@),
    {
        EllipticCurveGroup { point: G::op(self.point, rhs.point), field: PhantomData }
    }
}

// What `neg` returns is stated in its own contract, over views.
impl<F: prime::FromBigUint, G: Op<F>> NegSpecImpl for EllipticCurveGroup<F, G> {
    open spec fn obeys_neg_spec() -> bool {
        false
    }

    open spec fn neg_req(self) -> bool {
        true
    }

    open spec fn neg_spec(self) -> Self {
        self
    }
}

impl<F: prime::FromBigUint, G: Op<F>> std::ops::Neg for EllipticCurveGroup<F, G> {
    type Output = Self;

    /// The mirror image: the same first coordinate, the negated second.
    fn neg(self) -> (n: Self)
        ensures
            n@ == (self@.0, field_neg(F::prime_spec(), self@.1)),
    {
        Self::new(self.point.x(), std::ops::Neg::neg(self.point.y()))
    }
}

// What `sub` returns is stated in its own contract, over views.
impl<F: prime::FromBigUint, G: Op<F>> SubSpecImpl for EllipticCurveGroup<F, G> {
    open spec fn obeys_sub_spec() -> bool {
        false
    }

    open spec fn sub_req(self, rhs: Self) -> bool {
        true
    }

    open spec fn sub_spec(self, rhs: Self) -> Self {
        self
    }
}

impl<F: prime::FromBigUint, G: Op<F>> std::ops::Sub for EllipticCurveGroup<F, G> {
    type Output = Self;

    /// The sum with the mirror image of `rhs`.
    fn sub(self, rhs: Self) -> (difference: Self)
        ensures
            difference@ == G::op_spec(self@, (rhs@.0, field_neg(F::prime_spec(), rhs@.1))),
    {
        self + std::ops::Neg::neg(rhs)
    }
}

impl<F: prime::FromBigUint, G: Op<F>> Groupoid for EllipticCurveGroup<F, G> {
    proof fn lemma_eq_decides_view(a: &Self, b: &Self) {
    }

    proof fn lemma_clone_keeps_view(a: &Self, b: &Self) {
    }
}

impl<F: prime::FromBigUint, G: Op<F>> Semigroup for EllipticCurveGroup<F, G> {
    open spec fn plus(a: (nat, nat), b: (nat, nat)) -> (nat, nat) {
        G::op_spec(a, b)
    }

    proof fn lemma_add_defined(a: Self, b: Self) {
    }

    proof fn lemma_add(a: Self, b: Self, sum: Self) {
    }
}

impl<F: prime::FromBigUint, G: Op<F>> Monoid for EllipticCurveGroup<F, G> {
    open spec fn zero_value() -> (nat, nat) {
        G::identity_spec()
    }

    /// The identity of the curve.
    fn zero() -> (z: Self) {
        EllipticCurveGroup { point: G::identity(), field: PhantomData }
    }

    fn is_zero(&self) -> (b: bool) {
        let identity = G::identity();
        self.point.x() == identity.x() && self.point.y() == identity.y()
    }
}

impl<F: prime::FromBigUint, G: Op<F>> Group for EllipticCurveGroup<F, G> {
    open spec fn negated(a: (nat, nat)) -> (nat, nat) {
        (a.0, field_neg(F::prime_spec(), a.1))
    }

    proof fn lemma_neg_defined(a: Self) {
    }

    proof fn lemma_neg(a: Self, n: Self) {
    }

    proof fn lemma_sub_defined(a: Self, b: Self) {
    }

    proof fn lemma_sub(a: Self, b: Self, difference: Self) {
    }
}

// What `from` returns is stated in its own contract, over views.
impl<F: prime::FromBigUint, G: Op<F>> FromSpecImpl<(u32, u32)> for EllipticCurveGroup<F, G> {
    open spec fn obeys_from_spec() -> bool {
        false
    }

    open spec fn from_spec(v: (u32, u32)) -> Self {
        arbitrary()
    }
}

impl<F: prime::FromBigUint, G: Op<F>> From<(u32, u32)> for EllipticCurveGroup<F, G> {
    fn from(v: (u32, u32)) -> (point: Self)
        ensures
            point@ == (v.0 as nat, v.1 as nat),
    {
        Self::new(PrimeField::<F>::from(v.0), PrimeField::<F>::from(v.1))
    }
}

// What `from` returns is stated in its own contract, over views.
impl<F: prime::FromBigUint, G: Op<F>> FromSpecImpl<(u16, u16)> for EllipticCurveGroup<F, G> {
    open spec fn obeys_from_spec() -> bool {
        false
    }

    open spec fn from_spec(v: (u16, u16)) -> Self {
        arbitrary()
    }
}

impl<F: prime::FromBigUint, G: Op<F>> From<(u16, u16)> for EllipticCurveGroup<F, G> {
    fn from(v: (u16, u16)) -> (point: Self)
        ensures
            point@ == (v.0 as nat, v.1 as nat),
    {
        Self::new(PrimeField::<F>::from(v.0), PrimeField::<F>::from(v.1))
    }
}

// What `from` returns is stated in its own contract, over views.
impl<'a, F: prime::FromBigUint, G: Op<F>> FromSpecImpl<(&'a [u32], &'a [u32])> for EllipticCurveGroup<F, G> {
    open spec fn obeys_from_spec() -> bool {
        false
    }

    open spec fn from_spec(v: (&'a [u32], &'a [u32])) -> Self {
        arbitrary()
    }
}

impl<'a, F: prime::FromBigUint, G: Op<F>> From<(&'a [u32], &'a [u32])> for EllipticCurveGroup<F, G> {
    /// The point whose coordinates have the base-2^32 digits given, least
    /// significant first.
    fn from(v: (&'a [u32], &'a [u32])) -> (point: Self)
        ensures
            point@ == (limbs_value(v.0@), limbs_value(v.1@)),
    {
        Self::new(PrimeField::<F>::from(v.0), PrimeField::<F>::from(v.1))
    }
}

// What `from` returns is stated in its own contract, over views.
impl<F: prime::FromBigUint, G: Op<F>> FromSpecImpl<(BigUint, BigUint)> for EllipticCurveGroup<F, G> {
    open spec fn obeys_from_spec() -> bool {
        false
    }

    open spec fn from_spec(v: (BigUint, BigUint)) -> Self {
        arbitrary()
    }
}

impl<F: prime::FromBigUint, G: Op<F>> From<(BigUint, BigUint)> for EllipticCurveGroup<F, G> {
    fn from(v: (BigUint, BigUint)) -> (point: Self)
        ensures
            point@ == (nat_value(v.0), nat_value(v.1)),
    {
        Self::new(PrimeField::<F>::from(v.0), PrimeField::<F>::from(v.1))
    }
}

// What `try_from` returns is stated in its own contract, over views.
impl<'a, F: prime::FromBigUint, G: Op<F>> TryFromSpecImpl<(&'a str, &'a str)> for EllipticCurveGroup<F, G> {
    open spec fn obeys_try_from_spec() -> bool {
        false
    }

    open spec fn try_from_spec(v: (&'a str, &'a str)) -> Result<Self, Error> {
        arbitrary()
    }
}

impl<'a, F: prime::FromBigUint, G: Op<F>> TryFrom<(&'a str, &'a str)> for EllipticCurveGroup<F, G> {
    type Error = Error;

    /// The point whose coordinates the two decimal numerals denote, or
    /// `Error::Parse` where one of them is no decimal numeral.
    fn try_from(v: (&'a str, &'a str)) -> (r: Result<Self, Error>)
        ensures
            match r {
                Ok(point) => parse_decimal(v.0@) == Some(point@.0) && parse_decimal(v.1@) == Some(
                    point@.1,
                ),
                Err(e) => e == Error::Parse && (parse_decimal(v.0@) is None || parse_decimal(v.1@)
                    is None),
            },
    {
        let x = match PrimeField::<F>::try_from(v.0) {
            Ok(x) => x,
            Err(e) => {
                return Err(e);
            },
        };
        let y = match PrimeField::<F>::try_from(v.1) {
            Ok(y) => y,
            Err(e) => {
                return Err(e);
            },
        };
        Ok(Self::new(x, y))
    }
}

impl<F: prime::FromBigUint, G: Op<F>> Scalar<BigUint> for EllipticCurveGroup<F, G> {
    open spec fn multiple(a: (nat, nat), k: BigUint) -> (nat, nat) {
        double_and_add::<Self>(nat_value(k), a, G::identity_spec())
    }

    /// The `k`-fold multiple of the point, by doubling and adding from the
    /// identity.
    fn scalar(self, k: BigUint) -> (product: Self) {
        double_and_add_algorithm(k, self, Self::zero())
    }
}

impl<F: prime::FromBigUint, G: Op<F>> Scalar<usize> for EllipticCurveGroup<F, G> {
    open spec fn multiple(a: (nat, nat), k: usize) -> (nat, nat) {
        double_and_add::<Self>(k as nat, a, G::identity_spec())
    }

    /// The `k`-fold multiple of the point, by doubling and adding from the
    /// identity.
    fn scalar(self, k: usize) -> (product: Self) {
        double_and_add_algorithm(biguint_from_u64(k as u64), self, Self::zero())
    }
}

/// The zero-fold multiple of every point is the identity: `scalar(p, 0)` is
/// the identity, whether the zero is a machine integer or a big number.
pub proof fn lemma_multiple_zero<F: prime::FromBigUint, G: Op<F>>(a: (nat, nat), zero: BigUint)
    requires
        nat_value(zero) == 0,
    ensures
        <EllipticCurveGroup<F, G> as Scalar<usize>>::multiple(a, 0) == G::identity_spec(),
        <EllipticCurveGroup<F, G> as Scalar<BigUint>>::multiple(a, zero) == G::identity_spec(),
{
}

/// The twofold multiple of a point is the point added to itself:
/// `scalar(p, 2) == p + p`, whether the two is a machine integer or a big
/// number.
pub proof fn lemma_multiple_two<F: prime::FromBigUint, G: Op<F>>(a: (nat, nat), two: BigUint)
    requires
        nat_value(two) == 2,
    ensures
        <EllipticCurveGroup<F, G> as Scalar<usize>>::multiple(a, 2) == G::op_spec(a, a),
        <EllipticCurveGroup<F, G> as Scalar<BigUint>>::multiple(a, two) == G::op_spec(a, a),
{
    lemma_double_and_add_two::<EllipticCurveGroup<F, G>>(a, G::identity_spec());
    G::lemma_identity_neutral(G::op_spec(a, a));
}

/// The identity added to itself is the identity.
pub proof fn lemma_identity_doubled<F: prime::FromBigUint, G: Op<F>>()
    ensures
        G::op_spec(G::identity_spec(), G::identity_spec()) == G::identity_spec(),
{
    G::lemma_identity_neutral(G::identity_spec());
}

} // verus!
