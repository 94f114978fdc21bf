//! Field elements that carry their modulus with them.
//!
//! A [`PrimeFieldIns`] holds a modulus and a residue. Two elements belong to
//! the same field when they hold the same modulus; an operation takes the
//! modulus of its left operand, hands it on to its result, and does not look
//! at the modulus of the right operand. Equality compares residues only.
//!
//! The modulus is meant to be a prime. The operations ask for a modulus above
//! one and no more; the laws that need a prime are those of
//! [`crate::algebra::fields::prime`].

use crate::algebra::fields::arithmetic::modular_inverse;
use crate::algebra::fields::prime::field_add;
use crate::algebra::fields::prime::field_div;
use crate::algebra::fields::prime::field_inv;
use crate::algebra::fields::prime::field_mul;
use crate::algebra::fields::prime::field_neg;
use crate::algebra::fields::prime::field_sub;
use crate::bignum::biguint_add;
use crate::bignum::biguint_clone;
use crate::bignum::biguint_eq;
use crate::bignum::biguint_from_u64;
use crate::bignum::biguint_mul;
use crate::bignum::biguint_rem;
use crate::bignum::biguint_sub;
use crate::bignum::nat_value;
use num_bigint::BigUint;
use vstd::prelude::*;
use vstd::std_specs::cmp::PartialEqSpecImpl;
use vstd::std_specs::ops::AddSpecImpl;
use vstd::std_specs::ops::DivSpecImpl;
use vstd::std_specs::ops::MulSpecImpl;
use vstd::std_specs::ops::NegSpecImpl;
use vstd::std_specs::ops::SubSpecImpl;

verus! {

/// A residue together with the modulus of its field.
#[derive(Debug)]
pub struct PrimeFieldIns {
    pub prime: BigUint,
    pub value: BigUint,
}

impl View for PrimeFieldIns {
    type V = nat;

    /// The residue.
    open spec fn view(&self) -> nat {
        nat_value(self.value)
    }
}

impl PrimeFieldIns {
    /// The modulus that the element carries.
    pub open spec fn modulus(&self) -> nat {
        nat_value(self.prime)
    }

    /// Whether the element can be computed with: its modulus is above one.
    pub open spec fn well_formed(&self) -> bool {
        self.modulus() > 1
    }

    /// Whether the residue lies below the modulus.
    pub open spec fn is_reduced(&self) -> bool {
        self@ < self.modulus()
    }

    /// The element with the modulus `prime` and the residue `value`, taken
    /// as it is, or nothing where the modulus is zero or one.
    pub fn new(prime: BigUint, value: BigUint) -> (r: Option<Self>)
        ensures
            match r {
                Some(element) => nat_value(prime) > 1 && element.modulus() == nat_value(prime)
                    && element@ == nat_value(value),
                None => nat_value(prime) <= 1,
            },
    {
        if biguint_eq(&prime, &biguint_from_u64(0)) || biguint_eq(&prime, &biguint_from_u64(1)) {
            None
        } else {
            Some(PrimeFieldIns { prime, value })
        }
    }

    pub fn prime(&self) -> (p: &BigUint)
        ensures
            nat_value(*p) == self.modulus(),
    {
        &self.prime
    }

    pub fn value(&self) -> (v: &BigUint)
        ensures
            nat_value(*v) == self@,
    {
        &self.value
    }

    /// Replaces the residue and keeps the modulus.
    pub fn set_value(&mut self, value: BigUint)
        ensures
            final(self)@ == nat_value(value),
            final(self).modulus() == old(self).modulus(),
    {
        self.value = value;
    }

    /// The inverse of an element that has one, with the same modulus. Of an
    /// element that has none this is the reduced Bézout coefficient.
    pub fn mul_inv(self) -> (inv: Self)
        requires
            self.well_formed(),
        ensures
            inv.modulus() == self.modulus(),
            inv@ == field_inv(self.modulus(), self@),
            inv.is_reduced(),
    {
        let residue = modular_inverse(biguint_clone(&self.value), biguint_clone(&self.prime));
        PrimeFieldIns { prime: self.prime, value: residue }
    }
}

impl Clone for PrimeFieldIns {
    fn clone(&self) -> (r: Self)
        ensures
            r@ == self@,
            r.modulus() == self.modulus(),
    {
        PrimeFieldIns { prime: biguint_clone(&self.prime), value: biguint_clone(&self.value) }
    }
}

impl PartialEqSpecImpl for PrimeFieldIns {
    open spec fn obeys_eq_spec() -> bool {
        true
    }

    open spec fn eq_spec(&self, other: &Self) -> bool {
        self@ == other@
    }
}

impl PartialEq for PrimeFieldIns {
    /// Elements are equal when their residues are.
    fn eq(&self, rhs: &Self) -> (r: bool) {
        biguint_eq(&self.value, &rhs.value)
    }
}

impl Eq for PrimeFieldIns {

}

// What `add` returns is stated in its own contract, over views.
impl AddSpecImpl for PrimeFieldIns {
    open spec fn obeys_add_spec() -> bool {
        false
    }

    open spec fn add_req(self, rhs: Self) -> bool {
        self.well_formed()
    }

    open spec fn add_spec(self, rhs: Self) -> Self {
        self
    }
}

impl std::ops::Add for PrimeFieldIns {
    type Output = Self;

    fn add(self, rhs: Self) -> (sum: Self)
        ensures
            sum.modulus() == self.modulus(),
            sum@ == field_add(self.modulus(), self@, rhs@),
            sum.is_reduced(),
    {
        let total = biguint_add(&self.value, &rhs.value);
        let residue = biguint_rem(&total, &self.prime);
        PrimeFieldIns { prime: self.prime, value: residue }
    }
}

// What `mul` returns is stated in its own contract, over views.
impl MulSpecImpl for PrimeFieldIns {
    open spec fn obeys_mul_spec() -> bool {
        false
    }

    open spec fn mul_req(self, rhs: Self) -> bool {
        self.well_formed()
    }

    open spec fn mul_spec(self, rhs: Self) -> Self {
        self
    }
}

impl std::ops::Mul for PrimeFieldIns {
    type Output = Self;

    fn mul(self, rhs: Self) -> (product: Self)
        ensures
            product.modulus() == self.modulus(),
            product@ == field_mul(self.modulus(), self@, rhs@),
            product.is_reduced(),
    {
        let total = biguint_mul(&self.value, &rhs.value);
        let residue = biguint_rem(&total, &self.prime);
        PrimeFieldIns { prime: self.prime, value: residue }
    }
}

// What `neg` returns is stated in its own contract, over views.
impl NegSpecImpl for PrimeFieldIns {
    open spec fn obeys_neg_spec() -> bool {
        false
    }

    open spec fn neg_req(self) -> bool {
        self.well_formed()
    }

    open spec fn neg_spec(self) -> Self {
        self
    }
}

impl std::ops::Neg for PrimeFieldIns {
    type Output = Self;

    fn neg(self) -> (n: Self)
        ensures
            n.modulus() == self.modulus(),
            n@ == field_neg(self.modulus(), self@),
            n.is_reduced(),
    {
        let residue = biguint_rem(&self.value, &self.prime);
        let complement = biguint_sub(&self.prime, &residue);
        let value = biguint_rem(&complement, &self.prime);
        PrimeFieldIns { prime: self.prime, value }
    }
}

// What `sub` returns is stated in its own contract, over views.
impl SubSpecImpl for PrimeFieldIns {
    open spec fn obeys_sub_spec() -> bool {
        false
    }

    open spec fn sub_req(self, rhs: Self) -> bool {
        self.well_formed()
    }

    open spec fn sub_spec(self, rhs: Self) -> Self {
        self
    }
}

impl std::ops::Sub for PrimeFieldIns {
    type Output = Self;

    fn sub(self, rhs: Self) -> (difference: Self)
        ensures
            difference.modulus() == self.modulus(),
            difference@ == field_sub(self.modulus(), self@, rhs@),
            difference.is_reduced(),
    {
        let negated = std::ops::Neg::neg(
            PrimeFieldIns { prime: biguint_clone(&self.prime), value: rhs.value },
        );
        self + negated
    }
}

// What `div` returns is stated in its own contract, over views.
impl DivSpecImpl for PrimeFieldIns {
    open spec fn obeys_div_spec() -> bool {
        false
    }

    open spec fn div_req(self, rhs: Self) -> bool {
        self.well_formed()
    }

    open spec fn div_spec(self, rhs: Self) -> Self {
        self
    }
}

impl std::ops::Div for PrimeFieldIns {
    type Output = Self;

    fn div(self, rhs: Self) -> (quotient: Self)
        ensures
            quotient.modulus() == self.modulus(),
            quotient@ == field_div(self.modulus(), self@, rhs@),
            quotient.is_reduced(),
    {
        let inverse = PrimeFieldIns {
            prime: biguint_clone(&self.prime),
            value: rhs.value,
        }.mul_inv();
        self * inverse
    }
}

} // verus!
