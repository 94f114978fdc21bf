//! The field of Baby Jubjub.

use crate::algebra::fields::prime::FromBigUint;
use crate::algebra::fields::prime::PrimeField;
use crate::algebra::fields::prime::Property;
use crate::bignum::biguint_clone;
use crate::bignum::biguint_from_slice;
use crate::bignum::limbs_value;
use crate::bignum::nat_value;
use num_bigint::BigUint;
use vstd::prelude::*;

verus! {

/// The order of the field in base-2^32 digits, least significant first.
pub const BABY_JUBJUB_P: [u32; 8] = [
    0xf0000001u32,
    0x43e1f593u32,
    0x79b97091u32,
    0x2833e848u32,
    0x8181585du32,
    0xb85045b6u32,
    0xe131a029u32,
    0x30644e72u32,
];

/// The order of the field.
pub open spec fn baby_jubjub_prime() -> nat {
    21888242871839275222246405745257275088548364400416034343698204186575808495617nat
}

/// A residue of the field of Baby Jubjub.
#[derive(Debug, Eq, PartialEq)]
pub struct BabyJubJubFieldEle {
    pub value: BigUint,
}

impl Clone for BabyJubJubFieldEle {
    fn clone(&self) -> (r: Self)
        ensures
            nat_value(r.value) == nat_value(self.value),
    {
        Self { value: biguint_clone(&self.value) }
    }
}

impl Property for BabyJubJubFieldEle {
    open spec fn prime_spec() -> nat {
        baby_jubjub_prime()
    }

    open spec fn value_spec(&self) -> nat {
        nat_value(self.value)
    }

    proof fn lemma_prime_above_one() {
    }

    fn prime(&self) -> (p: BigUint) {
        let limbs = BABY_JUBJUB_P;
        proof {
            reveal_with_fuel(limbs_value, 9);
        }
        biguint_from_slice(limbs.as_slice())
    }

    fn value(&self) -> (v: BigUint) {
        biguint_clone(&self.value)
    }
}

impl FromBigUint for BabyJubJubFieldEle {
    fn from(value: BigUint) -> (element: Self) {
        Self { value }
    }
}

/// An element of the field of Baby Jubjub.
pub type BabyJubJubField = PrimeField<BabyJubJubFieldEle>;

} // verus!
