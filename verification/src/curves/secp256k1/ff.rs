//! The field of secp256k1.

use crate::algebra::fields::prime::FromBigUint;
use crate::algebra::fields::prime::PrimeField;
use crate::algebra::fields::prime::Property;
use crate::bignum::biguint_clone;
use crate::bignum::biguint_from_slice;
use crate::bignum::limbs_value;
use crate::bignum::nat_value;
use num_bigint::BigUint;
use vstd::prelude::*;

verus! {

/// The order of the field, `2^256 - 2^32 - 977`, in base-2^32 digits, least
/// significant first.
pub const SECP256K1_P: [u32; 8] = [
    0xfffffc2fu32,
    0xfffffffeu32,
    0xffffffffu32,
    0xffffffffu32,
    0xffffffffu32,
    0xffffffffu32,
    0xffffffffu32,
    0xffffffffu32,
];

/// The order of the field, `2^256 - 2^32 - 977`.
pub open spec fn secp256k1_prime() -> nat {
    115792089237316195423570985008687907853269984665640564039457584007908834671663nat
}

/// A residue of the field of secp256k1.
#[derive(Debug, Eq, PartialEq)]
pub struct Secp256k1FieldEle {
    pub value: BigUint,
}

impl Clone for Secp256k1FieldEle {
    fn clone(&self) -> (r: Self)
        ensures
            nat_value(r.value) == nat_value(self.value),
    {
        Self { value: biguint_clone(&self.value) }
    }
}

impl Property for Secp256k1FieldEle {
    open spec fn prime_spec() -> nat {
        secp256k1_prime()
    }

    open spec fn value_spec(&self) -> nat {
        nat_value(self.value)
    }

    proof fn lemma_prime_above_one() {
    }

    fn prime(&self) -> (p: BigUint) {
        let limbs = SECP256K1_P;
        proof {
            reveal_with_fuel(limbs_value, 9);
        }
        biguint_from_slice(limbs.as_slice())
    }

    fn value(&self) -> (v: BigUint) {
        biguint_clone(&self.value)
    }
}

impl FromBigUint for Secp256k1FieldEle {
    fn from(value: BigUint) -> (element: Self) {
        Self { value }
    }
}

/// An element of the field of secp256k1.
pub type Secp256k1FinateField = PrimeField<Secp256k1FieldEle>;

} // verus!
