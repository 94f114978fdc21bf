use klefki::algebra::fields::prime::Error;
use klefki::algebra::traits::Field;
use klefki::algebra::traits::Monoid;
use klefki::algebra::traits::MulInv;
use klefki::curves::baby_jubjub::ff::BabyJubJubField;
use klefki::curves::secp256k1::ff::Secp256k1FinateField;
use num_bigint::BigUint;
use std::convert::TryFrom;

fn secp(text: &str) -> Secp256k1FinateField {
    Secp256k1FinateField::try_from(text).unwrap()
}

const SECP256K1_PRIME: &str =
    "115792089237316195423570985008687907853269984665640564039457584007908834671663";
const SECP256K1_PRIME_MINUS_ONE: &str =
    "115792089237316195423570985008687907853269984665640564039457584007908834671662";
const BABY_JUBJUB_PRIME: &str =
    "21888242871839275222246405745257275088548364400416034343698204186575808495617";

#[test]
fn moduli_are_the_published_primes() {
    let a = Secp256k1FinateField::from(0u32);
    assert_eq!(a.prime(), BigUint::parse_bytes(SECP256K1_PRIME.as_bytes(), 10).unwrap());
    let b = BabyJubJubField::from(0u32);
    assert_eq!(b.prime(), BigUint::parse_bytes(BABY_JUBJUB_PRIME.as_bytes(), 10).unwrap());
}

#[test]
fn addition_wraps_at_the_modulus() {
    let a = secp(SECP256K1_PRIME_MINUS_ONE);
    let b = Secp256k1FinateField::from(2u32);
    assert_eq!((a + b).value(), BigUint::from(1u32));
}

#[test]
fn addition_is_commutative_and_associative() {
    let a = secp("98765432109876543210987654321098765432109876543210");
    let b = secp(SECP256K1_PRIME_MINUS_ONE);
    let c = secp("31415926535897932384626433832795028841971693993751");
    assert!(a.clone() + b.clone() == b.clone() + a.clone());
    assert!((a.clone() + b.clone()) + c.clone() == a + (b + c));
}

#[test]
fn negation_is_the_additive_inverse() {
    let a = secp("98765432109876543210987654321098765432109876543210");
    assert!((a.clone() + (-a.clone())).is_zero());
    assert!((a.clone() - a.clone()).is_zero());
    assert_eq!(
        (-Secp256k1FinateField::from(1u32)).value(),
        BigUint::parse_bytes(SECP256K1_PRIME_MINUS_ONE.as_bytes(), 10).unwrap()
    );
}

#[test]
fn negation_of_zero_is_zero() {
    assert!((-Secp256k1FinateField::zero()).is_zero());
    assert_eq!((-Secp256k1FinateField::zero()).value(), BigUint::from(0u32));
}

#[test]
fn negation_reduces_an_unreduced_element() {
    // p + 5 stands for 5; its negation is p - 5
    let p = BigUint::parse_bytes(SECP256K1_PRIME.as_bytes(), 10).unwrap();
    let a = Secp256k1FinateField::from(p.clone() + 5u32);
    assert_eq!((-a).value(), p - 5u32);
}

#[test]
fn multiplication_reduces() {
    let a = secp(SECP256K1_PRIME_MINUS_ONE);
    // (p - 1)^2 = 1 modulo p
    assert!((a.clone() * a).is_one());
}

#[test]
fn inverse_times_element_is_one() {
    let a = secp("98765432109876543210987654321098765432109876543210");
    assert!((a.clone() * a.clone().mul_inv()).is_one());
    assert!((a.clone() / a).is_one());
    let two = BabyJubJubField::from(2u32);
    // the inverse of 2 is (p + 1) / 2
    assert_eq!(
        two.mul_inv().value(),
        BigUint::parse_bytes(
            b"10944121435919637611123202872628637544274182200208017171849102093287904247809",
            10
        )
        .unwrap()
    );
}

#[test]
fn inverse_of_zero_is_reported() {
    let zero = Secp256k1FinateField::zero();
    assert!(matches!(zero.clone().checked_mul_inv(), Err(Error::NotInvertible)));
    // the unchecked inverse returns the reduced coefficient, which is zero
    assert!(zero.mul_inv().is_zero());
    let three = Secp256k1FinateField::from(3u32);
    let inverse = three.clone().checked_mul_inv().unwrap();
    assert!((three * inverse).is_one());
}

#[test]
fn identities_of_the_field() {
    assert_eq!(Secp256k1FinateField::zero().value(), BigUint::from(0u32));
    assert_eq!(Secp256k1FinateField::one().value(), BigUint::from(1u32));
    assert!(!Secp256k1FinateField::one().is_zero());
    assert!(!Secp256k1FinateField::zero().is_one());
}

#[test]
fn elements_from_numbers_are_not_reduced() {
    let p = BigUint::parse_bytes(SECP256K1_PRIME.as_bytes(), 10).unwrap();
    let a = Secp256k1FinateField::from(p.clone());
    assert_eq!(a.value(), p);
    assert!(a != Secp256k1FinateField::zero());
    assert!((a + Secp256k1FinateField::zero()).is_zero());
}

#[test]
fn elements_from_machine_integers() {
    assert_eq!(Secp256k1FinateField::from(65535u16).value(), BigUint::from(65535u32));
    assert_eq!(Secp256k1FinateField::from(4294967295u32).value(), BigUint::from(4294967295u32));
    let limbs: [u32; 2] = [1, 2];
    assert_eq!(Secp256k1FinateField::from(&limbs[..]).value(), BigUint::from(8589934593u64));
    let none: [u32; 0] = [];
    assert!(Secp256k1FinateField::from(&none[..]).is_zero());
}

#[test]
fn decimal_texts() {
    assert_eq!(secp("0012").value(), BigUint::from(12u32));
    assert_eq!(secp("+12").value(), BigUint::from(12u32));
    assert_eq!(secp("1_000").value(), BigUint::from(1000u32));
    assert!(matches!(Secp256k1FinateField::try_from(""), Err(Error::Parse)));
    assert!(matches!(Secp256k1FinateField::try_from("+"), Err(Error::Parse)));
    assert!(matches!(Secp256k1FinateField::try_from("++1"), Err(Error::Parse)));
    assert!(matches!(Secp256k1FinateField::try_from("_1"), Err(Error::Parse)));
    assert!(matches!(Secp256k1FinateField::try_from("-1"), Err(Error::Parse)));
    assert!(matches!(Secp256k1FinateField::try_from("12a"), Err(Error::Parse)));
    assert!(matches!(Secp256k1FinateField::try_from("1 2"), Err(Error::Parse)));
    assert!(matches!(Secp256k1FinateField::try_from("١٢"), Err(Error::Parse)));
}

#[test]
fn clone_keeps_the_residue() {
    let a = secp("98765432109876543210987654321098765432109876543210");
    assert!(a.clone() == a);
    assert_eq!(a.clone().value(), a.value());
}
