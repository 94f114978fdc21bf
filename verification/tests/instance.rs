use klefki::algebra::fields::instance::PrimeFieldIns;
use num_bigint::BigUint;

fn element(value: u32) -> PrimeFieldIns {
    PrimeFieldIns { prime: BigUint::from(13u32), value: BigUint::from(value) }
}

#[test]
fn operations_keep_the_modulus() {
    let sum = element(7) + element(9);
    assert_eq!(*sum.prime(), BigUint::from(13u32));
    assert_eq!(*sum.value(), BigUint::from(3u32));
    let product = element(7) * element(9);
    assert_eq!(*product.prime(), BigUint::from(13u32));
    assert_eq!(*product.value(), BigUint::from(11u32));
}

#[test]
fn negation_and_subtraction() {
    assert_eq!(*(-element(5)).value(), BigUint::from(8u32));
    assert_eq!(*(-element(0)).value(), BigUint::from(0u32));
    assert_eq!(*(element(3) - element(5)).value(), BigUint::from(11u32));
    assert!(element(4) - element(4) == element(0));
}

#[test]
fn inverse_and_division() {
    // 2 * 7 = 14 = 1 modulo 13
    assert_eq!(*element(2).mul_inv().value(), BigUint::from(7u32));
    assert_eq!(*(element(6) / element(2)).value(), BigUint::from(3u32));
    assert!(element(5) / element(5) == element(1));
}

#[test]
fn equality_compares_residues_only() {
    let a = PrimeFieldIns { prime: BigUint::from(13u32), value: BigUint::from(4u32) };
    let b = PrimeFieldIns { prime: BigUint::from(17u32), value: BigUint::from(4u32) };
    assert!(a == b);
    assert!(a != element(5));
}

#[test]
fn the_residue_can_be_replaced() {
    let mut a = element(4);
    a.set_value(BigUint::from(6u32));
    assert_eq!(*a.value(), BigUint::from(6u32));
    assert_eq!(*a.prime(), BigUint::from(13u32));
    assert!(a.clone() == a);
}

#[test]
fn a_modulus_below_two_is_refused() {
    assert!(PrimeFieldIns::new(BigUint::from(0u32), BigUint::from(4u32)).is_none());
    assert!(PrimeFieldIns::new(BigUint::from(1u32), BigUint::from(4u32)).is_none());
    let a = PrimeFieldIns::new(BigUint::from(2u32), BigUint::from(5u32)).unwrap();
    assert_eq!(*a.prime(), BigUint::from(2u32));
    assert_eq!(*a.value(), BigUint::from(5u32));
    let sum = a.clone() + a;
    assert_eq!(*sum.value(), BigUint::from(0u32));
}
