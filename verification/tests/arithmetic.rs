use klefki::algebra::fields::arithmetic::extended_euclidean_algorithm;
use num::traits::{One, Zero};
use num_bigint::BigInt;
use num_bigint::BigUint;

#[test]
fn it_works() {
    assert_eq!(2 + 2, 4);
}

#[test]
fn test_modinv() {
    let a = BigUint::one();
    let b = BigUint::from(13u16);
    let (r, s, t) = extended_euclidean_algorithm(a.clone(), b.clone());
    assert_eq!(r.clone(), BigInt::one());
    assert_eq!(s.clone(), BigInt::one());
    assert_eq!(t.clone(), BigInt::zero());
}
