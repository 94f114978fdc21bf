use klefki::algebra::fields::arithmetic::extended_euclidean_algorithm;
use num_bigint::BigInt;
use num_bigint::BigUint;

fn eea(a: u64, b: u64) -> (BigInt, BigInt, BigInt) {
    extended_euclidean_algorithm(BigUint::from(a), BigUint::from(b))
}

fn triple(g: i64, x: i64, y: i64) -> (BigInt, BigInt, BigInt) {
    (BigInt::from(g), BigInt::from(x), BigInt::from(y))
}

#[test]
fn exact_coefficients() {
    assert_eq!(eea(240, 46), triple(2, -9, 47));
    assert_eq!(eea(46, 240), triple(2, 47, -9));
    assert_eq!(eea(2, 7), triple(1, -3, 1));
    assert_eq!(eea(3, 7), triple(1, -2, 1));
}

#[test]
fn zero_second_argument() {
    assert_eq!(eea(5, 0), triple(5, 1, 0));
    assert_eq!(eea(0, 0), triple(0, 1, 0));
}

#[test]
fn zero_first_argument() {
    assert_eq!(eea(0, 5), triple(5, 0, 1));
}

#[test]
fn one_and_a_prime() {
    for p in [2u64, 3, 5, 13, 65537, 18446744073709551557] {
        assert_eq!(eea(1, p), triple(1, 1, 0));
    }
    // the modulus one is no prime, and the coefficients differ
    assert_eq!(eea(1, 1), triple(1, 0, 1));
}

#[test]
fn bezout_identity_on_large_numbers() {
    let a = BigUint::parse_bytes(b"98765432109876543210987654321098765432109876543210", 10).unwrap();
    let b = BigUint::parse_bytes(
        b"115792089237316195423570985008687907853269984665640564039457584007908834671663",
        10,
    )
    .unwrap();
    let (g, x, y) = extended_euclidean_algorithm(a.clone(), b.clone());
    assert_eq!(g, BigInt::from(1));
    assert_eq!(BigInt::from(a) * x + BigInt::from(b) * y, g);
}
