use klefki::algebra::groups::arithmetic::bits;
use klefki::algebra::groups::arithmetic::double_and_add_algorithm;
use klefki::algebra::groups::arithmetic::short_weierstrass_form_curve_op;
use klefki::algebra::rings::integer::u256;
use klefki::algebra::traits::Monoid;
use klefki::curves::secp256k1::ff::Secp256k1FinateField;
use num_bigint::BigUint;

fn hex(text: &str) -> Secp256k1FinateField {
    Secp256k1FinateField::from(BigUint::parse_bytes(text.as_bytes(), 16).unwrap())
}

fn zero() -> Secp256k1FinateField {
    Secp256k1FinateField::zero()
}

fn secp256k1_add(
    p: (Secp256k1FinateField, Secp256k1FinateField),
    q: (Secp256k1FinateField, Secp256k1FinateField),
) -> (Secp256k1FinateField, Secp256k1FinateField) {
    short_weierstrass_form_curve_op(p.0, p.1, q.0, q.1, zero(), zero(), zero(), zero())
}

fn generator() -> (Secp256k1FinateField, Secp256k1FinateField) {
    (
        hex("79BE667EF9DCBBAC55A06295CE870B07029BFCDB2DCE28D959F2815B16F81798"),
        hex("483ADA7726A3C4655DA4FBFC0E1108A8FD17B448A68554199C47D08FFB10D4B8"),
    )
}

fn twice_generator() -> (Secp256k1FinateField, Secp256k1FinateField) {
    (
        hex("C6047F9441ED7D6D3045406E95C07CD85C778E4B8CEF3CA7ABAC09B95C709EE5"),
        hex("1AE168FEA63DC339A3C58419466CEAEEF7F632653266D0E1236431A950CFE52A"),
    )
}

fn thrice_generator() -> (Secp256k1FinateField, Secp256k1FinateField) {
    (
        hex("F9308A019258C31049344F85F89D5229B531C845836F99B08601F113BCE036F9"),
        hex("388F7B0F632DE8140FE337E62A37F3566500A99934C2231B6CB9FD7584B8E672"),
    )
}

#[test]
fn weierstrass_doubling() {
    let sum = secp256k1_add(generator(), generator());
    assert!(sum == twice_generator());
}

#[test]
fn weierstrass_addition_of_distinct_points() {
    let sum = secp256k1_add(twice_generator(), generator());
    assert!(sum == thrice_generator());
    let sum = secp256k1_add(generator(), twice_generator());
    assert!(sum == thrice_generator());
}

#[test]
fn weierstrass_identity_on_either_side() {
    assert!(secp256k1_add((zero(), zero()), generator()) == generator());
    assert!(secp256k1_add(generator(), (zero(), zero())) == generator());
    assert!(secp256k1_add((zero(), zero()), (zero(), zero())) == (zero(), zero()));
}

#[test]
fn weierstrass_point_plus_mirror_image_is_infinity() {
    let (x, y) = generator();
    let sum = secp256k1_add(generator(), (x, -y));
    assert!(sum == (zero(), zero()));
}

#[test]
fn weierstrass_vertical_tangent_gives_infinity() {
    // on y^2 = x^3 + 7 the tangent is vertical where y is zero
    let point = (hex("5"), zero());
    let sum = secp256k1_add(point.clone(), point);
    assert!(sum == (zero(), zero()));
}

#[test]
fn binary_digits_least_significant_first() {
    let digits = bits(BigUint::from(6u32));
    assert_eq!(digits, vec![BigUint::from(0u32), BigUint::from(1u32), BigUint::from(1u32)]);
    assert_eq!(bits(BigUint::from(0u32)), Vec::<BigUint>::new());
    assert_eq!(bits(BigUint::from(1u32)), vec![BigUint::from(1u32)]);
}

#[test]
fn double_and_add_in_a_field() {
    let x = Secp256k1FinateField::from(7u32);
    let product = double_and_add_algorithm(BigUint::from(13u32), x, zero());
    assert_eq!(product.value(), BigUint::from(91u32));
}

#[test]
fn double_and_add_with_zero_times_returns_init() {
    let x = Secp256k1FinateField::from(7u32);
    let init = Secp256k1FinateField::from(5u32);
    let product = double_and_add_algorithm(BigUint::from(0u32), x, init);
    assert_eq!(product.value(), BigUint::from(5u32));
}

#[test]
fn double_and_add_adds_to_init() {
    let x = Secp256k1FinateField::from(7u32);
    let init = Secp256k1FinateField::from(5u32);
    let product = double_and_add_algorithm(BigUint::from(10u32), x, init);
    assert_eq!(product.value(), BigUint::from(75u32));
}

#[test]
fn double_and_add_on_wrapping_integers() {
    let x = u256([u64::MAX, 0, 0, 0, 0, 0]);
    let product = double_and_add_algorithm(BigUint::from(3u32), x, u256::zero());
    assert_eq!(product, u256([u64::MAX - 2, 2, 0, 0, 0, 0]));
}
