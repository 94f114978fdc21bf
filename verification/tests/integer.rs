use klefki::algebra::rings::integer::u256;
use klefki::algebra::traits::Monoid;
use rand::Rng;
use std::cmp::Ordering;

#[test]
fn test_arith() {
    let mut rng = rand::thread_rng();
    let a = u256([
        rng.gen(),
        rng.gen(),
        rng.gen(),
        rng.gen(),
        rng.gen(),
        rng.gen(),
    ]);
    let b = u256([
        rng.gen(),
        rng.gen(),
        rng.gen(),
        rng.gen(),
        rng.gen(),
        rng.gen(),
    ]);
    assert_eq!(a + b, b + a);
    assert_eq!(a + b - a, b);
    assert_eq!(a + b - b, a);

    let mut c = a + b;
    c -= a;
    assert_eq!(c, b);
    c += a;
    assert_eq!(c, a + b);
    assert_eq!(c * 5u64, c + c + c + c + c);
}

#[test]
fn add_carries_across_limbs() {
    let a = u256([u64::MAX, u64::MAX, 0, 0, 0, 0]);
    let b = u256::from(1u64);
    assert_eq!(a + b, u256([0, 0, 1, 0, 0, 0]));
    let (sum, carry) = a.add_carry(b);
    assert_eq!(sum, u256([0, 0, 1, 0, 0, 0]));
    assert_eq!(carry, 0);
}

#[test]
fn add_wraps_at_the_top() {
    let top = u256([u64::MAX; 6]);
    let one = u256::from(1u64);
    assert_eq!(top + one, u256::zero());
    let (sum, carry) = top.add_carry(one);
    assert_eq!(sum, u256::zero());
    assert_eq!(carry, 1);
}

#[test]
fn sub_borrows_across_limbs() {
    let a = u256([0, 0, 1, 0, 0, 0]);
    let b = u256::from(1u64);
    assert_eq!(a - b, u256([u64::MAX, u64::MAX, 0, 0, 0, 0]));
    let (difference, borrow) = a.sub_borrow(b);
    assert_eq!(difference, u256([u64::MAX, u64::MAX, 0, 0, 0, 0]));
    assert_eq!(borrow, 0);
}

#[test]
fn sub_wraps_below_zero() {
    let zero = u256::zero();
    let one = u256::from(1u64);
    assert_eq!(zero - one, u256([u64::MAX; 6]));
    let (difference, borrow) = zero.sub_borrow(one);
    assert_eq!(difference, u256([u64::MAX; 6]));
    assert_eq!(borrow, 1);
}

#[test]
fn mul_carries_across_limbs() {
    let a = u256([u64::MAX, 1, 0, 0, 0, 0]);
    // (2^65 - 1) * 3 = 3 * 2^65 - 3 = 5 * 2^64 + (2^64 - 3)
    assert_eq!(a * 3u64, u256([u64::MAX - 2, 5, 0, 0, 0, 0]));
    let (product, carry) = u256([u64::MAX; 6]).mul_carry(u64::MAX, u64::MAX);
    // (2^384 - 1) * (2^64 - 1) + 2^64 - 1 = (2^64 - 1) * 2^384
    assert_eq!(product, u256::zero());
    assert_eq!(carry, u64::MAX);
}

#[test]
fn order_goes_by_the_highest_limb() {
    let small = u256([u64::MAX, 0, 0, 0, 0, 0]);
    let large = u256([0, 1, 0, 0, 0, 0]);
    assert_eq!(small.cmp(&large), Ordering::Less);
    assert_eq!(large.cmp(&small), Ordering::Greater);
    assert_eq!(large.cmp(&large), Ordering::Equal);
    assert_eq!(small.partial_cmp(&large), Some(Ordering::Less));
    assert!(small < large);
    assert!(large >= small);
    assert!(u256([0, 0, 0, 0, 0, 1]) > u256([u64::MAX, u64::MAX, u64::MAX, u64::MAX, u64::MAX, 0]));
}

#[test]
fn division_rounds_down() {
    let a = u256::from(100u64);
    let b = u256::from(7u64);
    assert_eq!(a / b, u256::from(14u64));
    let (quotient, remainder) = a.div_rem(b);
    assert_eq!(quotient, u256::from(14u64));
    assert_eq!(remainder, u256::from(2u64));
}

#[test]
fn division_of_wide_numbers() {
    // 2^128 / (2^64 + 1) = 2^64 - 1, remainder 1
    let a = u256([0, 0, 1, 0, 0, 0]);
    let b = u256([1, 1, 0, 0, 0, 0]);
    let (quotient, remainder) = a.div_rem(b);
    assert_eq!(quotient, u256::from(u64::MAX));
    assert_eq!(remainder, u256::from(1u64));
    // the largest number by a divisor that fills the top limb
    let top = u256([u64::MAX; 6]);
    let divisor = u256([0, 0, 0, 0, 0, 1 << 63]);
    let (quotient, remainder) = top.div_rem(divisor);
    assert_eq!(quotient, u256::from(1u64));
    assert_eq!(remainder, u256([u64::MAX, u64::MAX, u64::MAX, u64::MAX, u64::MAX, (1 << 63) - 1]));
    assert_eq!(top / top, u256::from(1u64));
    assert_eq!(divisor / top, u256::zero());
}

#[test]
fn division_inverts_multiplication() {
    let mut rng = rand::thread_rng();
    let a = u256([rng.gen(), rng.gen(), rng.gen(), rng.gen(), 0, 0]);
    let k: u64 = rng.gen::<u64>() | 1;
    let product = a * k;
    assert_eq!(product / u256::from(k), a);
    let (quotient, remainder) = (product + u256::from(k - 1)).div_rem(u256::from(k));
    assert_eq!(quotient, a);
    assert_eq!(remainder, u256::from(k - 1));
}

#[test]
fn limbs_are_read_and_written_by_index() {
    let mut a = u256::from(9u64);
    assert_eq!(a[0], 9);
    assert_eq!(a[5], 0);
    a.set(5, 3);
    assert_eq!(a, u256([9, 0, 0, 0, 0, 3]));
    assert!(!a.is_zero());
    assert!(u256::zero().is_zero());
}
