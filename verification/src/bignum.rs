//! Arbitrary-precision integers.
//!
//! The numbers themselves come from `num_bigint`. This module names the
//! mathematical value of a [`BigUint`] and of a [`BigInt`] and gives each
//! operation the library uses a contract over those values. The contracts in
//! this file are taken on trust from `num_bigint`; everything built on them is
//! proved.

use num::traits::Num;
use num_bigint::BigInt;
use num_bigint::BigUint;
use num_bigint::ParseBigIntError;
use vstd::arithmetic::power2::pow2;
use vstd::prelude::*;

verus! {

/// `num_bigint::BigUint`, an unsigned integer of any size. Its digits are
/// hidden; [`nat_value`] names the number it holds.
#[verifier::external_type_specification]
#[verifier::external_body]
pub struct ExBigUint(BigUint);

/// `num_bigint::BigInt`, a signed integer of any size. Its sign and digits
/// are hidden; [`int_value`] names the number it holds.
#[verifier::external_type_specification]
#[verifier::external_body]
pub struct ExBigInt(BigInt);

/// `num_bigint::ParseBigIntError`, the error of a failed parse. Nothing is
/// read from it.
#[verifier::external_type_specification]
#[verifier::external_body]
pub struct ExParseBigIntError(ParseBigIntError);

/// The natural number that a `BigUint` holds.
pub uninterp spec fn nat_value(n: BigUint) -> nat;

/// The integer that a `BigInt` holds.
pub uninterp spec fn int_value(n: BigInt) -> int;

/// The number written by base-2^32 digits, least significant digit first.
pub open spec fn limbs_value(limbs: Seq<u32>) -> nat
    decreases limbs.len(),
{
    if limbs.len() == 0 {
        0
    } else {
        limbs[0] as nat + 0x1_0000_0000 * limbs_value(limbs.skip(1))
    }
}

/// Whether `c` is one of the ten decimal digits.
pub open spec fn is_decimal_digit(c: char) -> bool {
    '0' <= c <= '9'
}

/// The number written by the decimal digits of `text`, most significant
/// first; an underscore is a separator and adds nothing.
pub open spec fn decimal_value(text: Seq<char>) -> nat
    decreases text.len(),
{
    if text.len() == 0 {
        0
    } else if text.last() == '_' {
        decimal_value(text.drop_last())
    } else {
        (10 * decimal_value(text.drop_last()) + (text.last() as int - '0' as int)) as nat
    }
}

/// Whether `text` is a decimal numeral: not empty, starting with a digit, and
/// made of digits and underscores only.
pub open spec fn is_decimal_numeral(text: Seq<char>) -> bool {
    &&& text.len() > 0
    &&& text[0] != '_'
    &&& forall|i: int| 0 <= i < text.len() ==> is_decimal_digit(#[trigger] text[i]) || text[i] == '_'
}

/// What a decimal text denotes: a numeral, after one optional leading `+`,
/// denotes its value; any other text denotes nothing.
pub open spec fn parse_decimal(text: Seq<char>) -> Option<nat> {
    let body = if text.len() > 0 && text[0] == '+' {
        text.skip(1)
    } else {
        text
    };
    if is_decimal_numeral(body) {
        Some(decimal_value(body))
    } else {
        None
    }
}

/// Integer division that rounds toward zero.
pub open spec fn trunc_div(a: int, b: int) -> int {
    if a >= 0 && b > 0 {
        a / b
    } else if a >= 0 {
        -(a / (-b))
    } else if b > 0 {
        -((-a) / b)
    } else {
        (-a) / (-b)
    }
}

/// The remainder that goes with [`trunc_div`]; it has the sign of `a`.
pub open spec fn trunc_rem(a: int, b: int) -> int {
    a - b * trunc_div(a, b)
}

/// `BigUint::from(u64)`: the number with the same value.
#[verifier::external_body]
pub(crate) fn biguint_from_u64(v: u64) -> (r: BigUint)
    ensures
        nat_value(r) == v as nat,
{
    BigUint::from(v)
}

/// `BigUint::from_slice`: the number whose base-2^32 digits are `limbs`,
/// least significant first.
#[verifier::external_body]
pub(crate) fn biguint_from_slice(limbs: &[u32]) -> (r: BigUint)
    ensures
        nat_value(r) == limbs_value(limbs@),
{
    BigUint::from_slice(limbs)
}

/// `BigUint::from_str_radix` with radix 10: the number that the text denotes,
/// or an error where the text is no decimal numeral.
#[verifier::external_body]
pub(crate) fn biguint_from_decimal(text: &str) -> (r: Result<BigUint, ParseBigIntError>)
    ensures
        match r {
            Ok(n) => parse_decimal(text@) == Some(nat_value(n)),
            Err(_) => parse_decimal(text@) is None,
        },
{
    BigUint::from_str_radix(text, 10)
}

/// `BigUint::clone`: a number of the same value.
#[verifier::external_body]
pub(crate) fn biguint_clone(a: &BigUint) -> (r: BigUint)
    ensures
        nat_value(r) == nat_value(*a),
{
    a.clone()
}

/// `&BigUint + &BigUint`: the sum.
#[verifier::external_body]
pub(crate) fn biguint_add(a: &BigUint, b: &BigUint) -> (r: BigUint)
    ensures
        nat_value(r) == nat_value(*a) + nat_value(*b),
{
    a + b
}

/// `&BigUint - &BigUint`: the difference. The subtraction panics where the
/// result would be negative, so that case is excluded.
#[verifier::external_body]
pub(crate) fn biguint_sub(a: &BigUint, b: &BigUint) -> (r: BigUint)
    requires
        nat_value(*a) >= nat_value(*b),
    ensures
        nat_value(r) == nat_value(*a) - nat_value(*b),
{
    a - b
}

/// `&BigUint * &BigUint`: the product.
#[verifier::external_body]
pub(crate) fn biguint_mul(a: &BigUint, b: &BigUint) -> (r: BigUint)
    ensures
        nat_value(r) == nat_value(*a) * nat_value(*b),
{
    a * b
}

/// `&BigUint % &BigUint`: the remainder. It panics on a zero divisor, so that
/// case is excluded.
#[verifier::external_body]
pub(crate) fn biguint_rem(a: &BigUint, m: &BigUint) -> (r: BigUint)
    requires
        nat_value(*m) > 0,
    ensures
        nat_value(r) == nat_value(*a) % nat_value(*m),
{
    a % m
}

/// `BigUint == BigUint`: whether the two values are the same number.
#[verifier::external_body]
pub(crate) fn biguint_eq(a: &BigUint, b: &BigUint) -> (r: bool)
    ensures
        r == (nat_value(*a) == nat_value(*b)),
{
    a == b
}

/// `&BigUint & &BigUint` with the mask one: the lowest binary digit.
#[verifier::external_body]
pub(crate) fn biguint_bitand(a: &BigUint, mask: &BigUint) -> (r: BigUint)
    requires
        nat_value(*mask) == 1,
    ensures
        nat_value(r) == nat_value(*a) % 2,
{
    a & mask
}

/// `&BigUint >> usize`: the number without its `shift` lowest binary digits.
#[verifier::external_body]
pub(crate) fn biguint_shr(a: &BigUint, shift: usize) -> (r: BigUint)
    ensures
        nat_value(r) == nat_value(*a) / pow2(shift as nat),
{
    a >> shift
}

/// `BigInt::from(BigUint)`: the same number as a signed integer.
#[verifier::external_body]
pub(crate) fn bigint_from_biguint(a: BigUint) -> (r: BigInt)
    ensures
        int_value(r) == nat_value(a),
{
    BigInt::from(a)
}

/// `BigUint::try_from(BigInt)`: the same number as an unsigned integer. The
/// conversion fails on a negative number, so that case is excluded.
#[verifier::external_body]
pub(crate) fn bigint_to_biguint(a: BigInt) -> (r: BigUint)
    requires
        int_value(a) >= 0,
    ensures
        nat_value(r) == int_value(a),
{
    BigUint::try_from(a).unwrap()
}

/// `&BigInt + &BigInt`: the sum.
#[verifier::external_body]
pub(crate) fn bigint_add(a: &BigInt, b: &BigInt) -> (r: BigInt)
    ensures
        int_value(r) == int_value(*a) + int_value(*b),
{
    a + b
}

/// `&BigInt - &BigInt`: the difference.
#[verifier::external_body]
pub(crate) fn bigint_sub(a: &BigInt, b: &BigInt) -> (r: BigInt)
    ensures
        int_value(r) == int_value(*a) - int_value(*b),
{
    a - b
}

/// `&BigInt * &BigInt`: the product.
#[verifier::external_body]
pub(crate) fn bigint_mul(a: &BigInt, b: &BigInt) -> (r: BigInt)
    ensures
        int_value(r) == int_value(*a) * int_value(*b),
{
    a * b
}

/// `&BigInt / &BigInt`: the quotient, rounded toward zero. It panics on a zero
/// divisor, so that case is excluded.
#[verifier::external_body]
pub(crate) fn bigint_div(a: &BigInt, b: &BigInt) -> (r: BigInt)
    requires
        int_value(*b) != 0,
    ensures
        int_value(r) == trunc_div(int_value(*a), int_value(*b)),
{
    a / b
}

/// `&BigInt % &BigInt`: the remainder of the division that rounds toward zero.
/// It panics on a zero divisor, so that case is excluded.
#[verifier::external_body]
pub(crate) fn bigint_rem(a: &BigInt, b: &BigInt) -> (r: BigInt)
    requires
        int_value(*b) != 0,
    ensures
        int_value(r) == trunc_rem(int_value(*a), int_value(*b)),
{
    a % b
}

/// `BigInt == BigInt`: whether the two values are the same number.
#[verifier::external_body]
pub(crate) fn bigint_eq(a: &BigInt, b: &BigInt) -> (r: bool)
    ensures
        r == (int_value(*a) == int_value(*b)),
{
    a == b
}

} // verus!
