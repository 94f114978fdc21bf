//! Arithmetic for elliptic-curve cryptography, with every operation stated
//! over mathematical integers and proved.
//!
//! - [`algebra::traits`]: the capabilities of algebraic structures, from
//!   groupoid to field.
//! - [`algebra::fields`]: the extended Euclidean algorithm, inverses modulo a
//!   number, and the elements of a prime field.
//! - [`algebra::groups`]: multiplication by doubling and adding, the addition
//!   law of curves in Weierstrass form, and the group of points of a curve.
//! - [`algebra::rings`]: unsigned integers of a fixed width.
//! - [`curves`]: the fields of Baby Jubjub and secp256k1, and the curve
//!   Baby Jubjub.
//! - [`bignum`]: what is taken on trust from the big-integer crate.

pub mod algebra;
pub mod bignum;
pub mod curves;
