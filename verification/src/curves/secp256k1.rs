//! secp256k1: the field of the curve `y² = x³ + 7`.

pub mod ff;
