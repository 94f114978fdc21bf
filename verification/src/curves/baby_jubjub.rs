//! Baby Jubjub: a twisted Edwards curve over the scalar field of BN254.

pub mod curve;
pub mod ff;
