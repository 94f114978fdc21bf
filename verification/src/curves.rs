//! Fields and curves with their published parameters.

pub mod baby_jubjub;
pub mod secp256k1;
