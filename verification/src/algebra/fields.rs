//! Prime fields and the integer arithmetic beneath them.

pub mod arithmetic;
pub mod instance;
pub mod prime;
