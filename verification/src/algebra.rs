//! Algebraic structures: fields, groups, rings and the capabilities they
//! offer.

pub mod fields;
pub mod groups;
pub mod rings;
pub mod traits;
