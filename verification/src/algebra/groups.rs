//! Groups of curve points and the algorithms that work in any group.

pub mod arithmetic;
pub mod ecg;
