//! Rings of integers of a fixed width.

pub mod integer;
