//! A sequence of machining commands, and the operations that read, build, split, reorder and
//! correct it.
//!
//! Coordinates, powers and durations are IEEE 754 numbers. The library carries them as bit
//! patterns and decides on them; the arithmetic that makes new ones belongs to the caller.
use vstd::prelude::*;

pub mod binary64;
pub mod error;
pub mod ops;
pub mod python;
pub mod text;

verus! {

} // verus!
