//! The interface that Python callers see.
pub mod ops;
