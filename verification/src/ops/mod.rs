//! Machining commands and the sequences they form.
pub mod command;
pub mod container;
pub mod section;
pub mod transform;
