//! The interface to the transformers.
pub mod bidir_scan_offset;
