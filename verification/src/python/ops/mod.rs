//! The interface to command sequences.
pub mod building;
pub mod container;
pub mod copying;
pub mod gcode;
pub mod geometry;
pub mod info;
pub mod layers;
pub mod moving;
pub mod scene;
pub mod sections;
pub mod states;
pub mod timing;
pub mod transform;
