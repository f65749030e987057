//! Core of a grid-world ray-casting renderer.
//!
//! All geometry is carried in fixed-point arithmetic: a coordinate is an
//! `i64` holding the world value times [`casting::constants::SCALE`].

pub mod casting;
pub mod utils;
pub mod world_map;
