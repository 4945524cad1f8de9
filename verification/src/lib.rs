//! Cyclic linear interpolation over a palette of 8-bit RGB colors.
//!
//! Given an ordered, cyclic palette, a step counter, and a step budget per
//! color-to-color segment, the library computes the exactly blended color for
//! that step. Blends round down on ascending channels and up on descending
//! ones, so a ramp never reaches its endpoint early in either direction.

pub mod color;
