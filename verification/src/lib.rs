//! Axis-aligned bounding regions in any fixed number of dimensions.
//!
//! A region is a pair of corner points, `lower` and `upper`. Coordinates are
//! IEEE 754 binary64 numbers, held as their 64-bit encodings so that every
//! comparison the library makes is an integer fact that can be proved. An
//! encoding is what `to_bits` gives for a double-precision number and what
//! `from_bits` takes; a single-precision number widens to double precision
//! without loss and keeps its place in the order.
//! [`binary64`] defines the ordering of encodings, [`value`] proves it to be
//! the ordering of the numbers encoded, [`region`] holds the bounding region
//! itself and [`laws`] what is true of it.

pub mod binary64;
pub mod laws;
pub mod region;
pub mod value;
mod vector;

pub use region::{
    BoundingBox, BoundingRange, BoundingSpace1, BoundingSpace2, BoundingSpace3, BoundingSpaceN,
    BoundingSquare, Region,
};
