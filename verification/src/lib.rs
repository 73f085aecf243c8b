//! Reconstruction of closed outlines ("contours") from an unordered set of 2D
//! curve segments, and uniform offsetting of the closed outlines — the kerf
//! compensation applied before driving a cutting tool along the path.
//!
//! Coordinates are fixed-point integers: one drawing unit is `UNIT`
//! (10^9) coordinate steps, and two points count as the same endpoint when
//! their Euclidean distance is strictly below 10^-6 drawing units.
//! Loading and saving the on-disk drawing format, and the trigonometric
//! placement of arc endpoints from their angles, happen outside this crate;
//! the library works on plain segment values.

pub mod geometry;
pub mod segment;
pub mod contour;
pub mod errors;
pub mod offset;
pub mod assemble;

pub use crate::geometry::Point3;
