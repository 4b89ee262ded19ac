//! Coordinate geometry for hexagonal grids: axial/cube coordinates with the
//! `x + y + z == 0` invariant, displacement arithmetic, rounding of fractional
//! cube coordinates back onto the grid, and enumeration of all cells within a
//! given radius of the origin.

pub mod coordinate;
pub mod offset;
pub mod pixel_orientation;
pub mod rings;
