//! Screen-axis sign conventions for pixel projection.

use vstd::prelude::*;

verus! {

/// Which screen direction corresponds to increasing grid coordinates.
/// Projected pixel components are negated on each axis whose flag is false,
/// matching hosts whose screen axes run the other way (for example screens
/// whose Y grows downward, which want `up_increasing == false`).
#[derive(Clone, Copy, PartialEq, Eq, Structural, Debug)]
pub struct PixelOrientation {
    pub right_increasing: bool,
    pub up_increasing: bool,
}

} // verus!
