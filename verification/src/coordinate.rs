//! Absolute cell positions on the hex grid.

use vstd::prelude::*;
use crate::offset::Offset;
use crate::offset::fits_i32;
use crate::offset::minus;
use crate::offset::plus;

verus! {

/// The dependent third cube axis of an axial pair: `z == -x - y`, so that
/// `x + y + z == 0`.
pub open spec fn third_axis(a: (int, int)) -> int {
    -a.0 - a.1
}

/// An absolute cell position on the hex grid, in axial coordinates. The third
/// cube axis is never stored: it is always derived as `-x - y`, so the cube
/// invariant `x + y + z == 0` cannot be violated. Equality and hashing go by
/// `(x, y)` alone.
#[derive(Clone, Copy, PartialEq, Eq, Structural, Hash, Debug)]
pub struct Coordinate {
    pub x: i32,
    pub y: i32,
}

impl View for Coordinate {
    type V = (int, int);

    open spec fn view(&self) -> (int, int) {
        (self.x as int, self.y as int)
    }
}

impl Coordinate {
    /// The origin cell.
    pub fn center() -> (r: Coordinate)
        ensures
            r@ == (0int, 0int),
    {
        Coordinate { x: 0, y: 0 }
    }

    /// A coordinate from an `(x, y)` pair.
    pub fn from_pair(p: (i32, i32)) -> (r: Coordinate)
        ensures
            r@ == (p.0 as int, p.1 as int),
    {
        Coordinate { x: p.0, y: p.1 }
    }

    /// The derived third cube axis of this cell.
    pub fn z(&self) -> (r: i32)
        requires
            fits_i32(third_axis(self@)),
        ensures
            r as int == third_axis(self@),
    {
        Self::calculate_3rd((self.x, self.y))
    }

    /// The dependent axis `-x - y` completing an axial pair to a cube triple.
    pub fn calculate_3rd(p: (i32, i32)) -> (r: i32)
        requires
            fits_i32(-(p.0 as int) - (p.1 as int)),
        ensures
            r as int == third_axis((p.0 as int, p.1 as int)),
    {
        let t: i64 = -(p.0 as i64) - (p.1 as i64);
        t as i32
    }

    /// The cell reached from this one by the given displacement.
    pub fn add(self, offset: Offset) -> (r: Coordinate)
        requires
            fits_i32(self@.0 + offset@.0),
            fits_i32(self@.1 + offset@.1),
        ensures
            r@ == plus(self@, offset@),
    {
        Coordinate { x: self.x + offset.x, y: self.y + offset.y }
    }

    /// The cells reached from this one by each displacement in turn.
    pub fn add_all(self, offsets: &Vec<Offset>) -> (r: Vec<Coordinate>)
        requires
            forall|i: int|
                0 <= i < offsets@.len() ==> fits_i32(self@.0 + (#[trigger] offsets@[i])@.0)
                    && fits_i32(self@.1 + offsets@[i]@.1),
        ensures
            r@.len() == offsets@.len(),
            forall|i: int|
                0 <= i < offsets@.len() ==> (#[trigger] r@[i])@ == plus(self@, offsets@[i]@),
    {
        let mut result: Vec<Coordinate> = Vec::new();
        let mut idx: usize = 0;
        while idx < offsets.len()
            invariant
                idx <= offsets@.len(),
                result@.len() == idx,
                forall|i: int|
                    0 <= i < offsets@.len() ==> fits_i32(self@.0 + (#[trigger] offsets@[i])@.0)
                        && fits_i32(self@.1 + offsets@[i]@.1),
                forall|i: int|
                    0 <= i < idx ==> (#[trigger] result@[i])@ == plus(self@, offsets@[i]@),
            decreases offsets@.len() - idx,
        {
            result.push(self.add(offsets[idx]));
            idx = idx + 1;
        }
        result
    }

    /// The displacement from `other` to this cell.
    pub fn sub(self, other: Coordinate) -> (r: Offset)
        requires
            fits_i32(self@.0 - other@.0),
            fits_i32(self@.1 - other@.1),
        ensures
            r@ == minus(self@, other@),
    {
        Offset { x: self.x - other.x, y: self.y - other.y }
    }

    /// Resolves independently rounded cube coordinates `(rx, ry, rz)` back to
    /// a valid cell. The caller rounds each fractional cube axis to the
    /// nearest integer and reports, via the two flags, which axis carries the
    /// largest rounding error: `x_largest` says x's error strictly exceeds
    /// both others, and otherwise `y_over_z` says y's error strictly exceeds
    /// z's. The axis with the largest error is discarded and recomputed from
    /// the other two, so ties prefer recomputing z, then y, then x. The third
    /// axis of the result is derived, so the cube invariant holds exactly.
    pub fn resolve_rounding(rx: i32, ry: i32, rz: i32, x_largest: bool, y_over_z: bool) -> (r:
        Coordinate)
        requires
            x_largest ==> fits_i32(-(ry as int) - (rz as int)),
            !x_largest && y_over_z ==> fits_i32(-(rx as int) - (rz as int)),
        ensures
            x_largest ==> r@ == (third_axis((ry as int, rz as int)), ry as int),
            !x_largest && y_over_z ==> r@ == (rx as int, third_axis((rx as int, rz as int))),
            !x_largest && !y_over_z ==> r@ == (rx as int, ry as int),
            x_largest ==> r@.0 + ry + rz == 0,
            !x_largest && y_over_z ==> rx + r@.1 + rz == 0,
            r@.0 + r@.1 + third_axis(r@) == 0,
    {
        if x_largest {
            Coordinate { x: Self::calculate_3rd((ry, rz)), y: ry }
        } else if y_over_z {
            Coordinate { x: rx, y: Self::calculate_3rd((rx, rz)) }
        } else {
            Coordinate { x: rx, y: ry }
        }
    }
}

/// Every coordinate satisfies the cube invariant: its axes together with the
/// derived third axis sum to zero.
pub proof fn lemma_coordinate_cube_invariant(c: Coordinate)
    ensures
        c@.0 + c@.1 + third_axis(c@) == 0,
{
}

/// Every offset satisfies the cube invariant: its axes together with the
/// derived third axis sum to zero.
pub proof fn lemma_offset_cube_invariant(o: Offset)
    ensures
        o@.0 + o@.1 + third_axis(o@) == 0,
{
}

} // verus!
