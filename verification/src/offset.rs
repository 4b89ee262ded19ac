//! Displacements between hex cells and the arithmetic over them.

use vstd::prelude::*;

verus! {

/// A directionless displacement between two hex-grid cells, in axial
/// coordinates. The dependent third cube axis is always `-x - y`, so the cube
/// invariant `x + y + z == 0` holds by construction.
#[derive(Clone, Copy, PartialEq, Eq, Structural, Hash, Debug)]
pub struct Offset {
    pub x: i32,
    pub y: i32,
}

impl View for Offset {
    type V = (int, int);

    open spec fn view(&self) -> (int, int) {
        (self.x as int, self.y as int)
    }
}

/// Whether a mathematical integer fits in an `i32`.
pub open spec fn fits_i32(v: int) -> bool {
    i32::MIN <= v <= i32::MAX
}

/// Componentwise sum of two axial vectors.
pub open spec fn plus(a: (int, int), b: (int, int)) -> (int, int) {
    (a.0 + b.0, a.1 + b.1)
}

/// Componentwise difference of two axial vectors.
pub open spec fn minus(a: (int, int), b: (int, int)) -> (int, int) {
    (a.0 - b.0, a.1 - b.1)
}

/// Componentwise scaling of an axial vector.
pub open spec fn times(a: (int, int), k: int) -> (int, int) {
    (a.0 * k, a.1 * k)
}

/// The additive inverse of an axial vector.
pub open spec fn neg_of(a: (int, int)) -> (int, int) {
    times(a, -1)
}

/// Clamping of one axis to the range `[-1, 1]`.
pub open spec fn clamp_unit(v: int) -> int {
    if v < -1 {
        -1
    } else if v > 1 {
        1
    } else {
        v
    }
}

/// Each axis clamped independently to `[-1, 1]`: one of the seven canonical
/// offsets (six unit directions plus zero).
pub open spec fn dir_of(a: (int, int)) -> (int, int) {
    (clamp_unit(a.0), clamp_unit(a.1))
}

impl Offset {
    /// The zero displacement.
    pub fn zero() -> (r: Offset)
        ensures
            r@ == (0int, 0int),
    {
        Offset { x: 0, y: 0 }
    }

    /// The unit displacement one cell to the right.
    pub fn right() -> (r: Offset)
        ensures
            r@ == (1int, 0int),
    {
        Offset { x: 1, y: 0 }
    }

    /// The unit displacement one cell to the left.
    pub fn left() -> (r: Offset)
        ensures
            r@ == (-1int, 0int),
    {
        Offset { x: -1, y: 0 }
    }

    /// The unit displacement one cell up and to the right.
    pub fn up_right() -> (r: Offset)
        ensures
            r@ == (1int, -1int),
    {
        Offset { x: 1, y: -1 }
    }

    /// The unit displacement one cell up and to the left.
    pub fn up_left() -> (r: Offset)
        ensures
            r@ == (0int, -1int),
    {
        Offset { x: 0, y: -1 }
    }

    /// The unit displacement one cell down and to the right.
    pub fn down_right() -> (r: Offset)
        ensures
            r@ == (0int, 1int),
    {
        Offset { x: 0, y: 1 }
    }

    /// The unit displacement one cell down and to the left.
    pub fn down_left() -> (r: Offset)
        ensures
            r@ == (-1int, 1int),
    {
        Offset { x: -1, y: 1 }
    }

    /// An offset from an `(x, y)` pair.
    pub fn from_pair(p: (i32, i32)) -> (r: Offset)
        ensures
            r@ == (p.0 as int, p.1 as int),
    {
        Offset { x: p.0, y: p.1 }
    }

    /// Componentwise vector sum.
    pub fn add(self, other: Offset) -> (r: Offset)
        requires
            fits_i32(self@.0 + other@.0),
            fits_i32(self@.1 + other@.1),
        ensures
            r@ == plus(self@, other@),
    {
        Offset { x: self.x + other.x, y: self.y + other.y }
    }

    /// Componentwise vector difference.
    pub fn sub(self, other: Offset) -> (r: Offset)
        requires
            fits_i32(self@.0 - other@.0),
            fits_i32(self@.1 - other@.1),
        ensures
            r@ == minus(self@, other@),
    {
        Offset { x: self.x - other.x, y: self.y - other.y }
    }

    /// Componentwise scaling by `k`, which may be zero or negative.
    pub fn scale(self, k: i32) -> (r: Offset)
        requires
            fits_i32(self@.0 * k),
            fits_i32(self@.1 * k),
        ensures
            r@ == times(self@, k as int),
    {
        Offset { x: self.x * k, y: self.y * k }
    }

    /// The additive inverse, equivalent to scaling by `-1`.
    pub fn negate(self) -> (r: Offset)
        requires
            fits_i32(-self@.0),
            fits_i32(-self@.1),
        ensures
            r@ == neg_of(self@),
    {
        self.scale(-1)
    }

    /// Clamps each axis independently to `[-1, 1]`, yielding one of the seven
    /// canonical offsets. This is not a geometric normalization: it gives the
    /// true unit direction only for displacements that already lie along a
    /// grid line or a ring edge, which is how the ring walk uses it.
    pub fn direction(&self) -> (r: Offset)
        ensures
            r@ == dir_of(self@),
    {
        let x = if self.x < -1 {
            -1
        } else if self.x > 1 {
            1
        } else {
            self.x
        };
        let y = if self.y < -1 {
            -1
        } else if self.y > 1 {
            1
        } else {
            self.y
        };
        Offset { x, y }
    }
}

/// Offset addition is commutative: `a + b == b + a`.
pub proof fn lemma_add_commutative(a: Offset, b: Offset)
    ensures
        plus(a@, b@) == plus(b@, a@),
{
}

/// Offset addition is associative: `(a + b) + c == a + (b + c)`.
pub proof fn lemma_add_associative(a: Offset, b: Offset, c: Offset)
    ensures
        plus(plus(a@, b@), c@) == plus(a@, plus(b@, c@)),
{
}

/// The zero offset is the additive identity: `a + zero == a`.
pub proof fn lemma_add_zero(a: Offset)
    ensures
        plus(a@, (0int, 0int)) == a@,
{
}

/// Negation yields the additive inverse: `a + (-a) == zero`.
pub proof fn lemma_add_negate(a: Offset)
    ensures
        plus(a@, neg_of(a@)) == (0int, 0int),
{
}

/// Scaling by `-1` coincides with negation.
pub proof fn lemma_scale_negate(a: Offset)
    ensures
        times(a@, -1) == neg_of(a@),
{
}

} // verus!
