//! Enumeration of every cell within a given radius of the origin, walking the
//! six edges of each concentric ring from the outermost ring inward.

use vstd::prelude::*;
use crate::offset::Offset;
use crate::offset::dir_of;
use crate::offset::minus;
use crate::offset::plus;
use crate::offset::times;

verus! {

/// The unit step direction along edge `e` of a ring, for the six edges in
/// walk order: toward the down-left, left, up-left, up-right, right and
/// down-right corners.
pub open spec fn edge_dir(e: int) -> (int, int) {
    if e == 0 {
        (-1int, 1int)
    } else if e == 1 {
        (-1int, 0int)
    } else if e == 2 {
        (0int, -1int)
    } else if e == 3 {
        (1int, -1int)
    } else if e == 4 {
        (1int, 0int)
    } else {
        (0int, 1int)
    }
}

/// The corner of ring `r` at which edge `e` starts. The walk begins at the
/// right corner `(r, 0)`, and each edge ends at the start of the next.
pub open spec fn edge_start(r: int, e: int) -> (int, int) {
    if e == 0 {
        (r, 0int)
    } else if e == 1 {
        (0int, r)
    } else if e == 2 {
        (-r, r)
    } else if e == 3 {
        (-r, 0int)
    } else if e == 4 {
        (0int, -r)
    } else {
        (r, -r)
    }
}

/// The `j`-th cell emitted while walking edge `e` of ring `r`.
pub open spec fn ring_pt(r: int, e: int, j: int) -> (int, int) {
    plus(edge_start(r, e), times(edge_dir(e), j))
}

/// The `r` cells emitted along edge `e` of ring `r`, in walk order. The
/// starting corner is not included: it is the last cell of the previous edge.
pub open spec fn edge_seq(r: int, e: int) -> Seq<(int, int)> {
    Seq::new(r as nat, |k: int| ring_pt(r, e, k + 1))
}

/// All `6 * r` cells of ring `r`, in walk order.
pub open spec fn ring_seq(r: int) -> Seq<(int, int)> {
    edge_seq(r, 0) + edge_seq(r, 1) + edge_seq(r, 2) + edge_seq(r, 3) + edge_seq(r, 4) + edge_seq(
        r,
        5,
    )
}

/// Every cell within radius `r` of the origin: ring `r` first, then ring
/// `r - 1`, and so on, ending with the origin itself.
pub open spec fn hex_seq(r: int) -> Seq<(int, int)>
    decreases r,
{
    if r <= 0 {
        seq![(0int, 0int)]
    } else {
        ring_seq(r) + hex_seq(r - 1)
    }
}

/// The axial views of a sequence of offsets.
pub open spec fn view_seq(s: Seq<Offset>) -> Seq<(int, int)> {
    s.map_values(|o: Offset| o@)
}

/// A product with a factor in `[-1, 1]` reduces to the other factor, its
/// negation, or zero. Stated as a lemma because scaling a symbolic unit
/// direction is nonlinear arithmetic.
proof fn lemma_mul_unit(c: int, m: int)
    requires
        -1 <= c <= 1,
    ensures
        c == 1 ==> c * m == m,
        c == 0 ==> c * m == 0,
        c == -1 ==> c * m == -m,
{
    assert(c == 1 ==> c * m == m) by (nonlinear_arith);
    assert(c == 0 ==> c * m == 0) by (nonlinear_arith);
    assert(c == -1 ==> c * m == -m) by (nonlinear_arith);
}

/// Pins down both components of `times(edge_dir(e), m)` for linear reasoning.
proof fn lemma_edge_dir_scale(e: int, m: int)
    requires
        0 <= e < 6,
    ensures
        -1 <= edge_dir(e).0 <= 1,
        -1 <= edge_dir(e).1 <= 1,
        !(edge_dir(e).0 == 0 && edge_dir(e).1 == 0),
        edge_dir(e).0 == 1 ==> edge_dir(e).0 * m == m,
        edge_dir(e).0 == 0 ==> edge_dir(e).0 * m == 0,
        edge_dir(e).0 == -1 ==> edge_dir(e).0 * m == -m,
        edge_dir(e).1 == 1 ==> edge_dir(e).1 * m == m,
        edge_dir(e).1 == 0 ==> edge_dir(e).1 * m == 0,
        edge_dir(e).1 == -1 ==> edge_dir(e).1 * m == -m,
{
    lemma_mul_unit(edge_dir(e).0, m);
    lemma_mul_unit(edge_dir(e).1, m);
}

/// Walks one ring edge: starting from the corner `edge_start(r, e)` held in
/// `current`, steps toward `vertex` one cell at a time, appending each cell
/// reached, until `vertex` itself has been appended.
fn walk_edge(
    vertex: Offset,
    current: &mut Offset,
    output: &mut Vec<Offset>,
    Ghost(r): Ghost<int>,
    Ghost(e): Ghost<int>,
)
    requires
        1 <= r <= 0xffff,
        0 <= e < 6,
        old(current)@ == edge_start(r, e),
        vertex@ == ring_pt(r, e, r),
    ensures
        *final(current) == vertex,
        final(output)@.len() == old(output)@.len() + r,
        view_seq(final(output)@) == view_seq(old(output)@) + edge_seq(r, e),
{
    let ghost init_len: int = output@.len() as int;
    let ghost init_out = output@;
    let ghost mut j: int = 0;
    proof {
        lemma_edge_dir_scale(e, 0);
        assert(current@ == ring_pt(r, e, 0));
    }
    while *current != vertex
        invariant
            1 <= r <= 0xffff,
            0 <= e < 6,
            0 <= j <= r,
            current@ == ring_pt(r, e, j),
            vertex@ == ring_pt(r, e, r),
            output@.len() == init_len + j,
            init_out.len() == init_len,
            forall|i: int| 0 <= i < init_len ==> output@[i] == init_out[i],
            forall|k: int|
                0 <= k < j ==> (#[trigger] output@[init_len + k])@ == ring_pt(r, e, k + 1),
        decreases r - j,
    {
        proof {
            lemma_edge_dir_scale(e, j);
            lemma_edge_dir_scale(e, r);
            if j == r {
                assert(current@ == vertex@);
                assert(*current == vertex);
            }
            assert(j < r);
            lemma_edge_dir_scale(e, r - j);
            lemma_edge_dir_scale(e, j + 1);
            assert(minus(vertex@, current@) == times(edge_dir(e), r - j));
        }
        let step = vertex.sub(*current).direction();
        proof {
            assert(step@ == dir_of(times(edge_dir(e), r - j)));
            assert(step@ == edge_dir(e));
        }
        let next = (*current).add(step);
        proof {
            assert(next@ == ring_pt(r, e, j + 1));
        }
        *current = next;
        output.push(next);
        proof {
            j = j + 1;
        }
    }
    proof {
        if j < r {
            lemma_edge_dir_scale(e, j);
            lemma_edge_dir_scale(e, r);
            assert(current@ == vertex@);
            assert(false);
        }
        assert(j == r);
        assert forall|i: int|
            0 <= i < init_len + r implies view_seq(output@)[i] == (view_seq(init_out) + edge_seq(
            r,
            e,
        ))[i] by {
            assert(view_seq(output@)[i] == output@[i]@);
            if i < init_len {
                assert(output@[i] == init_out[i]);
                assert(view_seq(init_out)[i] == init_out[i]@);
            } else {
                assert(output@[init_len + (i - init_len)]@ == ring_pt(r, e, (i - init_len) + 1));
                assert(edge_seq(r, e)[i - init_len] == ring_pt(r, e, (i - init_len) + 1));
            }
        }
        assert(view_seq(output@) =~= view_seq(init_out) + edge_seq(r, e));
    }
}

/// Concatenating offset sequences and taking views commute.
proof fn lemma_view_seq_concat(a: Seq<Offset>, b: Seq<Offset>)
    ensures
        view_seq(a + b) == view_seq(a) + view_seq(b),
{
    assert(view_seq(a + b) =~= view_seq(a) + view_seq(b));
}

impl Offset {
    /// Every cell within `radius` rings of the origin, each exactly once, as
    /// displacements from the center: the outermost ring first, walked edge
    /// by edge from the right corner, then the next ring inward, and so on,
    /// ending with the origin itself. The result holds
    /// `1 + 3 * radius * (radius + 1)` cells.
    pub fn fill_hex(radius: u16) -> (result: Vec<Offset>)
        ensures
            view_seq(result@) == hex_seq(radius as int),
            result@.len() == 1 + 3 * (radius as int) * (radius as int + 1),
        decreases radius,
    {
        proof {
            lemma_hex_seq_len(radius as int);
        }
        if radius == 0 {
            let mut result: Vec<Offset> = Vec::new();
            result.push(Offset::zero());
            proof {
                assert(view_seq(result@) =~= hex_seq(0));
            }
            result
        } else {
            let r: i32 = radius as i32;
            let ghost ri: int = radius as int;
            let d0 = Offset::down_right();
            let d1 = Offset::down_left();
            let d2 = Offset::left();
            let d3 = Offset::up_left();
            let d4 = Offset::up_right();
            let d5 = Offset::right();
            proof {
                assert(r as int == ri);
                lemma_mul_unit(d0@.0, ri);
                lemma_mul_unit(d0@.1, ri);
                lemma_mul_unit(d1@.0, ri);
                lemma_mul_unit(d1@.1, ri);
                lemma_mul_unit(d2@.0, ri);
                lemma_mul_unit(d2@.1, ri);
                lemma_mul_unit(d3@.0, ri);
                lemma_mul_unit(d3@.1, ri);
                lemma_mul_unit(d4@.0, ri);
                lemma_mul_unit(d4@.1, ri);
                lemma_mul_unit(d5@.0, ri);
                lemma_mul_unit(d5@.1, ri);
            }
            let v0 = d0.scale(r);
            let v1 = d1.scale(r);
            let v2 = d2.scale(r);
            let v3 = d3.scale(r);
            let v4 = d4.scale(r);
            let v5 = d5.scale(r);
            let mut current = v5;
            let mut output: Vec<Offset> = Vec::new();
            proof {
                assert(current@ == edge_start(ri, 0));
                assert(v0@ == ring_pt(ri, 0, ri) && v0@ == edge_start(ri, 1));
                assert(v1@ == ring_pt(ri, 1, ri) && v1@ == edge_start(ri, 2));
                assert(v2@ == ring_pt(ri, 2, ri) && v2@ == edge_start(ri, 3));
                assert(v3@ == ring_pt(ri, 3, ri) && v3@ == edge_start(ri, 4));
                assert(v4@ == ring_pt(ri, 4, ri) && v4@ == edge_start(ri, 5));
                assert(v5@ == ring_pt(ri, 5, ri));
            }
            walk_edge(v0, &mut current, &mut output, Ghost(ri), Ghost(0));
            walk_edge(v1, &mut current, &mut output, Ghost(ri), Ghost(1));
            walk_edge(v2, &mut current, &mut output, Ghost(ri), Ghost(2));
            walk_edge(v3, &mut current, &mut output, Ghost(ri), Ghost(3));
            walk_edge(v4, &mut current, &mut output, Ghost(ri), Ghost(4));
            walk_edge(v5, &mut current, &mut output, Ghost(ri), Ghost(5));
            proof {
                assert(view_seq(output@) =~= ring_seq(ri));
            }
            let mut rest = Self::fill_hex(radius - 1);
            let ghost ring_part = output@;
            let ghost rest_part = rest@;
            proof {
                lemma_view_seq_concat(ring_part, rest_part);
            }
            output.append(&mut rest);
            proof {
                assert(output@ == ring_part + rest_part);
                assert(hex_seq(ri) == ring_seq(ri) + hex_seq(ri - 1));
                assert(view_seq(output@) == hex_seq(ri));
            }
            output
        }
    }
}

/// Law: the enumeration within radius `r` holds exactly `1 + 3*r*(r+1)`
/// cells: one for the origin plus `6*k` for each ring `k` up to `r`.
pub proof fn lemma_hex_seq_len(r: int)
    requires
        0 <= r,
    ensures
        hex_seq(r).len() == 1 + 3 * r * (r + 1),
    decreases r,
{
    if r == 0 {
        assert(hex_seq(0).len() == 1);
        assert(1 + 3 * 0 * (0 + 1) == 1) by (nonlinear_arith);
        assert(hex_seq(r).len() == 1 + 3 * r * (r + 1)) by (nonlinear_arith)
            requires
                r == 0,
                hex_seq(r).len() == 1,
        ;
    } else {
        lemma_hex_seq_len(r - 1);
        let prev: int = hex_seq(r - 1).len() as int;
        assert(ring_seq(r).len() == 6 * r);
        assert(hex_seq(r).len() == 6 * r + prev);
        assert(6 * r + prev == 1 + 3 * r * (r + 1)) by (nonlinear_arith)
            requires
                1 <= r,
                prev == 1 + 3 * (r - 1) * ((r - 1) + 1),
        ;
    }
}

/// The absolute value of one axis.
pub open spec fn iabs(v: int) -> int {
    if v < 0 {
        -v
    } else {
        v
    }
}

/// Twice the hex-grid distance of a cell from the origin:
/// `|x| + |y| + |x + y|`.
pub open spec fn dist2(a: (int, int)) -> int {
    iabs(a.0) + iabs(a.1) + iabs(a.0 + a.1)
}

/// Every cell of ring `r` lies at hex distance exactly `r` from the origin.
proof fn lemma_ring_pt_dist(r: int, e: int, j: int)
    requires
        1 <= r,
        0 <= e < 6,
        1 <= j <= r,
    ensures
        dist2(ring_pt(r, e, j)) == 2 * r,
{
    lemma_edge_dir_scale(e, j);
}

/// Distinct walk positions on one ring are distinct cells.
proof fn lemma_ring_pt_injective(r: int, e1: int, j1: int, e2: int, j2: int)
    requires
        1 <= r,
        0 <= e1 < 6,
        1 <= j1 <= r,
        0 <= e2 < 6,
        1 <= j2 <= r,
        ring_pt(r, e1, j1) == ring_pt(r, e2, j2),
    ensures
        e1 == e2 && j1 == j2,
{
    lemma_edge_dir_scale(e1, j1);
    lemma_edge_dir_scale(e2, j2);
}

/// Locates index `i` of `ring_seq(r)` on its edge: returns the pair of the
/// edge number and the position on that edge.
proof fn ring_index_of(r: int, i: int) -> (ek: (int, int))
    requires
        1 <= r,
        0 <= i < 6 * r,
    ensures
        0 <= ek.0 < 6,
        0 <= ek.1 < r,
        i == ek.0 * r + ek.1,
        ring_seq(r)[i] == ring_pt(r, ek.0, ek.1 + 1),
{
    if i < r {
        assert(ring_seq(r)[i] == edge_seq(r, 0)[i]);
        (0, i)
    } else if i < 2 * r {
        assert(ring_seq(r)[i] == edge_seq(r, 1)[i - r]);
        (1, i - r)
    } else if i < 3 * r {
        assert(ring_seq(r)[i] == edge_seq(r, 2)[i - 2 * r]);
        (2, i - 2 * r)
    } else if i < 4 * r {
        assert(ring_seq(r)[i] == edge_seq(r, 3)[i - 3 * r]);
        (3, i - 3 * r)
    } else if i < 5 * r {
        assert(ring_seq(r)[i] == edge_seq(r, 4)[i - 4 * r]);
        (4, i - 4 * r)
    } else {
        assert(ring_seq(r)[i] == edge_seq(r, 5)[i - 5 * r]);
        (5, i - 5 * r)
    }
}

/// All cells of one ring are pairwise distinct.
proof fn lemma_ring_seq_unique(r: int)
    requires
        1 <= r,
    ensures
        forall|i1: int, i2: int| 0 <= i1 < i2 < 6 * r ==> ring_seq(r)[i1] != ring_seq(r)[i2],
{
    assert forall|i1: int, i2: int|
        0 <= i1 < i2 < 6 * r implies ring_seq(r)[i1] != ring_seq(r)[i2] by {
        let ek1 = ring_index_of(r, i1);
        let ek2 = ring_index_of(r, i2);
        if ring_seq(r)[i1] == ring_seq(r)[i2] {
            lemma_ring_pt_injective(r, ek1.0, ek1.1 + 1, ek2.0, ek2.1 + 1);
            assert(i1 == i2);
        }
    }
}

/// Every cell within radius `r` lies within hex distance `r` of the origin.
proof fn lemma_hex_seq_dist(r: int)
    requires
        0 <= r,
    ensures
        forall|i: int| 0 <= i < hex_seq(r).len() ==> dist2(#[trigger] hex_seq(r)[i]) <= 2 * r,
    decreases r,
{
    if r == 0 {
        assert(hex_seq(0)[0] == (0int, 0int));
    } else {
        lemma_hex_seq_dist(r - 1);
        assert forall|i: int|
            0 <= i < hex_seq(r).len() implies dist2(#[trigger] hex_seq(r)[i]) <= 2 * r by {
            if i < 6 * r {
                let ek = ring_index_of(r, i);
                lemma_ring_pt_dist(r, ek.0, ek.1 + 1);
            } else {
                assert(hex_seq(r)[i] == hex_seq(r - 1)[i - 6 * r]);
            }
        }
    }
}

/// Law: every cell in the radius-`r` enumeration appears exactly once: the
/// enumerated cells are pairwise distinct.
pub proof fn lemma_hex_seq_unique(r: int)
    requires
        0 <= r,
    ensures
        forall|i1: int, i2: int|
            0 <= i1 < i2 < hex_seq(r).len() ==> hex_seq(r)[i1] != hex_seq(r)[i2],
    decreases r,
{
    if r == 0 {
    } else {
        lemma_hex_seq_unique(r - 1);
        lemma_hex_seq_dist(r - 1);
        lemma_ring_seq_unique(r);
        assert forall|i1: int, i2: int|
            0 <= i1 < i2 < hex_seq(r).len() implies hex_seq(r)[i1] != hex_seq(r)[i2] by {
            if i2 < 6 * r {
                assert(hex_seq(r)[i1] == ring_seq(r)[i1]);
                assert(hex_seq(r)[i2] == ring_seq(r)[i2]);
                assert(ring_seq(r)[i1] != ring_seq(r)[i2]);
            } else if i1 < 6 * r {
                let ek = ring_index_of(r, i1);
                lemma_ring_pt_dist(r, ek.0, ek.1 + 1);
                assert(hex_seq(r)[i1] == ring_pt(r, ek.0, ek.1 + 1));
                assert(hex_seq(r)[i2] == hex_seq(r - 1)[i2 - 6 * r]);
                assert(dist2(hex_seq(r)[i2]) <= 2 * (r - 1));
            } else {
                assert(hex_seq(r)[i1] == hex_seq(r - 1)[i1 - 6 * r]);
                assert(hex_seq(r)[i2] == hex_seq(r - 1)[i2 - 6 * r]);
            }
        }
    }
}

/// Law: the offsets returned by `fill_hex` are pairwise distinct. Stated of
/// any sequence whose views form the radius-`r` enumeration, which
/// `fill_hex`'s contract gives of its result.
pub proof fn lemma_fill_hex_unique(s: Seq<Offset>, r: int)
    requires
        0 <= r,
        view_seq(s) == hex_seq(r),
    ensures
        forall|i1: int, i2: int| 0 <= i1 < i2 < s.len() ==> s[i1] != s[i2],
{
    lemma_hex_seq_unique(r);
    assert forall|i1: int, i2: int| 0 <= i1 < i2 < s.len() implies s[i1] != s[i2] by {
        assert(view_seq(s)[i1] == s[i1]@);
        assert(view_seq(s)[i2] == s[i2]@);
    }
}

} // verus!
