//! Plain two-dimensional geometry on the integer grid.

use vstd::prelude::*;

verus! {

/// A position in the simulation plane.
///
/// Coordinates are integer distance units; every position handled by the
/// engine is bounded by [`crate::MAX_COORD`] so that squared distances fit
/// in `i64`.
#[derive(Clone, Copy, PartialEq, Eq, Structural, Debug)]
pub struct Pos {
    pub x: i64,
    pub y: i64,
}

/// Squared Euclidean distance between `a` and `b`.
pub open spec fn dist_sq(a: Pos, b: Pos) -> int {
    (a.x - b.x) * (a.x - b.x) + (a.y - b.y) * (a.y - b.y)
}

/// Whether `a` lies strictly within Euclidean distance `r` of `b`.
///
/// The boundary is exclusive: a point at distance exactly `r` is not
/// within the radius.  This matches the query semantics of the spatial
/// index.
pub open spec fn within_radius(a: Pos, b: Pos, r: int) -> bool {
    dist_sq(a, b) < r * r
}

/// Whether both coordinates of `p` are bounded by [`crate::MAX_COORD`].
pub open spec fn pos_in_bounds(p: Pos) -> bool {
    &&& -crate::MAX_COORD <= p.x <= crate::MAX_COORD
    &&& -crate::MAX_COORD <= p.y <= crate::MAX_COORD
}

/// Decides [`within_radius`] for bounded positions.
pub fn is_within_radius(a: Pos, b: Pos, r: i64) -> (res: bool)
    requires
        pos_in_bounds(a),
        pos_in_bounds(b),
        0 <= r <= crate::MAX_COORD,
    ensures
        res == within_radius(a, b, r as int),
{
    let dx: i64 = a.x - b.x;
    let dy: i64 = a.y - b.y;
    proof {
        assert(dx * dx <= 4_000_000_000_000_000_000 && dx * dx >= 0) by (nonlinear_arith)
            requires -2_000_000_000 <= dx <= 2_000_000_000;
        assert(dy * dy <= 4_000_000_000_000_000_000 && dy * dy >= 0) by (nonlinear_arith)
            requires -2_000_000_000 <= dy <= 2_000_000_000;
        assert(r * r <= 1_000_000_000_000_000_000 && r * r >= 0) by (nonlinear_arith)
            requires 0 <= r <= 1_000_000_000;
    }
    dx * dx + dy * dy < r * r
}

} // verus!
