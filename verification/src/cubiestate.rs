//! Per-piece state types of the plain cube-state API.
//!
//! [`CubeState`](crate::cubestate::CubeState) and its piece states form a
//! second, simpler front to the same verified cube algebra: a
//! [`CornerState`] or [`EdgeState`] pairs a current cubicle with a
//! current orientation, exactly like [`crate::cubie::CornerCubie`], and
//! every operation delegates to the same underlying logic.

use vstd::prelude::*;

pub use crate::cubie::CornerCubicle;
pub use crate::cubie::CornerOrientation;
pub use crate::cubie::EdgeCubicle;
pub use crate::cubie::EdgeOrientation;

verus! {

/// Permutation + orientation of a single corner piece.
#[derive(Debug, Copy, Clone, Eq, PartialEq, Structural)]
pub struct CornerState {
    pub c: CornerCubicle,
    pub o: CornerOrientation,
}

impl CornerState {
    /// Pairs a cubicle with an orientation; `cubicle` and `orientation`
    /// recover exactly the two arguments.
    pub fn new(p: CornerCubicle, o: CornerOrientation) -> (r: Self)
        ensures
            r.c == p,
            r.o == o,
    {
        CornerState { c: p, o }
    }

    /// What cubicle this corner is in.
    pub fn cubicle(self) -> (r: CornerCubicle)
        ensures
            r == self.c,
    {
        self.c
    }

    /// The orientation of this corner.
    pub fn orientation(self) -> (r: CornerOrientation)
        ensures
            r == self.o,
    {
        self.o
    }
}

/// Permutation + orientation of a single edge piece.
#[derive(Debug, Copy, Clone, Eq, PartialEq, Structural)]
pub struct EdgeState {
    pub c: EdgeCubicle,
    pub o: EdgeOrientation,
}

impl EdgeState {
    /// Pairs a cubicle with an orientation; `cubicle` and `orientation`
    /// recover exactly the two arguments.
    pub fn new(p: EdgeCubicle, o: EdgeOrientation) -> (r: Self)
        ensures
            r.c == p,
            r.o == o,
    {
        EdgeState { c: p, o }
    }

    /// What cubicle this edge is in.
    pub fn cubicle(self) -> (r: EdgeCubicle)
        ensures
            r == self.c,
    {
        self.c
    }

    /// The orientation of this edge.
    pub fn orientation(self) -> (r: EdgeOrientation)
        ensures
            r == self.o,
    {
        self.o
    }
}

/// The abstract `(cubicle, orientation)` view of a corner-state bank.
pub open spec fn corner_state_bank(s: Seq<CornerState>) -> Seq<(int, int)> {
    Seq::new(s.len(), |h: int| (s[h].c.idx(), s[h].o.idx()))
}

/// The abstract `(cubicle, orientation)` view of an edge-state bank.
pub open spec fn edge_state_bank(s: Seq<EdgeState>) -> Seq<(int, int)> {
    Seq::new(s.len(), |h: int| (s[h].c.idx(), s[h].o.idx()))
}

} // verus!
