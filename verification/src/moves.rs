//! The 18 face turns and their application.
//!
//! Each face has one hand-authored generator: the cube value of a single
//! clockwise quarter turn of that face. The counter-clockwise turn and the
//! half turn are derived from it by repeated composition, never authored
//! separately, so the three turns of a face are consistent by
//! construction. `apply_move` multiplies the cube by the generator value
//! of the requested turn.

use vstd::prelude::*;
use crate::algebra::{compose_states, wf_states};
use crate::cubie::{
    CornerCubicle, CornerCubie, CornerOrientation, CubicleArray, EdgeCubicle, EdgeCubie,
    EdgeOrientation,
};
use crate::cubie_cube::CubieCube;
use crate::permutation::is_permutation;
use crate::Move;

verus! {

/// The corner bank of a clockwise quarter turn of the right face.
pub open spec fn rmove_corner_states() -> Seq<(int, int)> {
    seq![(0int, 0int), (5int, 2int), (2int, 0int), (1int, 1int), (4int, 0int), (7int, 1int), (6int, 0int), (3int, 2int)]
}

/// The edge bank of a clockwise quarter turn of the right face.
pub open spec fn rmove_edge_states() -> Seq<(int, int)> {
    seq![(0int, 0int), (1int, 0int), (5int, 0int), (3int, 0int), (4int, 0int), (10int, 0int), (6int, 0int), (2int, 0int), (8int, 0int), (9int, 0int), (7int, 0int), (11int, 0int)]
}

/// The corner bank of a clockwise quarter turn of the top face.
pub open spec fn umove_corner_states() -> Seq<(int, int)> {
    seq![(1int, 0int), (3int, 0int), (0int, 0int), (2int, 0int), (4int, 0int), (5int, 0int), (6int, 0int), (7int, 0int)]
}

/// The edge bank of a clockwise quarter turn of the top face.
pub open spec fn umove_edge_states() -> Seq<(int, int)> {
    seq![(2int, 0int), (0int, 0int), (3int, 0int), (1int, 0int), (4int, 0int), (5int, 0int), (6int, 0int), (7int, 0int), (8int, 0int), (9int, 0int), (10int, 0int), (11int, 0int)]
}

/// The corner bank of a clockwise quarter turn of the front face.
pub open spec fn fmove_corner_states() -> Seq<(int, int)> {
    seq![(0int, 0int), (1int, 0int), (3int, 1int), (7int, 2int), (4int, 0int), (5int, 0int), (2int, 2int), (6int, 1int)]
}

/// The edge bank of a clockwise quarter turn of the front face.
pub open spec fn fmove_edge_states() -> Seq<(int, int)> {
    seq![(0int, 0int), (1int, 0int), (2int, 0int), (7int, 1int), (4int, 0int), (5int, 0int), (3int, 1int), (11int, 1int), (8int, 0int), (9int, 0int), (10int, 0int), (6int, 1int)]
}

/// The corner bank of a clockwise quarter turn of the left face.
pub open spec fn lmove_corner_states() -> Seq<(int, int)> {
    seq![(2int, 1int), (1int, 0int), (6int, 2int), (3int, 0int), (0int, 2int), (5int, 0int), (4int, 1int), (7int, 0int)]
}

/// The edge bank of a clockwise quarter turn of the left face.
pub open spec fn lmove_edge_states() -> Seq<(int, int)> {
    seq![(0int, 0int), (6int, 0int), (2int, 0int), (3int, 0int), (1int, 0int), (5int, 0int), (9int, 0int), (7int, 0int), (8int, 0int), (4int, 0int), (10int, 0int), (11int, 0int)]
}

/// The corner bank of a clockwise quarter turn of the back face.
pub open spec fn bmove_corner_states() -> Seq<(int, int)> {
    seq![(4int, 2int), (0int, 1int), (2int, 0int), (3int, 0int), (5int, 1int), (1int, 2int), (6int, 0int), (7int, 0int)]
}

/// The edge bank of a clockwise quarter turn of the back face.
pub open spec fn bmove_edge_states() -> Seq<(int, int)> {
    seq![(4int, 1int), (1int, 0int), (2int, 0int), (3int, 0int), (8int, 1int), (0int, 1int), (6int, 0int), (7int, 0int), (5int, 1int), (9int, 0int), (10int, 0int), (11int, 0int)]
}

/// The corner bank of a clockwise quarter turn of the bottom face.
pub open spec fn dmove_corner_states() -> Seq<(int, int)> {
    seq![(0int, 0int), (1int, 0int), (2int, 0int), (3int, 0int), (6int, 0int), (4int, 0int), (7int, 0int), (5int, 0int)]
}

/// The edge bank of a clockwise quarter turn of the bottom face.
pub open spec fn dmove_edge_states() -> Seq<(int, int)> {
    seq![(0int, 0int), (1int, 0int), (2int, 0int), (3int, 0int), (4int, 0int), (5int, 0int), (6int, 0int), (7int, 0int), (9int, 0int), (11int, 0int), (8int, 0int), (10int, 0int)]
}

/// The corner bank of the generator of each move: the quarter-turn
/// generators themselves, and the derived double and inverse turns.
pub open spec fn move_corner_states(m: Move) -> Seq<(int, int)> {
    match m {
        Move::L => lmove_corner_states(),
        Move::Li => compose_states(compose_states(lmove_corner_states(), lmove_corner_states(), 3), lmove_corner_states(), 3),
        Move::L2 => compose_states(lmove_corner_states(), lmove_corner_states(), 3),
        Move::R => rmove_corner_states(),
        Move::Ri => compose_states(compose_states(rmove_corner_states(), rmove_corner_states(), 3), rmove_corner_states(), 3),
        Move::R2 => compose_states(rmove_corner_states(), rmove_corner_states(), 3),
        Move::D => dmove_corner_states(),
        Move::Di => compose_states(compose_states(dmove_corner_states(), dmove_corner_states(), 3), dmove_corner_states(), 3),
        Move::D2 => compose_states(dmove_corner_states(), dmove_corner_states(), 3),
        Move::U => umove_corner_states(),
        Move::Ui => compose_states(compose_states(umove_corner_states(), umove_corner_states(), 3), umove_corner_states(), 3),
        Move::U2 => compose_states(umove_corner_states(), umove_corner_states(), 3),
        Move::F => fmove_corner_states(),
        Move::Fi => compose_states(compose_states(fmove_corner_states(), fmove_corner_states(), 3), fmove_corner_states(), 3),
        Move::F2 => compose_states(fmove_corner_states(), fmove_corner_states(), 3),
        Move::B => bmove_corner_states(),
        Move::Bi => compose_states(compose_states(bmove_corner_states(), bmove_corner_states(), 3), bmove_corner_states(), 3),
        Move::B2 => compose_states(bmove_corner_states(), bmove_corner_states(), 3),
    }
}

/// The edge bank of the generator of each move.
pub open spec fn move_edge_states(m: Move) -> Seq<(int, int)> {
    match m {
        Move::L => lmove_edge_states(),
        Move::Li => compose_states(compose_states(lmove_edge_states(), lmove_edge_states(), 2), lmove_edge_states(), 2),
        Move::L2 => compose_states(lmove_edge_states(), lmove_edge_states(), 2),
        Move::R => rmove_edge_states(),
        Move::Ri => compose_states(compose_states(rmove_edge_states(), rmove_edge_states(), 2), rmove_edge_states(), 2),
        Move::R2 => compose_states(rmove_edge_states(), rmove_edge_states(), 2),
        Move::D => dmove_edge_states(),
        Move::Di => compose_states(compose_states(dmove_edge_states(), dmove_edge_states(), 2), dmove_edge_states(), 2),
        Move::D2 => compose_states(dmove_edge_states(), dmove_edge_states(), 2),
        Move::U => umove_edge_states(),
        Move::Ui => compose_states(compose_states(umove_edge_states(), umove_edge_states(), 2), umove_edge_states(), 2),
        Move::U2 => compose_states(umove_edge_states(), umove_edge_states(), 2),
        Move::F => fmove_edge_states(),
        Move::Fi => compose_states(compose_states(fmove_edge_states(), fmove_edge_states(), 2), fmove_edge_states(), 2),
        Move::F2 => compose_states(fmove_edge_states(), fmove_edge_states(), 2),
        Move::B => bmove_edge_states(),
        Move::Bi => compose_states(compose_states(bmove_edge_states(), bmove_edge_states(), 2), bmove_edge_states(), 2),
        Move::B2 => compose_states(bmove_edge_states(), bmove_edge_states(), 2),
    }
}

impl CubieCube {
    /// The generator value of a clockwise quarter turn of the right
    /// face.
    pub fn rmove() -> (r: Self)
        ensures
            r.corner_states() == rmove_corner_states(),
            r.edge_states() == rmove_edge_states(),
            r.wf(),
    {
        let r = CubieCube {
            corners: CubicleArray::new(
                [
                    CornerCubie { c: CornerCubicle::C0, o: CornerOrientation::O0 },
                    CornerCubie { c: CornerCubicle::C5, o: CornerOrientation::O2 },
                    CornerCubie { c: CornerCubicle::C2, o: CornerOrientation::O0 },
                    CornerCubie { c: CornerCubicle::C1, o: CornerOrientation::O1 },
                    CornerCubie { c: CornerCubicle::C4, o: CornerOrientation::O0 },
                    CornerCubie { c: CornerCubicle::C7, o: CornerOrientation::O1 },
                    CornerCubie { c: CornerCubicle::C6, o: CornerOrientation::O0 },
                    CornerCubie { c: CornerCubicle::C3, o: CornerOrientation::O2 },
                ],
            ),
            edges: CubicleArray::new(
                [
                    EdgeCubie { c: EdgeCubicle::C0, o: EdgeOrientation::O0 },
                    EdgeCubie { c: EdgeCubicle::C1, o: EdgeOrientation::O0 },
                    EdgeCubie { c: EdgeCubicle::C5, o: EdgeOrientation::O0 },
                    EdgeCubie { c: EdgeCubicle::C3, o: EdgeOrientation::O0 },
                    EdgeCubie { c: EdgeCubicle::C4, o: EdgeOrientation::O0 },
                    EdgeCubie { c: EdgeCubicle::C10, o: EdgeOrientation::O0 },
                    EdgeCubie { c: EdgeCubicle::C6, o: EdgeOrientation::O0 },
                    EdgeCubie { c: EdgeCubicle::C2, o: EdgeOrientation::O0 },
                    EdgeCubie { c: EdgeCubicle::C8, o: EdgeOrientation::O0 },
                    EdgeCubie { c: EdgeCubicle::C9, o: EdgeOrientation::O0 },
                    EdgeCubie { c: EdgeCubicle::C7, o: EdgeOrientation::O0 },
                    EdgeCubie { c: EdgeCubicle::C11, o: EdgeOrientation::O0 },
                ],
            ),
        };
        proof {
            assert(r.corner_states() =~= rmove_corner_states());
            assert(r.edge_states() =~= rmove_edge_states());
            assert(is_permutation(crate::algebra::perm_of(r.corner_states())));
            assert(is_permutation(crate::algebra::perm_of(r.edge_states())));
            assert(wf_states(r.corner_states(), 3));
            assert(wf_states(r.edge_states(), 2));
        }
        r
    }

    /// The generator value of a clockwise quarter turn of the top
    /// face.
    pub fn umove() -> (r: Self)
        ensures
            r.corner_states() == umove_corner_states(),
            r.edge_states() == umove_edge_states(),
            r.wf(),
    {
        let r = CubieCube {
            corners: CubicleArray::new(
                [
                    CornerCubie { c: CornerCubicle::C1, o: CornerOrientation::O0 },
                    CornerCubie { c: CornerCubicle::C3, o: CornerOrientation::O0 },
                    CornerCubie { c: CornerCubicle::C0, o: CornerOrientation::O0 },
                    CornerCubie { c: CornerCubicle::C2, o: CornerOrientation::O0 },
                    CornerCubie { c: CornerCubicle::C4, o: CornerOrientation::O0 },
                    CornerCubie { c: CornerCubicle::C5, o: CornerOrientation::O0 },
                    CornerCubie { c: CornerCubicle::C6, o: CornerOrientation::O0 },
                    CornerCubie { c: CornerCubicle::C7, o: CornerOrientation::O0 },
                ],
            ),
            edges: CubicleArray::new(
                [
                    EdgeCubie { c: EdgeCubicle::C2, o: EdgeOrientation::O0 },
                    EdgeCubie { c: EdgeCubicle::C0, o: EdgeOrientation::O0 },
                    EdgeCubie { c: EdgeCubicle::C3, o: EdgeOrientation::O0 },
                    EdgeCubie { c: EdgeCubicle::C1, o: EdgeOrientation::O0 },
                    EdgeCubie { c: EdgeCubicle::C4, o: EdgeOrientation::O0 },
                    EdgeCubie { c: EdgeCubicle::C5, o: EdgeOrientation::O0 },
                    EdgeCubie { c: EdgeCubicle::C6, o: EdgeOrientation::O0 },
                    EdgeCubie { c: EdgeCubicle::C7, o: EdgeOrientation::O0 },
                    EdgeCubie { c: EdgeCubicle::C8, o: EdgeOrientation::O0 },
                    EdgeCubie { c: EdgeCubicle::C9, o: EdgeOrientation::O0 },
                    EdgeCubie { c: EdgeCubicle::C10, o: EdgeOrientation::O0 },
                    EdgeCubie { c: EdgeCubicle::C11, o: EdgeOrientation::O0 },
                ],
            ),
        };
        proof {
            assert(r.corner_states() =~= umove_corner_states());
            assert(r.edge_states() =~= umove_edge_states());
            assert(is_permutation(crate::algebra::perm_of(r.corner_states())));
            assert(is_permutation(crate::algebra::perm_of(r.edge_states())));
            assert(wf_states(r.corner_states(), 3));
            assert(wf_states(r.edge_states(), 2));
        }
        r
    }

    /// The generator value of a clockwise quarter turn of the front
    /// face.
    pub fn fmove() -> (r: Self)
        ensures
            r.corner_states() == fmove_corner_states(),
            r.edge_states() == fmove_edge_states(),
            r.wf(),
    {
        let r = CubieCube {
            corners: CubicleArray::new(
                [
                    CornerCubie { c: CornerCubicle::C0, o: CornerOrientation::O0 },
                    CornerCubie { c: CornerCubicle::C1, o: CornerOrientation::O0 },
                    CornerCubie { c: CornerCubicle::C3, o: CornerOrientation::O1 },
                    CornerCubie { c: CornerCubicle::C7, o: CornerOrientation::O2 },
                    CornerCubie { c: CornerCubicle::C4, o: CornerOrientation::O0 },
                    CornerCubie { c: CornerCubicle::C5, o: CornerOrientation::O0 },
                    CornerCubie { c: CornerCubicle::C2, o: CornerOrientation::O2 },
                    CornerCubie { c: CornerCubicle::C6, o: CornerOrientation::O1 },
                ],
            ),
            edges: CubicleArray::new(
                [
                    EdgeCubie { c: EdgeCubicle::C0, o: EdgeOrientation::O0 },
                    EdgeCubie { c: EdgeCubicle::C1, o: EdgeOrientation::O0 },
                    EdgeCubie { c: EdgeCubicle::C2, o: EdgeOrientation::O0 },
                    EdgeCubie { c: EdgeCubicle::C7, o: EdgeOrientation::O1 },
                    EdgeCubie { c: EdgeCubicle::C4, o: EdgeOrientation::O0 },
                    EdgeCubie { c: EdgeCubicle::C5, o: EdgeOrientation::O0 },
                    EdgeCubie { c: EdgeCubicle::C3, o: EdgeOrientation::O1 },
                    EdgeCubie { c: EdgeCubicle::C11, o: EdgeOrientation::O1 },
                    EdgeCubie { c: EdgeCubicle::C8, o: EdgeOrientation::O0 },
                    EdgeCubie { c: EdgeCubicle::C9, o: EdgeOrientation::O0 },
                    EdgeCubie { c: EdgeCubicle::C10, o: EdgeOrientation::O0 },
                    EdgeCubie { c: EdgeCubicle::C6, o: EdgeOrientation::O1 },
                ],
            ),
        };
        proof {
            assert(r.corner_states() =~= fmove_corner_states());
            assert(r.edge_states() =~= fmove_edge_states());
            assert(is_permutation(crate::algebra::perm_of(r.corner_states())));
            assert(is_permutation(crate::algebra::perm_of(r.edge_states())));
            assert(wf_states(r.corner_states(), 3));
            assert(wf_states(r.edge_states(), 2));
        }
        r
    }

    /// The generator value of a clockwise quarter turn of the left
    /// face.
    pub fn lmove() -> (r: Self)
        ensures
            r.corner_states() == lmove_corner_states(),
            r.edge_states() == lmove_edge_states(),
            r.wf(),
    {
        let r = CubieCube {
            corners: CubicleArray::new(
                [
                    CornerCubie { c: CornerCubicle::C2, o: CornerOrientation::O1 },
                    CornerCubie { c: CornerCubicle::C1, o: CornerOrientation::O0 },
                    CornerCubie { c: CornerCubicle::C6, o: CornerOrientation::O2 },
                    CornerCubie { c: CornerCubicle::C3, o: CornerOrientation::O0 },
                    CornerCubie { c: CornerCubicle::C0, o: CornerOrientation::O2 },
                    CornerCubie { c: CornerCubicle::C5, o: CornerOrientation::O0 },
                    CornerCubie { c: CornerCubicle::C4, o: CornerOrientation::O1 },
                    CornerCubie { c: CornerCubicle::C7, o: CornerOrientation::O0 },
                ],
            ),
            edges: CubicleArray::new(
                [
                    EdgeCubie { c: EdgeCubicle::C0, o: EdgeOrientation::O0 },
                    EdgeCubie { c: EdgeCubicle::C6, o: EdgeOrientation::O0 },
                    EdgeCubie { c: EdgeCubicle::C2, o: EdgeOrientation::O0 },
                    EdgeCubie { c: EdgeCubicle::C3, o: EdgeOrientation::O0 },
                    EdgeCubie { c: EdgeCubicle::C1, o: EdgeOrientation::O0 },
                    EdgeCubie { c: EdgeCubicle::C5, o: EdgeOrientation::O0 },
                    EdgeCubie { c: EdgeCubicle::C9, o: EdgeOrientation::O0 },
                    EdgeCubie { c: EdgeCubicle::C7, o: EdgeOrientation::O0 },
                    EdgeCubie { c: EdgeCubicle::C8, o: EdgeOrientation::O0 },
                    EdgeCubie { c: EdgeCubicle::C4, o: EdgeOrientation::O0 },
                    EdgeCubie { c: EdgeCubicle::C10, o: EdgeOrientation::O0 },
                    EdgeCubie { c: EdgeCubicle::C11, o: EdgeOrientation::O0 },
                ],
            ),
        };
        proof {
            assert(r.corner_states() =~= lmove_corner_states());
            assert(r.edge_states() =~= lmove_edge_states());
            assert(is_permutation(crate::algebra::perm_of(r.corner_states())));
            assert(is_permutation(crate::algebra::perm_of(r.edge_states())));
            assert(wf_states(r.corner_states(), 3));
            assert(wf_states(r.edge_states(), 2));
        }
        r
    }

    /// The generator value of a clockwise quarter turn of the back
    /// face.
    pub fn bmove() -> (r: Self)
        ensures
            r.corner_states() == bmove_corner_states(),
            r.edge_states() == bmove_edge_states(),
            r.wf(),
    {
        let r = CubieCube {
            corners: CubicleArray::new(
                [
                    CornerCubie { c: CornerCubicle::C4, o: CornerOrientation::O2 },
                    CornerCubie { c: CornerCubicle::C0, o: CornerOrientation::O1 },
                    CornerCubie { c: CornerCubicle::C2, o: CornerOrientation::O0 },
                    CornerCubie { c: CornerCubicle::C3, o: CornerOrientation::O0 },
                    CornerCubie { c: CornerCubicle::C5, o: CornerOrientation::O1 },
                    CornerCubie { c: CornerCubicle::C1, o: CornerOrientation::O2 },
                    CornerCubie { c: CornerCubicle::C6, o: CornerOrientation::O0 },
                    CornerCubie { c: CornerCubicle::C7, o: CornerOrientation::O0 },
                ],
            ),
            edges: CubicleArray::new(
                [
                    EdgeCubie { c: EdgeCubicle::C4, o: EdgeOrientation::O1 },
                    EdgeCubie { c: EdgeCubicle::C1, o: EdgeOrientation::O0 },
                    EdgeCubie { c: EdgeCubicle::C2, o: EdgeOrientation::O0 },
                    EdgeCubie { c: EdgeCubicle::C3, o: EdgeOrientation::O0 },
                    EdgeCubie { c: EdgeCubicle::C8, o: EdgeOrientation::O1 },
                    EdgeCubie { c: EdgeCubicle::C0, o: EdgeOrientation::O1 },
                    EdgeCubie { c: EdgeCubicle::C6, o: EdgeOrientation::O0 },
                    EdgeCubie { c: EdgeCubicle::C7, o: EdgeOrientation::O0 },
                    EdgeCubie { c: EdgeCubicle::C5, o: EdgeOrientation::O1 },
                    EdgeCubie { c: EdgeCubicle::C9, o: EdgeOrientation::O0 },
                    EdgeCubie { c: EdgeCubicle::C10, o: EdgeOrientation::O0 },
                    EdgeCubie { c: EdgeCubicle::C11, o: EdgeOrientation::O0 },
                ],
            ),
        };
        proof {
            assert(r.corner_states() =~= bmove_corner_states());
            assert(r.edge_states() =~= bmove_edge_states());
            assert(is_permutation(crate::algebra::perm_of(r.corner_states())));
            assert(is_permutation(crate::algebra::perm_of(r.edge_states())));
            assert(wf_states(r.corner_states(), 3));
            assert(wf_states(r.edge_states(), 2));
        }
        r
    }

    /// The generator value of a clockwise quarter turn of the bottom
    /// face.
    pub fn dmove() -> (r: Self)
        ensures
            r.corner_states() == dmove_corner_states(),
            r.edge_states() == dmove_edge_states(),
            r.wf(),
    {
        let r = CubieCube {
            corners: CubicleArray::new(
                [
                    CornerCubie { c: CornerCubicle::C0, o: CornerOrientation::O0 },
                    CornerCubie { c: CornerCubicle::C1, o: CornerOrientation::O0 },
                    CornerCubie { c: CornerCubicle::C2, o: CornerOrientation::O0 },
                    CornerCubie { c: CornerCubicle::C3, o: CornerOrientation::O0 },
                    CornerCubie { c: CornerCubicle::C6, o: CornerOrientation::O0 },
                    CornerCubie { c: CornerCubicle::C4, o: CornerOrientation::O0 },
                    CornerCubie { c: CornerCubicle::C7, o: CornerOrientation::O0 },
                    CornerCubie { c: CornerCubicle::C5, o: CornerOrientation::O0 },
                ],
            ),
            edges: CubicleArray::new(
                [
                    EdgeCubie { c: EdgeCubicle::C0, o: EdgeOrientation::O0 },
                    EdgeCubie { c: EdgeCubicle::C1, o: EdgeOrientation::O0 },
                    EdgeCubie { c: EdgeCubicle::C2, o: EdgeOrientation::O0 },
                    EdgeCubie { c: EdgeCubicle::C3, o: EdgeOrientation::O0 },
                    EdgeCubie { c: EdgeCubicle::C4, o: EdgeOrientation::O0 },
                    EdgeCubie { c: EdgeCubicle::C5, o: EdgeOrientation::O0 },
                    EdgeCubie { c: EdgeCubicle::C6, o: EdgeOrientation::O0 },
                    EdgeCubie { c: EdgeCubicle::C7, o: EdgeOrientation::O0 },
                    EdgeCubie { c: EdgeCubicle::C9, o: EdgeOrientation::O0 },
                    EdgeCubie { c: EdgeCubicle::C11, o: EdgeOrientation::O0 },
                    EdgeCubie { c: EdgeCubicle::C8, o: EdgeOrientation::O0 },
                    EdgeCubie { c: EdgeCubicle::C10, o: EdgeOrientation::O0 },
                ],
            ),
        };
        proof {
            assert(r.corner_states() =~= dmove_corner_states());
            assert(r.edge_states() =~= dmove_edge_states());
            assert(is_permutation(crate::algebra::perm_of(r.corner_states())));
            assert(is_permutation(crate::algebra::perm_of(r.edge_states())));
            assert(wf_states(r.corner_states(), 3));
            assert(wf_states(r.edge_states(), 2));
        }
        r
    }

    /// Applies one of the 18 face turns: multiplies `self` by the
    /// generator value of the turn. The counter-clockwise and half turns
    /// multiply by the clockwise generator three and two times over.
    pub fn apply_move(&mut self, moov: Move)
        requires
            old(self).wf(),
        ensures
            final(self).corner_states() == compose_states(
                old(self).corner_states(),
                move_corner_states(moov),
                3,
            ),
            final(self).edge_states() == compose_states(
                old(self).edge_states(),
                move_edge_states(moov),
                2,
            ),
            final(self).wf(),
            old(self).possible() ==> final(self).possible(),
    {
        let ghost oldc = self.corner_states();
        let ghost olde = self.edge_states();
        match moov {
            Move::L => {
                let g = Self::lmove();
                *self = self.compose(&g);
            },
            Move::Li => {
                let g = Self::lmove();
                let g3 = g.compose(&g).compose(&g);
                *self = self.compose(&g3);
            },
            Move::L2 => {
                let g = Self::lmove();
                let g2 = g.compose(&g);
                *self = self.compose(&g2);
            },
            Move::R => {
                let g = Self::rmove();
                *self = self.compose(&g);
            },
            Move::Ri => {
                let g = Self::rmove();
                let g3 = g.compose(&g).compose(&g);
                *self = self.compose(&g3);
            },
            Move::R2 => {
                let g = Self::rmove();
                let g2 = g.compose(&g);
                *self = self.compose(&g2);
            },
            Move::D => {
                let g = Self::dmove();
                *self = self.compose(&g);
            },
            Move::Di => {
                let g = Self::dmove();
                let g3 = g.compose(&g).compose(&g);
                *self = self.compose(&g3);
            },
            Move::D2 => {
                let g = Self::dmove();
                let g2 = g.compose(&g);
                *self = self.compose(&g2);
            },
            Move::U => {
                let g = Self::umove();
                *self = self.compose(&g);
            },
            Move::Ui => {
                let g = Self::umove();
                let g3 = g.compose(&g).compose(&g);
                *self = self.compose(&g3);
            },
            Move::U2 => {
                let g = Self::umove();
                let g2 = g.compose(&g);
                *self = self.compose(&g2);
            },
            Move::F => {
                let g = Self::fmove();
                *self = self.compose(&g);
            },
            Move::Fi => {
                let g = Self::fmove();
                let g3 = g.compose(&g).compose(&g);
                *self = self.compose(&g3);
            },
            Move::F2 => {
                let g = Self::fmove();
                let g2 = g.compose(&g);
                *self = self.compose(&g2);
            },
            Move::B => {
                let g = Self::bmove();
                *self = self.compose(&g);
            },
            Move::Bi => {
                let g = Self::bmove();
                let g3 = g.compose(&g).compose(&g);
                *self = self.compose(&g3);
            },
            Move::B2 => {
                let g = Self::bmove();
                let g2 = g.compose(&g);
                *self = self.compose(&g2);
            },
        }
        proof {
            if old(self).possible() {
                crate::move_parity::lemma_move_banks_keep_possible(moov);
                assert(self.corner_states() == compose_states(oldc, move_corner_states(moov), 3));
                assert(self.edge_states() == compose_states(olde, move_edge_states(moov), 2));
                crate::move_parity::lemma_compose_keeps_possible(
                    oldc,
                    olde,
                    move_corner_states(moov),
                    move_edge_states(moov),
                );
            }
        }
    }
}

} // verus!
