//! The plain cube-state API: the same verified group element behind a
//! simpler front.
//!
//! A [`CubeState`] wraps a [`CubieCube`] and exposes the group
//! operations on banks of [`CornerState`]/[`EdgeState`] values. Every
//! operation delegates to the verified core, so the contracts here
//! restate the core's contracts over the wrapped state.

use vstd::prelude::*;
use crate::algebra::{compose_states, identity_states, inverse_states, perm_of};
use crate::cubicle_indexed::{CornerCubicleIndexed, EdgeCubicleIndexed};
use crate::cubie::{
    corner_bank_states, edge_bank_states, CornerCubicle, CornerCubie, CubicleArray, EdgeCubicle,
    EdgeCubie,
};
use crate::cubie_cube::CubieCube;
use crate::cubiestate::{corner_state_bank, edge_state_bank, CornerState, EdgeState};
use crate::dumb::DumbCube;
use crate::permutation::is_permutation;

verus! {

/// A cube state: where each piece sits and how it is oriented, indexed
/// by the piece's home cubicle.
#[derive(Debug, Copy, Clone, Eq, PartialEq)]
pub struct CubeState {
    pub inner: CubieCube,
}

/// The error of [`CubeState::try_new`].
#[derive(Debug, Copy, Clone, Eq, PartialEq, Structural)]
pub enum CubeStateConstructionError {
    /// Some cubicle holds no piece (so another holds two).
    EmptyCubicles,
}

impl CubeState {
    /// The abstract view of the corner bank.
    pub open spec fn corner_states(self) -> Seq<(int, int)> {
        self.inner.corner_states()
    }

    /// The abstract view of the edge bank.
    pub open spec fn edge_states(self) -> Seq<(int, int)> {
        self.inner.edge_states()
    }

    /// Both banks are true permutations.
    pub open spec fn wf(self) -> bool {
        self.inner.wf()
    }

    /// The cube is physically reachable from the solved cube.
    pub open spec fn possible(self) -> bool {
        self.inner.possible()
    }

    /// The solved cube: the identity of the group.
    pub fn solved() -> (r: Self)
        ensures
            r.corner_states() == identity_states(8),
            r.edge_states() == identity_states(12),
            r.wf(),
            r.possible(),
    {
        CubeState { inner: CubieCube::solved() }
    }

    /// Builds a cube from the two banks, validating that each bank is a
    /// true permutation; fails exactly when some cubicle of either bank
    /// holds no piece.
    pub fn try_new(
        corners: CornerCubicleIndexed<CornerState>,
        edges: EdgeCubicleIndexed<EdgeState>,
    ) -> (r: Result<CubeState, CubeStateConstructionError>)
        ensures
            r is Ok <==> (is_permutation(perm_of(corner_state_bank(corners@)))
                && is_permutation(perm_of(edge_state_bank(edges@)))),
            r matches Ok(cube) ==> cube.corner_states() == corner_state_bank(corners@)
                && cube.edge_states() == edge_state_bank(edges@) && cube.wf(),
            r matches Err(e) ==> e == CubeStateConstructionError::EmptyCubicles,
    {
        let mut ca: [CornerCubie; 8] = [CornerCubie {
            c: CornerCubicle::C0,
            o: crate::cubie::CornerOrientation::O0,
        };8];
        let mut h: usize = 0;
        while h < 8
            invariant
                h <= 8,
                forall|t: int|
                    0 <= t < h ==> #[trigger] ca@[t] == (CornerCubie {
                        c: corners@[t].c,
                        o: corners@[t].o,
                    }),
            decreases 8 - h,
        {
            let st = corners.0[h];
            ca[h] = CornerCubie { c: st.c, o: st.o };
            h += 1;
        }
        let mut ea: [EdgeCubie; 12] = [EdgeCubie {
            c: EdgeCubicle::C0,
            o: crate::cubie::EdgeOrientation::O0,
        };12];
        let mut k: usize = 0;
        while k < 12
            invariant
                k <= 12,
                forall|t: int|
                    0 <= t < k ==> #[trigger] ea@[t] == (EdgeCubie {
                        c: edges@[t].c,
                        o: edges@[t].o,
                    }),
            decreases 12 - k,
        {
            let st = edges.0[k];
            ea[k] = EdgeCubie { c: st.c, o: st.o };
            k += 1;
        }
        let cca = CubicleArray::new(ca);
        let cea = CubicleArray::new(ea);
        proof {
            assert(corner_bank_states(cca@) =~= corner_state_bank(corners@));
            assert(edge_bank_states(cea@) =~= edge_state_bank(edges@));
        }
        match CubieCube::try_new(cca, cea) {
            Ok(inner) => Ok(CubeState { inner }),
            Err(_) => Err(CubeStateConstructionError::EmptyCubicles),
        }
    }

    /// A uniformly random physically reachable cube.
    pub fn random_possible() -> (r: Self)
        ensures
            r.possible(),
    {
        CubeState { inner: CubieCube::random_possible() }
    }

    /// Whether this cube is physically reachable from the solved cube.
    pub fn is_possible_state(&self) -> (r: bool)
        requires
            self.wf(),
        ensures
            r == self.possible(),
    {
        self.inner.is_possible_state()
    }

    /// The state of the corner whose home is the given cubicle.
    pub fn get_corner(&self, cubicle: CornerCubicle) -> (r: CornerState)
        ensures
            r.c.idx() == self.corner_states()[cubicle.idx()].0,
            r.o.idx() == self.corner_states()[cubicle.idx()].1,
    {
        proof {
            crate::cubie::lemma_corner_cubicle_idx(cubicle);
        }
        let cc = *self.inner.corners.get(cubicle.index());
        CornerState { c: cc.c, o: cc.o }
    }

    /// The state of the edge whose home is the given cubicle.
    pub fn get_edge(&self, cubicle: EdgeCubicle) -> (r: EdgeState)
        ensures
            r.c.idx() == self.edge_states()[cubicle.idx()].0,
            r.o.idx() == self.edge_states()[cubicle.idx()].1,
    {
        proof {
            crate::cubie::lemma_edge_cubicle_idx(cubicle);
        }
        let ec = *self.inner.edges.get(cubicle.index());
        EdgeState { c: ec.c, o: ec.o }
    }

    /// The inverse element: whatever `self` does, the inverse undoes.
    pub fn inverse(&self) -> (r: Self)
        requires
            self.wf(),
        ensures
            r.corner_states() == inverse_states(self.corner_states(), 3),
            r.edge_states() == inverse_states(self.edge_states(), 2),
            r.wf(),
    {
        CubeState { inner: self.inner.inverse() }
    }

    /// The group product: apply `self`, then `rhs`.
    pub fn mul(&self, rhs: &Self) -> (r: Self)
        requires
            self.wf(),
            rhs.wf(),
        ensures
            r.corner_states() == compose_states(self.corner_states(), rhs.corner_states(), 3),
            r.edge_states() == compose_states(self.edge_states(), rhs.edge_states(), 2),
            r.wf(),
    {
        CubeState { inner: self.inner.compose(&rhs.inner) }
    }

    /// This cube as stickers; see
    /// [`DumbCube::from_cubestate`].
    pub fn to_dumb(&self) -> (r: DumbCube)
        requires
            self.wf(),
        ensures
            crate::facelet_cube::renders(r.inner.faces@, self.inner),
    {
        DumbCube::from_cubestate(self)
    }
}

} // verus!
