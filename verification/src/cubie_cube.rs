//! The cube group element: 8 corner slots and 12 edge slots.
//!
//! `corners[i]` is the state of the corner piece whose home is cubicle
//! `i`: the cubicle it currently occupies and its twist. `edges[i]` is the
//! same for the edge piece whose home is cubicle `i`. A cube reachable by
//! face turns from the solved cube satisfies four invariants: each bank's
//! occupied cubicles form a permutation ([`CubieCube::wf`]), the corner
//! twists sum to zero modulo 3, the edge flips sum to zero modulo 2, and
//! the corner and edge permutation parities agree
//! ([`CubieCube::possible`]).

use vstd::prelude::*;
use crate::algebra::{
    compose_states, identity_states, inv_at, inverse_states, lemma_compose_identity,
    lemma_compose_inverse, lemma_compose_assoc, lemma_compose_ori_sum, lemma_compose_wf,
    lemma_identity_wf, lemma_inv_at, lemma_inverse_wf, oris_of, perm_of, wf_states,
};
use crate::cubie::{
    corner_bank_states, edge_bank_states, CornerCubicle, CornerCubie, CornerOrientation, Corners,
    CubicleArray, EdgeCubicle, EdgeCubie, EdgeOrientation, Edges,
};
use crate::permutation::{
    covers_all, greedy_count, is_permutation, lemma_cover_is_permutation,
    lemma_greedy_parity_compose, lemma_map_values_multiset, lemma_no_dup_multiset,
    lemma_permutation_covers, lemma_seq_sum_multiset, lemma_seq_sum_take,
    lemma_seq_swap_multiset, lemma_swap_flips_parity, seq_compose, seq_sum, seq_swap,
};
use crate::iter_2cycles::{corner_2cycles, corner_pairs_idx, edge_2cycles, edge_pairs_idx};
use crate::random::{rand_below, rng_new, shuffle};

verus! {

broadcast use
    crate::cubie::lemma_corner_cubicle_idx,
    crate::cubie::lemma_corner_orientation_idx,
    crate::cubie::lemma_edge_cubicle_idx,
    crate::cubie::lemma_edge_orientation_idx,
;

/// A cube state: where each piece sits and how it is oriented, indexed by
/// the piece's home cubicle.
#[derive(Debug, Copy, Clone, Eq, PartialEq)]
pub struct CubieCube {
    /// `corners[i]` is the state of the corner whose home is cubicle `i`.
    pub corners: Corners,
    /// `edges[i]` is the state of the edge whose home is cubicle `i`.
    pub edges: Edges,
}

/// The error of [`CubieCube::try_new`].
#[derive(Debug, Copy, Clone, Eq, PartialEq, Structural)]
pub enum CubieCubeConstructionError {
    /// Some cubicle holds no piece (so another holds two).
    EmptyCubicles,
}

impl CubieCube {
    /// The abstract view of the corner bank.
    pub open spec fn corner_states(self) -> Seq<(int, int)> {
        corner_bank_states(self.corners@)
    }

    /// The abstract view of the edge bank.
    pub open spec fn edge_states(self) -> Seq<(int, int)> {
        edge_bank_states(self.edges@)
    }

    /// Both banks are true permutations: every cubicle holds exactly one
    /// piece.
    pub open spec fn wf(self) -> bool {
        &&& wf_states(self.corner_states(), 3)
        &&& wf_states(self.edge_states(), 2)
    }

    /// The parity of the corner permutation: the parity of its
    /// transposition count.
    pub open spec fn corner_parity(self) -> nat {
        greedy_count(perm_of(self.corner_states())) % 2
    }

    /// The parity of the edge permutation.
    pub open spec fn edge_parity(self) -> nat {
        greedy_count(perm_of(self.edge_states())) % 2
    }

    /// The cube is physically reachable from the solved cube: both banks
    /// are permutations, the twists sum to zero modulo 3, the flips sum
    /// to zero modulo 2, and the two permutation parities agree.
    pub open spec fn possible(self) -> bool {
        &&& self.wf()
        &&& seq_sum(oris_of(self.corner_states())) % 3 == 0
        &&& seq_sum(oris_of(self.edge_states())) % 2 == 0
        &&& self.corner_parity() == self.edge_parity()
    }

    /// The solved cube: every piece in its home cubicle with orientation
    /// zero. It is the identity of the group.
    pub fn solved() -> (r: Self)
        ensures
            r.corner_states() == identity_states(8),
            r.edge_states() == identity_states(12),
            r.wf(),
            r.possible(),
    {
        let r = CubieCube {
            corners: CubicleArray::new(
                [
                    CornerCubie { c: CornerCubicle::C0, o: CornerOrientation::O0 },
                    CornerCubie { c: CornerCubicle::C1, o: CornerOrientation::O0 },
                    CornerCubie { c: CornerCubicle::C2, o: CornerOrientation::O0 },
                    CornerCubie { c: CornerCubicle::C3, o: CornerOrientation::O0 },
                    CornerCubie { c: CornerCubicle::C4, o: CornerOrientation::O0 },
                    CornerCubie { c: CornerCubicle::C5, o: CornerOrientation::O0 },
                    CornerCubie { c: CornerCubicle::C6, o: CornerOrientation::O0 },
                    CornerCubie { c: CornerCubicle::C7, o: CornerOrientation::O0 },
                ],
            ),
            edges: CubicleArray::new(
                [
                    EdgeCubie { c: EdgeCubicle::C0, o: EdgeOrientation::O0 },
                    EdgeCubie { c: EdgeCubicle::C1, o: EdgeOrientation::O0 },
                    EdgeCubie { c: EdgeCubicle::C2, o: EdgeOrientation::O0 },
                    EdgeCubie { c: EdgeCubicle::C3, o: EdgeOrientation::O0 },
                    EdgeCubie { c: EdgeCubicle::C4, o: EdgeOrientation::O0 },
                    EdgeCubie { c: EdgeCubicle::C5, o: EdgeOrientation::O0 },
                    EdgeCubie { c: EdgeCubicle::C6, o: EdgeOrientation::O0 },
                    EdgeCubie { c: EdgeCubicle::C7, o: EdgeOrientation::O0 },
                    EdgeCubie { c: EdgeCubicle::C8, o: EdgeOrientation::O0 },
                    EdgeCubie { c: EdgeCubicle::C9, o: EdgeOrientation::O0 },
                    EdgeCubie { c: EdgeCubicle::C10, o: EdgeOrientation::O0 },
                    EdgeCubie { c: EdgeCubicle::C11, o: EdgeOrientation::O0 },
                ],
            ),
        };
        proof {
            assert(r.corner_states() =~= identity_states(8));
            assert(r.edge_states() =~= identity_states(12));
            lemma_identity_wf(8, 3);
            lemma_identity_wf(12, 2);
        }
        r
    }

    /// Builds a cube from the two banks, validating that each bank is a
    /// true permutation: fails with [`CubieCubeConstructionError::EmptyCubicles`]
    /// exactly when some cubicle of either bank holds no piece.
    pub fn try_new(corners: Corners, edges: Edges) -> (r: Result<
        CubieCube,
        CubieCubeConstructionError,
    >)
        ensures
            r is Ok <==> (is_permutation(perm_of(corner_bank_states(corners@)))
                && is_permutation(perm_of(edge_bank_states(edges@)))),
            r matches Ok(cube) ==> cube.corners@ == corners@ && cube.edges@ == edges@
                && cube.wf(),
            r matches Err(e) ==> e == CubieCubeConstructionError::EmptyCubicles,
    {
        let cs = all_corners_seen(&corners);
        let es = all_edges_seen(&edges);
        proof {
            let pc = perm_of(corner_bank_states(corners@));
            let pe = perm_of(edge_bank_states(edges@));
            assert(forall|i: int| 0 <= i < 8 ==> 0 <= #[trigger] pc[i] < 8);
            assert(forall|i: int| 0 <= i < 12 ==> 0 <= #[trigger] pe[i] < 12);
            if covers_all(pc) {
                lemma_cover_is_permutation(pc);
            }
            if covers_all(pe) {
                lemma_cover_is_permutation(pe);
            }
            if is_permutation(pc) {
                lemma_permutation_covers(pc);
            }
            if is_permutation(pe) {
                lemma_permutation_covers(pe);
            }
        }
        if cs && es {
            Ok(CubieCube { corners, edges })
        } else {
            Err(CubieCubeConstructionError::EmptyCubicles)
        }
    }

    /// The group product "apply `self`, then `rhs`": each piece first
    /// moves as `self` directs, then as `rhs` directs the piece of the
    /// home it reached; orientations add.
    pub fn compose(&self, rhs: &Self) -> (r: Self)
        requires
            self.wf(),
            rhs.wf(),
        ensures
            r.corner_states() == compose_states(self.corner_states(), rhs.corner_states(), 3),
            r.edge_states() == compose_states(self.edge_states(), rhs.edge_states(), 2),
            r.wf(),
            self.possible() && rhs.possible() ==> r.possible(),
    {
        let ghost ca = self.corner_states();
        let ghost cb = rhs.corner_states();
        let ghost ea = self.edge_states();
        let ghost eb = rhs.edge_states();
        let mut ret = Self::solved();
        let mut h: usize = 0;
        while h < 8
            invariant
                self.wf(),
                rhs.wf(),
                h <= 8,
                ca == self.corner_states(),
                cb == rhs.corner_states(),
                forall|t: int|
                    0 <= t < h ==> ret.corner_states()[t] == compose_states(ca, cb, 3)[t],
            decreases 8 - h,
        {
            let ghost prev = ret.corner_states();
            let s = *self.corners.get(h);
            let ci = s.c.index();
            proof {
                assert(ca[h as int].0 == s.c.idx());
                assert(perm_of(ca)[h as int] == s.c.idx());
                assert(0 <= perm_of(ca)[h as int] < 8);
            }
            let t = *rhs.corners.get(ci);
            let n = CornerCubie { c: t.c, o: s.o.add(t.o) };
            ret.corners.set(h, n);
            proof {
                assert forall|t2: int|
                    0 <= t2 < h + 1 implies ret.corner_states()[t2] == compose_states(
                    ca,
                    cb,
                    3,
                )[t2] by {
                    if t2 < h {
                        assert(prev[t2] == compose_states(ca, cb, 3)[t2]);
                        assert(ret.corner_states()[t2] == prev[t2]);
                    } else {
                        assert(ret.corner_states()[h as int] == (n.c.idx(), n.o.idx()));
                    }
                }
            }
            h += 1;
        }
        let mut k: usize = 0;
        while k < 12
            invariant
                self.wf(),
                rhs.wf(),
                k <= 12,
                ca == self.corner_states(),
                cb == rhs.corner_states(),
                ea == self.edge_states(),
                eb == rhs.edge_states(),
                forall|t: int|
                    0 <= t < 8 ==> ret.corner_states()[t] == compose_states(ca, cb, 3)[t],
                forall|t: int|
                    0 <= t < k ==> ret.edge_states()[t] == compose_states(ea, eb, 2)[t],
            decreases 12 - k,
        {
            let ghost prevc = ret.corner_states();
            let ghost prev = ret.edge_states();
            let s = *self.edges.get(k);
            let ci = s.c.index();
            proof {
                assert(ea[k as int].0 == s.c.idx());
                assert(perm_of(ea)[k as int] == s.c.idx());
                assert(0 <= perm_of(ea)[k as int] < 12);
            }
            let t = *rhs.edges.get(ci);
            let n = EdgeCubie { c: t.c, o: s.o.add(t.o) };
            ret.edges.set(k, n);
            proof {
                assert forall|t2: int|
                    0 <= t2 < 8 implies ret.corner_states()[t2] == compose_states(
                    ca,
                    cb,
                    3,
                )[t2] by {
                    assert(prevc[t2] == compose_states(ca, cb, 3)[t2]);
                    assert(ret.corner_states()[t2] == prevc[t2]);
                }
                assert forall|t2: int|
                    0 <= t2 < k + 1 implies ret.edge_states()[t2] == compose_states(
                    ea,
                    eb,
                    2,
                )[t2] by {
                    if t2 < k {
                        assert(prev[t2] == compose_states(ea, eb, 2)[t2]);
                        assert(ret.edge_states()[t2] == prev[t2]);
                    } else {
                        assert(ret.edge_states()[k as int] == (n.c.idx(), n.o.idx()));
                    }
                }
            }
            k += 1;
        }
        proof {
            assert(ret.corner_states() =~= compose_states(ca, cb, 3));
            assert(ret.edge_states() =~= compose_states(ea, eb, 2));
            lemma_compose_wf(ca, cb, 3);
            lemma_compose_wf(ea, eb, 2);
            if self.possible() && rhs.possible() {
                lemma_compose_preserves_possible(*self, *rhs);
            }
        }
        ret
    }

    /// Whether this cube is physically reachable from the solved cube:
    /// the twists sum to zero modulo 3, the flips sum to zero modulo 2,
    /// and the corner and edge permutation parities agree.
    pub fn is_possible_state(&self) -> (r: bool)
        requires
            self.wf(),
        ensures
            r == self.possible(),
    {
        let ghost cs = self.corner_states();
        let ghost es = self.edge_states();
        let ghost coris = oris_of(cs);
        let ghost eoris = oris_of(es);
        let mut csum: usize = 0;
        let mut h: usize = 0;
        while h < 8
            invariant
                self.wf(),
                h <= 8,
                cs == self.corner_states(),
                coris == oris_of(cs),
                csum <= 2 * h,
                csum as int == seq_sum(coris.take(h as int)),
            decreases 8 - h,
        {
            let o = self.corners.get(h).orientation().index();
            proof {
                assert(coris[h as int] == cs[h as int].1);
                assert(cs[h as int].1 == self.corners@[h as int].o.idx());
                assert(0 <= cs[h as int].1 < 3);
                lemma_seq_sum_take(coris, h as int);
            }
            csum += o;
            h += 1;
        }
        proof {
            assert(coris.take(8) =~= coris);
        }
        let mut esum: usize = 0;
        let mut k: usize = 0;
        while k < 12
            invariant
                self.wf(),
                k <= 12,
                es == self.edge_states(),
                eoris == oris_of(es),
                esum <= k,
                esum as int == seq_sum(eoris.take(k as int)),
            decreases 12 - k,
        {
            let o = self.edges.get(k).orientation().index();
            proof {
                assert(eoris[k as int] == es[k as int].1);
                assert(es[k as int].1 == self.edges@[k as int].o.idx());
                assert(0 <= es[k as int].1 < 2);
                lemma_seq_sum_take(eoris, k as int);
            }
            esum += o;
            k += 1;
        }
        proof {
            assert(eoris.take(12) =~= eoris);
        }
        let c2 = corner_2cycles(&self.corners);
        let e2 = edge_2cycles(&self.edges);
        proof {
            assert(corner_pairs_idx(c2@).len() == c2@.len());
            assert(edge_pairs_idx(e2@).len() == e2@.len());
            assert(c2@.len() == greedy_count(perm_of(cs)));
            assert(e2@.len() == greedy_count(perm_of(es)));
        }
        csum % 3 == 0 && esum % 2 == 0 && (c2.len() % 2 == e2.len() % 2)
    }

    /// A uniformly random cube among the physically reachable ones:
    /// random orientations with the last piece of each kind fixing the
    /// sum, a random permutation of each bank, and one extra edge swap
    /// when the two permutation parities came out different.
    pub fn random_possible() -> (r: Self)
        ensures
            r.possible(),
    {
        let mut rng = rng_new();
        let mut cube = Self::solved();
        // Random corner twists for homes 1..8; home 0 still has twist 0.
        let mut total: usize = 0;
        let mut h: usize = 1;
        proof {
            assert(oris_of(cube.corner_states()).take(1) =~= seq![0int]);
            assert(seq_sum(seq![0int]) == 0 + seq_sum(seq![0int].drop_first()));
            assert(seq![0int].drop_first() =~= Seq::<int>::empty());
        }
        while h < 8
            invariant
                1 <= h <= 8,
                forall|t: int| 0 <= t < 8 ==> (#[trigger] cube.corner_states()[t]).0 == t,
                cube.corner_states()[0].1 == 0,
                cube.edge_states() == identity_states(12),
                total <= 2 * h,
                total as int == seq_sum(oris_of(cube.corner_states()).take(h as int)),
            decreases 8 - h,
        {
            let ghost prev = cube.corner_states();
            let o = rand_below(&mut rng, 3);
            let s = *cube.corners.get(h);
            let n = CornerCubie { c: s.c, o: CornerOrientation::from_index(o as usize) };
            cube.corners.set(h, n);
            total += o as usize;
            proof {
                assert forall|t: int|
                    0 <= t < 8 implies (#[trigger] cube.corner_states()[t]).0 == t by {
                    if t == h {
                        assert(cube.corner_states()[t].0 == n.c.idx());
                        assert(prev[t].0 == t);
                    } else {
                        assert(cube.corner_states()[t] == prev[t]);
                    }
                }
                assert(cube.corner_states()[0] == prev[0]);
                assert(oris_of(cube.corner_states()).take(h as int) =~= oris_of(prev).take(
                    h as int,
                ));
                lemma_seq_sum_take(oris_of(cube.corner_states()), h as int);
                assert(oris_of(cube.corner_states())[h as int] == o as int);
            }
            h += 1;
        }
        // Home 0 gets the twist that makes the total zero modulo 3.
        let fix = (3 - (total % 3)) % 3;
        let ghost pre_fix = cube.corner_states();
        let s0 = *cube.corners.get(0);
        let n0 = CornerCubie { c: s0.c, o: CornerOrientation::from_index(fix) };
        cube.corners.set(0, n0);
        proof {
            let cs = cube.corner_states();
            assert(oris_of(cs).drop_first() =~= oris_of(pre_fix).drop_first());
            assert(seq_sum(oris_of(cs)) == fix as int + seq_sum(oris_of(cs).drop_first()));
            assert(seq_sum(oris_of(pre_fix)) == 0 + seq_sum(oris_of(pre_fix).drop_first()));
            assert(oris_of(pre_fix).take(8) =~= oris_of(pre_fix));
            assert(seq_sum(oris_of(cs)) == total + fix);
            assert((total + fix) % 3 == 0);
            assert(seq_sum(oris_of(cs)) % 3 == 0);
            assert forall|t: int| 0 <= t < 8 implies (#[trigger] cs[t]).0 == t by {
                if t == 0 {
                    assert(cs[0].0 == n0.c.idx());
                    assert(n0.c == s0.c);
                    assert(pre_fix[0].0 == s0.c.idx());
                    assert(pre_fix[0].0 == 0);
                } else {
                    assert(cs[t] == pre_fix[t]);
                }
            }
        }
        let ghost cs_oriented = cube.corner_states();
        // Random edge flips for homes 1..12; home 0 still has flip 0.
        let mut etotal: usize = 0;
        let mut k: usize = 1;
        proof {
            assert(oris_of(cube.edge_states()).take(1) =~= seq![0int]);
            assert(seq_sum(seq![0int]) == 0 + seq_sum(seq![0int].drop_first()));
            assert(seq![0int].drop_first() =~= Seq::<int>::empty());
        }
        while k < 12
            invariant
                1 <= k <= 12,
                cube.corner_states() == cs_oriented,
                forall|t: int| 0 <= t < 8 ==> (#[trigger] cs_oriented[t]).0 == t,
                seq_sum(oris_of(cs_oriented)) % 3 == 0,
                forall|t: int| 0 <= t < 12 ==> (#[trigger] cube.edge_states()[t]).0 == t,
                cube.edge_states()[0].1 == 0,
                etotal <= k,
                etotal as int == seq_sum(oris_of(cube.edge_states()).take(k as int)),
            decreases 12 - k,
        {
            let ghost prev = cube.edge_states();
            let o = rand_below(&mut rng, 2);
            let s = *cube.edges.get(k);
            let n = EdgeCubie { c: s.c, o: EdgeOrientation::from_index(o as usize) };
            cube.edges.set(k, n);
            etotal += o as usize;
            proof {
                assert forall|t: int|
                    0 <= t < 12 implies (#[trigger] cube.edge_states()[t]).0 == t by {
                    if t == k {
                        assert(cube.edge_states()[t].0 == n.c.idx());
                        assert(prev[t].0 == t);
                    } else {
                        assert(cube.edge_states()[t] == prev[t]);
                    }
                }
                assert(cube.edge_states()[0] == prev[0]);
                assert(oris_of(cube.edge_states()).take(k as int) =~= oris_of(prev).take(k as int));
                lemma_seq_sum_take(oris_of(cube.edge_states()), k as int);
                assert(oris_of(cube.edge_states())[k as int] == o as int);
            }
            k += 1;
        }
        // Home 0 gets the flip that makes the total zero modulo 2.
        let efix = (2 - (etotal % 2)) % 2;
        let ghost pre_efix = cube.edge_states();
        let e0 = *cube.edges.get(0);
        let m0 = EdgeCubie { c: e0.c, o: EdgeOrientation::from_index(efix) };
        cube.edges.set(0, m0);
        proof {
            let es = cube.edge_states();
            assert(oris_of(es).drop_first() =~= oris_of(pre_efix).drop_first());
            assert(seq_sum(oris_of(es)) == efix as int + seq_sum(oris_of(es).drop_first()));
            assert(seq_sum(oris_of(pre_efix)) == 0 + seq_sum(oris_of(pre_efix).drop_first()));
            assert(oris_of(pre_efix).take(12) =~= oris_of(pre_efix));
            assert(seq_sum(oris_of(es)) == etotal + efix);
            assert((etotal + efix) % 2 == 0);
        }
        proof {
            assert(cube.corner_states() == cs_oriented);
            assert forall|t: int|
                0 <= t < 12 implies (#[trigger] cube.edge_states()[t]).0 == t by {
                if t == 0 {
                    assert(cube.edge_states()[0] == (m0.c.idx(), m0.o.idx()));
                    assert(pre_efix[0].0 == 0);
                } else {
                    assert(cube.edge_states()[t] == pre_efix[t]);
                }
            }
            lemma_oriented_banks_wf(cube);
        }
        // Random permutations of both banks: a shuffle moves whole pieces,
        // so neither orientation sum changes.
        let ghost pre_cshuf = cube.corners@;
        let ghost pre_eshuf = cube.edges@;
        shuffle(&mut rng, &mut cube.corners.0);
        shuffle(&mut rng, &mut cube.edges.0);
        proof {
            lemma_corner_bank_shuffled(pre_cshuf, cube.corners@);
            lemma_edge_bank_shuffled(pre_eshuf, cube.edges@);
        }
        // If the two permutation parities disagree, swapping two edge
        // slots flips the edge parity without touching any orientation.
        let c2 = corner_2cycles(&cube.corners);
        let e2 = edge_2cycles(&cube.edges);
        proof {
            assert(corner_pairs_idx(c2@).len() == c2@.len());
            assert(edge_pairs_idx(e2@).len() == e2@.len());
            assert(c2@.len() == greedy_count(perm_of(cube.corner_states())));
            assert(e2@.len() == greedy_count(perm_of(cube.edge_states())));
        }
        if c2.len() % 2 != e2.len() % 2 {
            let ghost pre_swap = cube.edge_states();
            cube.edges.swap(0, 1);
            proof {
                assert(cube.edge_states() =~= seq_swap(pre_swap, 0, 1));
                lemma_edge_slot_swap(pre_swap, cube.edge_states());
            }
        }
        cube
    }

    /// The inverse element: whatever `self` does, the inverse undoes.
    /// For every home `h`, if `self` put the piece of home `h` in cubicle
    /// `c` with orientation `o`, the inverse puts the piece of home `c`
    /// in cubicle `h` with the cancelling orientation.
    pub fn inverse(&self) -> (r: Self)
        requires
            self.wf(),
        ensures
            r.corner_states() == inverse_states(self.corner_states(), 3),
            r.edge_states() == inverse_states(self.edge_states(), 2),
            r.wf(),
            self.possible() ==> r.possible(),
    {
        let ghost ca = self.corner_states();
        let ghost ea = self.edge_states();
        let mut ret = Self::solved();
        let mut h: usize = 0;
        while h < 8
            invariant
                self.wf(),
                h <= 8,
                ca == self.corner_states(),
                forall|t: int|
                    0 <= t < h ==> ret.corner_states()[(#[trigger] ca[t]).0] == (
                        t,
                        (3 - ca[t].1) % 3,
                    ),
            decreases 8 - h,
        {
            let ghost prev = ret.corner_states();
            let s = *self.corners.get(h);
            let ci = s.c.index();
            proof {
                assert(ca[h as int].0 == s.c.idx());
                assert(perm_of(ca)[h as int] == s.c.idx());
                assert(0 <= perm_of(ca)[h as int] < 8);
            }
            let n = CornerCubie { c: CornerCubicle::from_index(h), o: s.o.inverse() };
            ret.corners.set(ci, n);
            proof {
                assert forall|t: int|
                    0 <= t < h + 1 implies ret.corner_states()[(#[trigger] ca[t]).0] == (
                    t,
                    (3 - ca[t].1) % 3,
                ) by {
                    assert(perm_of(ca)[t] == ca[t].0);
                    assert(0 <= ca[t].0 < 8);
                    if t < h {
                        assert(perm_of(ca)[h as int] == ca[h as int].0);
                        assert(ca[t].0 != ca[h as int].0);
                        assert(prev[ca[t].0] == (t, (3 - ca[t].1) % 3));
                        assert(ret.corner_states()[ca[t].0] == prev[ca[t].0]);
                    } else {
                        assert(ret.corner_states()[ci as int] == (n.c.idx(), n.o.idx()));
                        assert(n.c.idx() == h as int);
                        assert(s.o.idx() == ca[h as int].1);
                    }
                }
            }
            h += 1;
        }
        let mut k: usize = 0;
        while k < 12
            invariant
                self.wf(),
                k <= 12,
                ca == self.corner_states(),
                ea == self.edge_states(),
                forall|t: int|
                    0 <= t < 8 ==> ret.corner_states()[(#[trigger] ca[t]).0] == (
                        t,
                        (3 - ca[t].1) % 3,
                    ),
                forall|t: int|
                    0 <= t < k ==> ret.edge_states()[(#[trigger] ea[t]).0] == (
                        t,
                        (2 - ea[t].1) % 2,
                    ),
            decreases 12 - k,
        {
            let ghost prevc = ret.corner_states();
            let ghost prev = ret.edge_states();
            let s = *self.edges.get(k);
            let ci = s.c.index();
            proof {
                assert(ea[k as int].0 == s.c.idx());
                assert(perm_of(ea)[k as int] == s.c.idx());
                assert(0 <= perm_of(ea)[k as int] < 12);
            }
            let n = EdgeCubie { c: EdgeCubicle::from_index(k), o: s.o.inverse() };
            ret.edges.set(ci, n);
            proof {
                assert forall|t: int|
                    0 <= t < 8 implies ret.corner_states()[(#[trigger] ca[t]).0] == (
                    t,
                    (3 - ca[t].1) % 3,
                ) by {
                    assert(perm_of(ca)[t] == ca[t].0);
                    assert(0 <= ca[t].0 < 8);
                    assert(prevc[ca[t].0] == (t, (3 - ca[t].1) % 3));
                    assert(ret.corner_states()[ca[t].0] == prevc[ca[t].0]);
                }
                assert forall|t: int|
                    0 <= t < k + 1 implies ret.edge_states()[(#[trigger] ea[t]).0] == (
                    t,
                    (2 - ea[t].1) % 2,
                ) by {
                    assert(perm_of(ea)[t] == ea[t].0);
                    assert(0 <= ea[t].0 < 12);
                    if t < k {
                        assert(perm_of(ea)[k as int] == ea[k as int].0);
                        assert(ea[t].0 != ea[k as int].0);
                        assert(prev[ea[t].0] == (t, (2 - ea[t].1) % 2));
                        assert(ret.edge_states()[ea[t].0] == prev[ea[t].0]);
                    } else {
                        assert(ret.edge_states()[ci as int] == (n.c.idx(), n.o.idx()));
                        assert(n.c.idx() == k as int);
                        assert(s.o.idx() == ea[k as int].1);
                    }
                }
            }
            k += 1;
        }
        proof {
            assert(ret.corner_states() =~= inverse_states(ca, 3)) by {
                assert forall|c: int| 0 <= c < 8 implies ret.corner_states()[c] == inverse_states(
                    ca,
                    3,
                )[c] by {
                    lemma_inv_at(ca, 3, c);
                    let t = inv_at(ca, c);
                    assert(ret.corner_states()[ca[t].0] == (t, (3 - ca[t].1) % 3));
                }
            }
            assert(ret.edge_states() =~= inverse_states(ea, 2)) by {
                assert forall|c: int| 0 <= c < 12 implies ret.edge_states()[c] == inverse_states(
                    ea,
                    2,
                )[c] by {
                    lemma_inv_at(ea, 2, c);
                    let t = inv_at(ea, c);
                    assert(ret.edge_states()[ea[t].0] == (t, (2 - ea[t].1) % 2));
                }
            }
            lemma_inverse_wf(ca, 3);
            lemma_inverse_wf(ea, 2);
            if self.possible() {
                lemma_inverse_preserves_possible(*self);
            }
        }
        ret
    }
}

/// True exactly when every corner cubicle is occupied by some piece.
fn all_corners_seen(corners: &Corners) -> (b: bool)
    ensures
        b == covers_all(perm_of(corner_bank_states(corners@))),
{
    let ghost p = perm_of(corner_bank_states(corners@));
    let mut seen: [bool; 8] = [false;8];
    let mut h: usize = 0;
    while h < 8
        invariant
            h <= 8,
            p == perm_of(corner_bank_states(corners@)),
            forall|c: int|
                0 <= c < 8 ==> (seen@[c] <==> exists|t: int| 0 <= t < h && #[trigger] p[t] == c),
        decreases 8 - h,
    {
        let ci = corners.get(h).c.index();
        proof {
            assert(p[h as int] == corners@[h as int].c.idx());
            assert(0 <= p[h as int] < 8);
        }
        seen[ci] = true;
        h += 1;
    }
    let mut c: usize = 0;
    let mut all = true;
    while c < 8
        invariant
            c <= 8,
            p == perm_of(corner_bank_states(corners@)),
            forall|t: int|
                0 <= t < 8 ==> (seen@[t] <==> exists|u: int| 0 <= u < 8 && #[trigger] p[u] == t),
            all == (forall|t: int| 0 <= t < c ==> #[trigger] p.contains(t)),
        decreases 8 - c,
    {
        let s = seen[c];
        proof {
            if s {
                let u = choose|u: int| 0 <= u < 8 && p[u] == c;
                assert(p.contains(c as int));
            } else {
                if p.contains(c as int) {
                    let u = choose|u: int| 0 <= u < p.len() && p[u] == c;
                    assert(exists|u: int| 0 <= u < 8 && #[trigger] p[u] == c);
                    assert(false);
                }
            }
        }
        all = all && s;
        c += 1;
    }
    all
}

/// True exactly when every edge cubicle is occupied by some piece.
fn all_edges_seen(edges: &Edges) -> (b: bool)
    ensures
        b == covers_all(perm_of(edge_bank_states(edges@))),
{
    let ghost p = perm_of(edge_bank_states(edges@));
    let mut seen: [bool; 12] = [false;12];
    let mut h: usize = 0;
    while h < 12
        invariant
            h <= 12,
            p == perm_of(edge_bank_states(edges@)),
            forall|c: int|
                0 <= c < 12 ==> (seen@[c] <==> exists|t: int| 0 <= t < h && #[trigger] p[t] == c),
        decreases 12 - h,
    {
        let ci = edges.get(h).c.index();
        proof {
            assert(p[h as int] == edges@[h as int].c.idx());
            assert(0 <= p[h as int] < 12);
        }
        seen[ci] = true;
        h += 1;
    }
    let mut c: usize = 0;
    let mut all = true;
    while c < 12
        invariant
            c <= 12,
            p == perm_of(edge_bank_states(edges@)),
            forall|t: int|
                0 <= t < 12 ==> (seen@[t] <==> exists|u: int| 0 <= u < 12 && #[trigger] p[u] == t),
            all == (forall|t: int| 0 <= t < c ==> #[trigger] p.contains(t)),
        decreases 12 - c,
    {
        let s = seen[c];
        proof {
            if s {
                let u = choose|u: int| 0 <= u < 12 && p[u] == c;
                assert(p.contains(c as int));
            } else {
                if p.contains(c as int) {
                    let u = choose|u: int| 0 <= u < p.len() && p[u] == c;
                    assert(exists|u: int| 0 <= u < 12 && #[trigger] p[u] == c);
                    assert(false);
                }
            }
        }
        all = all && s;
        c += 1;
    }
    all
}

/// A cube whose two banks are home-ordered (each piece in its own home)
/// is well formed, whatever the orientations are.
proof fn lemma_oriented_banks_wf(cube: CubieCube)
    requires
        forall|t: int| 0 <= t < 8 ==> (#[trigger] cube.corner_states()[t]).0 == t,
        forall|t: int| 0 <= t < 12 ==> (#[trigger] cube.edge_states()[t]).0 == t,
    ensures
        cube.wf(),
{
    let pc = perm_of(cube.corner_states());
    let pe = perm_of(cube.edge_states());
    assert(forall|t: int| 0 <= t < 8 ==> #[trigger] pc[t] == t);
    assert(forall|t: int| 0 <= t < 12 ==> #[trigger] pe[t] == t);
    assert(pc.no_duplicates());
    assert(pe.no_duplicates());
    assert forall|i: int| 0 <= i < 8 implies 0 <= (#[trigger] cube.corner_states()[i]).1 < 3 by {
        assert(cube.corner_states()[i].1 == cube.corners@[i].o.idx());
    }
    assert forall|i: int| 0 <= i < 12 implies 0 <= (#[trigger] cube.edge_states()[i]).1 < 2 by {
        assert(cube.edge_states()[i].1 == cube.edges@[i].o.idx());
    }
}

/// Shuffling the corner bank (rearranging whole pieces) keeps it well
/// formed and keeps the twist sum.
proof fn lemma_corner_bank_shuffled(pre: Seq<CornerCubie>, post: Seq<CornerCubie>)
    requires
        pre.to_multiset() == post.to_multiset(),
        pre.len() == 8,
        wf_states(corner_bank_states(pre), 3),
    ensures
        wf_states(corner_bank_states(post), 3),
        seq_sum(oris_of(corner_bank_states(post))) == seq_sum(oris_of(corner_bank_states(pre))),
{
    broadcast use vstd::seq_lib::group_to_multiset_ensures;

    assert(pre.to_multiset().len() == pre.len());
    assert(post.to_multiset().len() == post.len());
    let fp = |x: CornerCubie| x.c.idx();
    let fo = |x: CornerCubie| x.o.idx();
    lemma_map_values_multiset(pre, post, fp);
    lemma_map_values_multiset(pre, post, fo);
    assert(perm_of(corner_bank_states(pre)) =~= pre.map_values(fp));
    assert(perm_of(corner_bank_states(post)) =~= post.map_values(fp));
    assert(oris_of(corner_bank_states(pre)) =~= pre.map_values(fo));
    assert(oris_of(corner_bank_states(post)) =~= post.map_values(fo));
    lemma_no_dup_multiset(pre.map_values(fp), post.map_values(fp));
    lemma_seq_sum_multiset(pre.map_values(fo), post.map_values(fo));
    assert forall|i: int| 0 <= i < post.len() implies 0 <= #[trigger] perm_of(
        corner_bank_states(post),
    )[i] < post.len() by {
        assert(perm_of(corner_bank_states(post))[i] == post[i].c.idx());
    }
    assert forall|i: int|
        0 <= i < post.len() implies 0 <= (#[trigger] corner_bank_states(post)[i]).1 < 3 by {
        assert(corner_bank_states(post)[i].1 == post[i].o.idx());
    }
}

/// Shuffling the edge bank keeps it well formed and keeps the flip sum.
proof fn lemma_edge_bank_shuffled(pre: Seq<EdgeCubie>, post: Seq<EdgeCubie>)
    requires
        pre.to_multiset() == post.to_multiset(),
        pre.len() == 12,
        wf_states(edge_bank_states(pre), 2),
    ensures
        wf_states(edge_bank_states(post), 2),
        seq_sum(oris_of(edge_bank_states(post))) == seq_sum(oris_of(edge_bank_states(pre))),
{
    broadcast use vstd::seq_lib::group_to_multiset_ensures;

    assert(pre.to_multiset().len() == pre.len());
    assert(post.to_multiset().len() == post.len());
    let fp = |x: EdgeCubie| x.c.idx();
    let fo = |x: EdgeCubie| x.o.idx();
    lemma_map_values_multiset(pre, post, fp);
    lemma_map_values_multiset(pre, post, fo);
    assert(perm_of(edge_bank_states(pre)) =~= pre.map_values(fp));
    assert(perm_of(edge_bank_states(post)) =~= post.map_values(fp));
    assert(oris_of(edge_bank_states(pre)) =~= pre.map_values(fo));
    assert(oris_of(edge_bank_states(post)) =~= post.map_values(fo));
    lemma_no_dup_multiset(pre.map_values(fp), post.map_values(fp));
    lemma_seq_sum_multiset(pre.map_values(fo), post.map_values(fo));
    assert forall|i: int| 0 <= i < post.len() implies 0 <= #[trigger] perm_of(
        edge_bank_states(post),
    )[i] < post.len() by {
        assert(perm_of(edge_bank_states(post))[i] == post[i].c.idx());
    }
    assert forall|i: int|
        0 <= i < post.len() implies 0 <= (#[trigger] edge_bank_states(post)[i]).1 < 2 by {
        assert(edge_bank_states(post)[i].1 == post[i].o.idx());
    }
}

/// Swapping the first two edge slots keeps the bank well formed and the
/// flip sum unchanged, and flips the permutation parity.
pub(crate) proof fn lemma_edge_slot_swap(pre: Seq<(int, int)>, post: Seq<(int, int)>)
    requires
        wf_states(pre, 2),
        pre.len() >= 2,
        post == seq_swap(pre, 0, 1),
    ensures
        wf_states(post, 2),
        seq_sum(oris_of(post)) == seq_sum(oris_of(pre)),
        greedy_count(perm_of(post)) % 2 != greedy_count(perm_of(pre)) % 2,
        post.len() == pre.len(),
{
    assert(perm_of(post) =~= seq_swap(perm_of(pre), 0, 1));
    lemma_swap_flips_parity(perm_of(pre), 0, 1);
    assert(oris_of(post) =~= seq_swap(oris_of(pre), 0, 1));
    lemma_seq_swap_multiset(oris_of(pre), 0, 1);
    lemma_seq_sum_multiset(seq_swap(oris_of(pre), 0, 1), oris_of(pre));
    assert forall|i: int| 0 <= i < post.len() implies 0 <= (#[trigger] post[i]).1 < 2 by {
        if i == 0 {
            assert(post[i] == pre[1]);
        } else if i == 1 {
            assert(post[i] == pre[0]);
        } else {
            assert(post[i] == pre[i]);
        }
    }
}

/// The group of physically reachable cubes is closed under composition:
/// orientation sums add, and permutation parity is a homomorphism, so
/// the parity balance survives. With [`CubieCube::compose`] this states
/// that composing two possible cubes yields a possible cube.
pub proof fn lemma_compose_preserves_possible(x: CubieCube, y: CubieCube)
    requires
        x.possible(),
        y.possible(),
    ensures
        ({
            let c = compose_states(x.corner_states(), y.corner_states(), 3);
            let e = compose_states(x.edge_states(), y.edge_states(), 2);
            &&& wf_states(c, 3)
            &&& wf_states(e, 2)
            &&& seq_sum(oris_of(c)) % 3 == 0
            &&& seq_sum(oris_of(e)) % 2 == 0
            &&& greedy_count(perm_of(c)) % 2 == greedy_count(perm_of(e)) % 2
        }),
{
    let ca = x.corner_states();
    let cb = y.corner_states();
    let ea = x.edge_states();
    let eb = y.edge_states();
    lemma_compose_wf(ca, cb, 3);
    lemma_compose_wf(ea, eb, 2);
    lemma_compose_ori_sum(ca, cb, 3);
    lemma_compose_ori_sum(ea, eb, 2);
    assert(perm_of(compose_states(ca, cb, 3)) =~= seq_compose(perm_of(ca), perm_of(cb)));
    assert(perm_of(compose_states(ea, eb, 2)) =~= seq_compose(perm_of(ea), perm_of(eb)));
    lemma_greedy_parity_compose(perm_of(ca), perm_of(cb));
    lemma_greedy_parity_compose(perm_of(ea), perm_of(eb));
}

/// The inverse of a physically reachable cube is physically reachable:
/// the cancelling orientations still sum to zero, and a permutation has
/// the parity of its inverse. With [`CubieCube::inverse`] this states
/// that inverting a possible cube yields a possible cube.
pub proof fn lemma_inverse_preserves_possible(x: CubieCube)
    requires
        x.possible(),
    ensures
        ({
            let c = inverse_states(x.corner_states(), 3);
            let e = inverse_states(x.edge_states(), 2);
            &&& wf_states(c, 3)
            &&& wf_states(e, 2)
            &&& seq_sum(oris_of(c)) % 3 == 0
            &&& seq_sum(oris_of(e)) % 2 == 0
            &&& greedy_count(perm_of(c)) % 2 == greedy_count(perm_of(e)) % 2
        }),
{
    lemma_inverse_bank_possible(x.corner_states(), 3, 8);
    lemma_inverse_bank_possible(x.edge_states(), 2, 12);
    let ci = inverse_states(x.corner_states(), 3);
    let ei = inverse_states(x.edge_states(), 2);
    assert(greedy_count(perm_of(ci)) % 2 == greedy_count(perm_of(x.corner_states())) % 2);
    assert(greedy_count(perm_of(ei)) % 2 == greedy_count(perm_of(x.edge_states())) % 2);
}

/// A bank's inverse keeps the zero orientation sum and the permutation
/// parity.
proof fn lemma_inverse_bank_possible(a: Seq<(int, int)>, m: int, n: int)
    requires
        wf_states(a, m),
        a.len() == n,
        n >= 2,
        m >= 2,
        seq_sum(oris_of(a)) % m == 0,
    ensures
        wf_states(inverse_states(a, m), m),
        seq_sum(oris_of(inverse_states(a, m))) % m == 0,
        greedy_count(perm_of(inverse_states(a, m))) % 2 == greedy_count(perm_of(a)) % 2,
{
    lemma_inverse_wf(a, m);
    let inv = inverse_states(a, m);
    // parity: composing with the inverse gives the identity, and parity
    // is a homomorphism
    lemma_compose_inverse(a, m);
    assert(perm_of(compose_states(a, inv, m)) =~= seq_compose(perm_of(a), perm_of(inv)));
    lemma_greedy_parity_compose(perm_of(a), perm_of(inv));
    lemma_identity_wf(n, m);
    assert(perm_of(compose_states(a, inv, m)) == perm_of(identity_states(n)));
    assert(greedy_count(perm_of(identity_states(n))) == 0);
    // orientation sum: composing with the inverse gives the identity,
    // whose orientation sum is zero, and sums add under composition
    lemma_compose_ori_sum(a, inv, m);
    assert(seq_sum(oris_of(compose_states(a, inv, m))) == seq_sum(oris_of(identity_states(n))));
    assert(seq_sum(oris_of(identity_states(n))) == 0);
    let si = seq_sum(oris_of(inv));
    assert((seq_sum(oris_of(a)) + si) % m == 0);
    assert(si % m == 0) by {
        vstd::arithmetic::div_mod::lemma_add_mod_noop(seq_sum(oris_of(a)), si, m);
        vstd::arithmetic::div_mod::lemma_mod_twice(si, m);
        vstd::arithmetic::div_mod::lemma_mod_bound(si, m);
        vstd::arithmetic::div_mod::lemma_small_mod(0nat, m as nat);
        let r = si % m;
        assert((0 + r) % m == 0);
        vstd::arithmetic::div_mod::lemma_small_mod(r as nat, m as nat);
    }
}

/// Composing any well-formed cube with its inverse, in either order,
/// yields the solved cube: with [`CubieCube::compose`], [`CubieCube::inverse`]
/// and [`CubieCube::solved`] this states
/// `x.compose(x.inverse()) == solved() == x.inverse().compose(x)`.
pub proof fn lemma_compose_inverse_is_solved(x: CubieCube)
    requires
        x.wf(),
    ensures
        compose_states(x.corner_states(), inverse_states(x.corner_states(), 3), 3)
            == identity_states(8),
        compose_states(x.edge_states(), inverse_states(x.edge_states(), 2), 2) == identity_states(
            12,
        ),
        compose_states(inverse_states(x.corner_states(), 3), x.corner_states(), 3)
            == identity_states(8),
        compose_states(inverse_states(x.edge_states(), 2), x.edge_states(), 2) == identity_states(
            12,
        ),
{
    lemma_compose_inverse(x.corner_states(), 3);
    lemma_compose_inverse(x.edge_states(), 2);
}

/// Group composition is associative: with [`CubieCube::compose`] this
/// states `x.compose(y).compose(z) == x.compose(y.compose(z))`.
pub proof fn lemma_compose_associative(x: CubieCube, y: CubieCube, z: CubieCube)
    requires
        x.wf(),
        y.wf(),
        z.wf(),
    ensures
        compose_states(
            compose_states(x.corner_states(), y.corner_states(), 3),
            z.corner_states(),
            3,
        ) == compose_states(
            x.corner_states(),
            compose_states(y.corner_states(), z.corner_states(), 3),
            3,
        ),
        compose_states(compose_states(x.edge_states(), y.edge_states(), 2), z.edge_states(), 2)
            == compose_states(
            x.edge_states(),
            compose_states(y.edge_states(), z.edge_states(), 2),
            2,
        ),
{
    lemma_compose_assoc(x.corner_states(), y.corner_states(), z.corner_states(), 3);
    lemma_compose_assoc(x.edge_states(), y.edge_states(), z.edge_states(), 2);
}

/// The solved cube is a two-sided identity: with [`CubieCube::compose`]
/// and [`CubieCube::solved`] this states
/// `x.compose(solved()) == x == solved().compose(x)`.
pub proof fn lemma_compose_solved_identity(x: CubieCube)
    requires
        x.wf(),
    ensures
        compose_states(x.corner_states(), identity_states(8), 3) == x.corner_states(),
        compose_states(identity_states(8), x.corner_states(), 3) == x.corner_states(),
        compose_states(x.edge_states(), identity_states(12), 2) == x.edge_states(),
        compose_states(identity_states(12), x.edge_states(), 2) == x.edge_states(),
{
    lemma_compose_identity(x.corner_states(), 3);
    lemma_compose_identity(x.edge_states(), 2);
}

} // verus!
