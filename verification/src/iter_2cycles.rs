//! Decomposition of a bank's permutation into transposition pairs.
//!
//! Repeatedly: find the first home cubicle whose occupant is not the
//! piece that lives there, emit the pair `(occupant's current cubicle,
//! that home)`, and swap those two positions in a working copy;
//! terminate when every home holds its own piece. The emitted pairs
//! mirror [`greedy_pairs`] exactly, so the parity of the number of pairs
//! is the permutation's parity.

use vstd::prelude::*;
use crate::cubie::{
    corner_bank_states, edge_bank_states, CornerCubicle, Corners, EdgeCubicle, Edges,
};
use crate::algebra::perm_of;
use crate::permutation::{
    first_misplaced, greedy_pairs, is_permutation, lemma_first_misplaced, lemma_greedy_step,
    num_misplaced, seq_swap,
};

verus! {

broadcast use
    crate::cubie::lemma_corner_cubicle_idx,
    crate::cubie::lemma_edge_cubicle_idx,
;

/// The integer view of a bank of machine integers.
pub open spec fn useq(s: Seq<usize>) -> Seq<int> {
    Seq::new(s.len(), |i: int| s[i] as int)
}

/// The integer view of a sequence of corner cubicle pairs.
pub open spec fn corner_pairs_idx(s: Seq<(CornerCubicle, CornerCubicle)>) -> Seq<(int, int)> {
    Seq::new(s.len(), |i: int| (s[i].0.idx(), s[i].1.idx()))
}

/// The integer view of a sequence of edge cubicle pairs.
pub open spec fn edge_pairs_idx(s: Seq<(EdgeCubicle, EdgeCubicle)>) -> Seq<(int, int)> {
    Seq::new(s.len(), |i: int| (s[i].0.idx(), s[i].1.idx()))
}

/// The 2-cycle decomposition of the corner permutation: the pairs of
/// [`greedy_pairs`], as cubicles.
pub fn corner_2cycles(corners: &Corners) -> (r: Vec<(CornerCubicle, CornerCubicle)>)
    requires
        is_permutation(perm_of(corner_bank_states(corners@))),
    ensures
        corner_pairs_idx(r@) == greedy_pairs(perm_of(corner_bank_states(corners@))),
{
    let ghost p0 = perm_of(corner_bank_states(corners@));
    let mut cur: [usize; 8] = [0;8];
    let mut h: usize = 0;
    while h < 8
        invariant
            h <= 8,
            p0 == perm_of(corner_bank_states(corners@)),
            forall|t: int| 0 <= t < h ==> useq(cur@)[t] == p0[t],
        decreases 8 - h,
    {
        let ghost prev = useq(cur@);
        cur[h] = corners.get(h).c.index();
        proof {
            assert(p0[h as int] == corners@[h as int].c.idx());
            assert forall|t: int| 0 <= t < h + 1 implies useq(cur@)[t] == p0[t] by {
                if t < h {
                    assert(prev[t] == p0[t]);
                    assert(useq(cur@)[t] == prev[t]);
                }
            }
        }
        h += 1;
    }
    proof {
        assert(useq(cur@) =~= p0);
    }
    let mut pairs: Vec<(CornerCubicle, CornerCubicle)> = Vec::new();
    loop
        invariant
            cur@.len() == 8,
            is_permutation(useq(cur@)),
            greedy_pairs(p0) =~= corner_pairs_idx(pairs@) + greedy_pairs(useq(cur@)),
        ensures
            greedy_pairs(p0) =~= corner_pairs_idx(pairs@),
        decreases num_misplaced(useq(cur@)),
    {
        let ghost pv = useq(cur@);
        let mut i: usize = 0;
        while i < 8 && cur[i] == i
            invariant
                i <= 8,
                pv == useq(cur@),
                forall|t: int| 0 <= t < i ==> #[trigger] pv[t] == t,
            decreases 8 - i,
        {
            i += 1;
        }
        proof {
            lemma_first_misplaced(pv);
            let fm = first_misplaced(pv);
            if i < 8 {
                assert(pv[i as int] != i);
                if fm < i {
                    assert(pv[fm] == fm);
                    assert(false);
                }
                if fm > i {
                    assert(pv[i as int] == i);
                    assert(false);
                }
                assert(fm == i);
            } else {
                if fm < 8 {
                    assert(pv[fm] != fm);
                    assert(pv[fm] == fm);
                    assert(false);
                }
                assert(fm == 8);
            }
        }
        if i == 8 {
            proof {
                assert(greedy_pairs(useq(cur@)) =~= Seq::<(int, int)>::empty());
                assert(greedy_pairs(p0) =~= corner_pairs_idx(pairs@));
            }
            break;
        }
        let a = cur[i];
        proof {
            assert(pv[i as int] == a);
            assert(0 <= pv[i as int] < 8);
            lemma_greedy_step(pv);
        }
        let ghost oldpairs = pairs@;
        pairs.push((CornerCubicle::from_index(a), CornerCubicle::from_index(i)));
        let va = cur[a];
        let vi = cur[i];
        cur[a] = vi;
        cur[i] = va;
        proof {
            assert(useq(cur@) =~= seq_swap(pv, a as int, i as int));
            assert(greedy_pairs(pv) == seq![(a as int, i as int)] + greedy_pairs(
                seq_swap(pv, a as int, i as int),
            ));
            assert(corner_pairs_idx(pairs@) =~= corner_pairs_idx(oldpairs) + seq![
                (a as int, i as int),
            ]);
            assert(greedy_pairs(p0) =~= corner_pairs_idx(pairs@) + greedy_pairs(useq(cur@)));
        }
    }
    pairs
}

/// The 2-cycle decomposition of the edge permutation: the pairs of
/// [`greedy_pairs`], as cubicles.
pub fn edge_2cycles(edges: &Edges) -> (r: Vec<(EdgeCubicle, EdgeCubicle)>)
    requires
        is_permutation(perm_of(edge_bank_states(edges@))),
    ensures
        edge_pairs_idx(r@) == greedy_pairs(perm_of(edge_bank_states(edges@))),
{
    let ghost p0 = perm_of(edge_bank_states(edges@));
    let mut cur: [usize; 12] = [0;12];
    let mut h: usize = 0;
    while h < 12
        invariant
            h <= 12,
            p0 == perm_of(edge_bank_states(edges@)),
            forall|t: int| 0 <= t < h ==> useq(cur@)[t] == p0[t],
        decreases 12 - h,
    {
        let ghost prev = useq(cur@);
        cur[h] = edges.get(h).c.index();
        proof {
            assert(p0[h as int] == edges@[h as int].c.idx());
            assert forall|t: int| 0 <= t < h + 1 implies useq(cur@)[t] == p0[t] by {
                if t < h {
                    assert(prev[t] == p0[t]);
                    assert(useq(cur@)[t] == prev[t]);
                }
            }
        }
        h += 1;
    }
    proof {
        assert(useq(cur@) =~= p0);
    }
    let mut pairs: Vec<(EdgeCubicle, EdgeCubicle)> = Vec::new();
    loop
        invariant
            cur@.len() == 12,
            is_permutation(useq(cur@)),
            greedy_pairs(p0) =~= edge_pairs_idx(pairs@) + greedy_pairs(useq(cur@)),
        ensures
            greedy_pairs(p0) =~= edge_pairs_idx(pairs@),
        decreases num_misplaced(useq(cur@)),
    {
        let ghost pv = useq(cur@);
        let mut i: usize = 0;
        while i < 12 && cur[i] == i
            invariant
                i <= 12,
                pv == useq(cur@),
                forall|t: int| 0 <= t < i ==> #[trigger] pv[t] == t,
            decreases 12 - i,
        {
            i += 1;
        }
        proof {
            lemma_first_misplaced(pv);
            let fm = first_misplaced(pv);
            if i < 12 {
                assert(pv[i as int] != i);
                if fm < i {
                    assert(pv[fm] == fm);
                    assert(false);
                }
                if fm > i {
                    assert(pv[i as int] == i);
                    assert(false);
                }
                assert(fm == i);
            } else {
                if fm < 12 {
                    assert(pv[fm] != fm);
                    assert(pv[fm] == fm);
                    assert(false);
                }
                assert(fm == 12);
            }
        }
        if i == 12 {
            proof {
                assert(greedy_pairs(useq(cur@)) =~= Seq::<(int, int)>::empty());
                assert(greedy_pairs(p0) =~= edge_pairs_idx(pairs@));
            }
            break;
        }
        let a = cur[i];
        proof {
            assert(pv[i as int] == a);
            assert(0 <= pv[i as int] < 12);
            lemma_greedy_step(pv);
        }
        let ghost oldpairs = pairs@;
        pairs.push((EdgeCubicle::from_index(a), EdgeCubicle::from_index(i)));
        let va = cur[a];
        let vi = cur[i];
        cur[a] = vi;
        cur[i] = va;
        proof {
            assert(useq(cur@) =~= seq_swap(pv, a as int, i as int));
            assert(greedy_pairs(pv) == seq![(a as int, i as int)] + greedy_pairs(
                seq_swap(pv, a as int, i as int),
            ));
            assert(edge_pairs_idx(pairs@) =~= edge_pairs_idx(oldpairs) + seq![
                (a as int, i as int),
            ]);
            assert(greedy_pairs(p0) =~= edge_pairs_idx(pairs@) + greedy_pairs(useq(cur@)));
        }
    }
    pairs
}

} // verus!
