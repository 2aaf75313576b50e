//! Concrete facts about the six quarter-turn generators: each generator
//! bank has a zero orientation sum and equal corner and edge permutation
//! parities, so applying any face turn keeps a cube physically
//! reachable. The greedy decompositions and digit sums are evaluated
//! step by step.

use vstd::prelude::*;
use crate::algebra::{compose_states, lemma_compose_ori_sum, lemma_compose_wf, oris_of, perm_of, wf_states};
use crate::moves::{
    bmove_corner_states, bmove_edge_states, dmove_corner_states, dmove_edge_states,
    fmove_corner_states, fmove_edge_states, lmove_corner_states, lmove_edge_states,
    move_corner_states, move_edge_states, rmove_corner_states, rmove_edge_states,
    umove_corner_states, umove_edge_states,
};
use crate::permutation::{
    first_misplaced, first_misplaced_from, greedy_count, greedy_pairs, is_permutation,
    lemma_greedy_parity_compose, seq_compose, seq_sum, seq_swap,
};
use crate::Move;

verus! {

/// The R quarter-turn generator has zero orientation sums and
/// equal corner and edge permutation parities.
proof fn lemma_rmove_banks()
    ensures
        seq_sum(oris_of(rmove_corner_states())) % 3 == 0,
        seq_sum(oris_of(rmove_edge_states())) % 2 == 0,
        greedy_count(perm_of(rmove_corner_states())) % 2 == greedy_count(
            perm_of(rmove_edge_states()),
        ) % 2,
{
    let pc = perm_of(rmove_corner_states());
    let pe = perm_of(rmove_edge_states());
    let oc = oris_of(rmove_corner_states());
    let oe = oris_of(rmove_edge_states());
    let prc0 = seq![0int, 5int, 2int, 1int, 4int, 7int, 6int, 3int];
    assert(is_permutation(prc0));
    assert(first_misplaced_from(prc0, 1) == 1);
    assert(first_misplaced_from(prc0, 0) == 1);
    assert(first_misplaced(prc0) == 1);
    let prc1 = seq![0int, 7int, 2int, 1int, 4int, 5int, 6int, 3int];
    assert(prc1 =~= seq_swap(prc0, 5, 1));
    assert(is_permutation(prc1));
    assert(greedy_pairs(prc0) == seq![(5int, 1int)] + greedy_pairs(prc1));
    assert(first_misplaced_from(prc1, 1) == 1);
    assert(first_misplaced_from(prc1, 0) == 1);
    assert(first_misplaced(prc1) == 1);
    let prc2 = seq![0int, 3int, 2int, 1int, 4int, 5int, 6int, 7int];
    assert(prc2 =~= seq_swap(prc1, 7, 1));
    assert(is_permutation(prc2));
    assert(greedy_pairs(prc1) == seq![(7int, 1int)] + greedy_pairs(prc2));
    assert(first_misplaced_from(prc2, 1) == 1);
    assert(first_misplaced_from(prc2, 0) == 1);
    assert(first_misplaced(prc2) == 1);
    let prc3 = seq![0int, 1int, 2int, 3int, 4int, 5int, 6int, 7int];
    assert(prc3 =~= seq_swap(prc2, 3, 1));
    assert(is_permutation(prc3));
    assert(greedy_pairs(prc2) == seq![(3int, 1int)] + greedy_pairs(prc3));
    assert(first_misplaced_from(prc3, 8) == 8);
    assert(first_misplaced_from(prc3, 7) == 8);
    assert(first_misplaced_from(prc3, 6) == 8);
    assert(first_misplaced_from(prc3, 5) == 8);
    assert(first_misplaced_from(prc3, 4) == 8);
    assert(first_misplaced_from(prc3, 3) == 8);
    assert(first_misplaced_from(prc3, 2) == 8);
    assert(first_misplaced_from(prc3, 1) == 8);
    assert(first_misplaced_from(prc3, 0) == 8);
    assert(first_misplaced(prc3) == 8);
    assert(greedy_pairs(prc3) == Seq::<(int, int)>::empty());
    assert(greedy_count(prc0) == 3);
    assert(prc0 =~= pc);
    let pre0 = seq![0int, 1int, 5int, 3int, 4int, 10int, 6int, 2int, 8int, 9int, 7int, 11int];
    assert(is_permutation(pre0));
    assert(first_misplaced_from(pre0, 2) == 2);
    assert(first_misplaced_from(pre0, 1) == 2);
    assert(first_misplaced_from(pre0, 0) == 2);
    assert(first_misplaced(pre0) == 2);
    let pre1 = seq![0int, 1int, 10int, 3int, 4int, 5int, 6int, 2int, 8int, 9int, 7int, 11int];
    assert(pre1 =~= seq_swap(pre0, 5, 2));
    assert(is_permutation(pre1));
    assert(greedy_pairs(pre0) == seq![(5int, 2int)] + greedy_pairs(pre1));
    assert(first_misplaced_from(pre1, 2) == 2);
    assert(first_misplaced_from(pre1, 1) == 2);
    assert(first_misplaced_from(pre1, 0) == 2);
    assert(first_misplaced(pre1) == 2);
    let pre2 = seq![0int, 1int, 7int, 3int, 4int, 5int, 6int, 2int, 8int, 9int, 10int, 11int];
    assert(pre2 =~= seq_swap(pre1, 10, 2));
    assert(is_permutation(pre2));
    assert(greedy_pairs(pre1) == seq![(10int, 2int)] + greedy_pairs(pre2));
    assert(first_misplaced_from(pre2, 2) == 2);
    assert(first_misplaced_from(pre2, 1) == 2);
    assert(first_misplaced_from(pre2, 0) == 2);
    assert(first_misplaced(pre2) == 2);
    let pre3 = seq![0int, 1int, 2int, 3int, 4int, 5int, 6int, 7int, 8int, 9int, 10int, 11int];
    assert(pre3 =~= seq_swap(pre2, 7, 2));
    assert(is_permutation(pre3));
    assert(greedy_pairs(pre2) == seq![(7int, 2int)] + greedy_pairs(pre3));
    assert(first_misplaced_from(pre3, 12) == 12);
    assert(first_misplaced_from(pre3, 11) == 12);
    assert(first_misplaced_from(pre3, 10) == 12);
    assert(first_misplaced_from(pre3, 9) == 12);
    assert(first_misplaced_from(pre3, 8) == 12);
    assert(first_misplaced_from(pre3, 7) == 12);
    assert(first_misplaced_from(pre3, 6) == 12);
    assert(first_misplaced_from(pre3, 5) == 12);
    assert(first_misplaced_from(pre3, 4) == 12);
    assert(first_misplaced_from(pre3, 3) == 12);
    assert(first_misplaced_from(pre3, 2) == 12);
    assert(first_misplaced_from(pre3, 1) == 12);
    assert(first_misplaced_from(pre3, 0) == 12);
    assert(first_misplaced(pre3) == 12);
    assert(greedy_pairs(pre3) == Seq::<(int, int)>::empty());
    assert(greedy_count(pre0) == 3);
    assert(pre0 =~= pe);
    let srco0 = seq![0int, 2int, 0int, 1int, 0int, 1int, 0int, 2int];
    let srco1 = seq![2int, 0int, 1int, 0int, 1int, 0int, 2int];
    let srco2 = seq![0int, 1int, 0int, 1int, 0int, 2int];
    let srco3 = seq![1int, 0int, 1int, 0int, 2int];
    let srco4 = seq![0int, 1int, 0int, 2int];
    let srco5 = seq![1int, 0int, 2int];
    let srco6 = seq![0int, 2int];
    let srco7 = seq![2int];
    let srco8 = Seq::<int>::empty();
    assert(srco0.drop_first() =~= srco1);
    assert(srco1.drop_first() =~= srco2);
    assert(srco2.drop_first() =~= srco3);
    assert(srco3.drop_first() =~= srco4);
    assert(srco4.drop_first() =~= srco5);
    assert(srco5.drop_first() =~= srco6);
    assert(srco6.drop_first() =~= srco7);
    assert(srco7.drop_first() =~= srco8);
    assert(seq_sum(srco8) == 0);
    assert(seq_sum(srco7) == 2);
    assert(seq_sum(srco6) == 2);
    assert(seq_sum(srco5) == 3);
    assert(seq_sum(srco4) == 3);
    assert(seq_sum(srco3) == 4);
    assert(seq_sum(srco2) == 4);
    assert(seq_sum(srco1) == 6);
    assert(seq_sum(srco0) == 6);
    assert(srco0 =~= oc);
    let sreo0 = seq![0int, 0int, 0int, 0int, 0int, 0int, 0int, 0int, 0int, 0int, 0int, 0int];
    let sreo1 = seq![0int, 0int, 0int, 0int, 0int, 0int, 0int, 0int, 0int, 0int, 0int];
    let sreo2 = seq![0int, 0int, 0int, 0int, 0int, 0int, 0int, 0int, 0int, 0int];
    let sreo3 = seq![0int, 0int, 0int, 0int, 0int, 0int, 0int, 0int, 0int];
    let sreo4 = seq![0int, 0int, 0int, 0int, 0int, 0int, 0int, 0int];
    let sreo5 = seq![0int, 0int, 0int, 0int, 0int, 0int, 0int];
    let sreo6 = seq![0int, 0int, 0int, 0int, 0int, 0int];
    let sreo7 = seq![0int, 0int, 0int, 0int, 0int];
    let sreo8 = seq![0int, 0int, 0int, 0int];
    let sreo9 = seq![0int, 0int, 0int];
    let sreo10 = seq![0int, 0int];
    let sreo11 = seq![0int];
    let sreo12 = Seq::<int>::empty();
    assert(sreo0.drop_first() =~= sreo1);
    assert(sreo1.drop_first() =~= sreo2);
    assert(sreo2.drop_first() =~= sreo3);
    assert(sreo3.drop_first() =~= sreo4);
    assert(sreo4.drop_first() =~= sreo5);
    assert(sreo5.drop_first() =~= sreo6);
    assert(sreo6.drop_first() =~= sreo7);
    assert(sreo7.drop_first() =~= sreo8);
    assert(sreo8.drop_first() =~= sreo9);
    assert(sreo9.drop_first() =~= sreo10);
    assert(sreo10.drop_first() =~= sreo11);
    assert(sreo11.drop_first() =~= sreo12);
    assert(seq_sum(sreo12) == 0);
    assert(seq_sum(sreo11) == 0);
    assert(seq_sum(sreo10) == 0);
    assert(seq_sum(sreo9) == 0);
    assert(seq_sum(sreo8) == 0);
    assert(seq_sum(sreo7) == 0);
    assert(seq_sum(sreo6) == 0);
    assert(seq_sum(sreo5) == 0);
    assert(seq_sum(sreo4) == 0);
    assert(seq_sum(sreo3) == 0);
    assert(seq_sum(sreo2) == 0);
    assert(seq_sum(sreo1) == 0);
    assert(seq_sum(sreo0) == 0);
    assert(sreo0 =~= oe);
    assert(seq_sum(oc) == 6);
    assert(seq_sum(oe) == 0);
    assert(greedy_count(pc) == 3);
    assert(greedy_count(pe) == 3);
}

/// The U quarter-turn generator has zero orientation sums and
/// equal corner and edge permutation parities.
proof fn lemma_umove_banks()
    ensures
        seq_sum(oris_of(umove_corner_states())) % 3 == 0,
        seq_sum(oris_of(umove_edge_states())) % 2 == 0,
        greedy_count(perm_of(umove_corner_states())) % 2 == greedy_count(
            perm_of(umove_edge_states()),
        ) % 2,
{
    let pc = perm_of(umove_corner_states());
    let pe = perm_of(umove_edge_states());
    let oc = oris_of(umove_corner_states());
    let oe = oris_of(umove_edge_states());
    let puc0 = seq![1int, 3int, 0int, 2int, 4int, 5int, 6int, 7int];
    assert(is_permutation(puc0));
    assert(first_misplaced_from(puc0, 0) == 0);
    assert(first_misplaced(puc0) == 0);
    let puc1 = seq![3int, 1int, 0int, 2int, 4int, 5int, 6int, 7int];
    assert(puc1 =~= seq_swap(puc0, 1, 0));
    assert(is_permutation(puc1));
    assert(greedy_pairs(puc0) == seq![(1int, 0int)] + greedy_pairs(puc1));
    assert(first_misplaced_from(puc1, 0) == 0);
    assert(first_misplaced(puc1) == 0);
    let puc2 = seq![2int, 1int, 0int, 3int, 4int, 5int, 6int, 7int];
    assert(puc2 =~= seq_swap(puc1, 3, 0));
    assert(is_permutation(puc2));
    assert(greedy_pairs(puc1) == seq![(3int, 0int)] + greedy_pairs(puc2));
    assert(first_misplaced_from(puc2, 0) == 0);
    assert(first_misplaced(puc2) == 0);
    let puc3 = seq![0int, 1int, 2int, 3int, 4int, 5int, 6int, 7int];
    assert(puc3 =~= seq_swap(puc2, 2, 0));
    assert(is_permutation(puc3));
    assert(greedy_pairs(puc2) == seq![(2int, 0int)] + greedy_pairs(puc3));
    assert(first_misplaced_from(puc3, 8) == 8);
    assert(first_misplaced_from(puc3, 7) == 8);
    assert(first_misplaced_from(puc3, 6) == 8);
    assert(first_misplaced_from(puc3, 5) == 8);
    assert(first_misplaced_from(puc3, 4) == 8);
    assert(first_misplaced_from(puc3, 3) == 8);
    assert(first_misplaced_from(puc3, 2) == 8);
    assert(first_misplaced_from(puc3, 1) == 8);
    assert(first_misplaced_from(puc3, 0) == 8);
    assert(first_misplaced(puc3) == 8);
    assert(greedy_pairs(puc3) == Seq::<(int, int)>::empty());
    assert(greedy_count(puc0) == 3);
    assert(puc0 =~= pc);
    let pue0 = seq![2int, 0int, 3int, 1int, 4int, 5int, 6int, 7int, 8int, 9int, 10int, 11int];
    assert(is_permutation(pue0));
    assert(first_misplaced_from(pue0, 0) == 0);
    assert(first_misplaced(pue0) == 0);
    let pue1 = seq![3int, 0int, 2int, 1int, 4int, 5int, 6int, 7int, 8int, 9int, 10int, 11int];
    assert(pue1 =~= seq_swap(pue0, 2, 0));
    assert(is_permutation(pue1));
    assert(greedy_pairs(pue0) == seq![(2int, 0int)] + greedy_pairs(pue1));
    assert(first_misplaced_from(pue1, 0) == 0);
    assert(first_misplaced(pue1) == 0);
    let pue2 = seq![1int, 0int, 2int, 3int, 4int, 5int, 6int, 7int, 8int, 9int, 10int, 11int];
    assert(pue2 =~= seq_swap(pue1, 3, 0));
    assert(is_permutation(pue2));
    assert(greedy_pairs(pue1) == seq![(3int, 0int)] + greedy_pairs(pue2));
    assert(first_misplaced_from(pue2, 0) == 0);
    assert(first_misplaced(pue2) == 0);
    let pue3 = seq![0int, 1int, 2int, 3int, 4int, 5int, 6int, 7int, 8int, 9int, 10int, 11int];
    assert(pue3 =~= seq_swap(pue2, 1, 0));
    assert(is_permutation(pue3));
    assert(greedy_pairs(pue2) == seq![(1int, 0int)] + greedy_pairs(pue3));
    assert(first_misplaced_from(pue3, 12) == 12);
    assert(first_misplaced_from(pue3, 11) == 12);
    assert(first_misplaced_from(pue3, 10) == 12);
    assert(first_misplaced_from(pue3, 9) == 12);
    assert(first_misplaced_from(pue3, 8) == 12);
    assert(first_misplaced_from(pue3, 7) == 12);
    assert(first_misplaced_from(pue3, 6) == 12);
    assert(first_misplaced_from(pue3, 5) == 12);
    assert(first_misplaced_from(pue3, 4) == 12);
    assert(first_misplaced_from(pue3, 3) == 12);
    assert(first_misplaced_from(pue3, 2) == 12);
    assert(first_misplaced_from(pue3, 1) == 12);
    assert(first_misplaced_from(pue3, 0) == 12);
    assert(first_misplaced(pue3) == 12);
    assert(greedy_pairs(pue3) == Seq::<(int, int)>::empty());
    assert(greedy_count(pue0) == 3);
    assert(pue0 =~= pe);
    let suco0 = seq![0int, 0int, 0int, 0int, 0int, 0int, 0int, 0int];
    let suco1 = seq![0int, 0int, 0int, 0int, 0int, 0int, 0int];
    let suco2 = seq![0int, 0int, 0int, 0int, 0int, 0int];
    let suco3 = seq![0int, 0int, 0int, 0int, 0int];
    let suco4 = seq![0int, 0int, 0int, 0int];
    let suco5 = seq![0int, 0int, 0int];
    let suco6 = seq![0int, 0int];
    let suco7 = seq![0int];
    let suco8 = Seq::<int>::empty();
    assert(suco0.drop_first() =~= suco1);
    assert(suco1.drop_first() =~= suco2);
    assert(suco2.drop_first() =~= suco3);
    assert(suco3.drop_first() =~= suco4);
    assert(suco4.drop_first() =~= suco5);
    assert(suco5.drop_first() =~= suco6);
    assert(suco6.drop_first() =~= suco7);
    assert(suco7.drop_first() =~= suco8);
    assert(seq_sum(suco8) == 0);
    assert(seq_sum(suco7) == 0);
    assert(seq_sum(suco6) == 0);
    assert(seq_sum(suco5) == 0);
    assert(seq_sum(suco4) == 0);
    assert(seq_sum(suco3) == 0);
    assert(seq_sum(suco2) == 0);
    assert(seq_sum(suco1) == 0);
    assert(seq_sum(suco0) == 0);
    assert(suco0 =~= oc);
    let sueo0 = seq![0int, 0int, 0int, 0int, 0int, 0int, 0int, 0int, 0int, 0int, 0int, 0int];
    let sueo1 = seq![0int, 0int, 0int, 0int, 0int, 0int, 0int, 0int, 0int, 0int, 0int];
    let sueo2 = seq![0int, 0int, 0int, 0int, 0int, 0int, 0int, 0int, 0int, 0int];
    let sueo3 = seq![0int, 0int, 0int, 0int, 0int, 0int, 0int, 0int, 0int];
    let sueo4 = seq![0int, 0int, 0int, 0int, 0int, 0int, 0int, 0int];
    let sueo5 = seq![0int, 0int, 0int, 0int, 0int, 0int, 0int];
    let sueo6 = seq![0int, 0int, 0int, 0int, 0int, 0int];
    let sueo7 = seq![0int, 0int, 0int, 0int, 0int];
    let sueo8 = seq![0int, 0int, 0int, 0int];
    let sueo9 = seq![0int, 0int, 0int];
    let sueo10 = seq![0int, 0int];
    let sueo11 = seq![0int];
    let sueo12 = Seq::<int>::empty();
    assert(sueo0.drop_first() =~= sueo1);
    assert(sueo1.drop_first() =~= sueo2);
    assert(sueo2.drop_first() =~= sueo3);
    assert(sueo3.drop_first() =~= sueo4);
    assert(sueo4.drop_first() =~= sueo5);
    assert(sueo5.drop_first() =~= sueo6);
    assert(sueo6.drop_first() =~= sueo7);
    assert(sueo7.drop_first() =~= sueo8);
    assert(sueo8.drop_first() =~= sueo9);
    assert(sueo9.drop_first() =~= sueo10);
    assert(sueo10.drop_first() =~= sueo11);
    assert(sueo11.drop_first() =~= sueo12);
    assert(seq_sum(sueo12) == 0);
    assert(seq_sum(sueo11) == 0);
    assert(seq_sum(sueo10) == 0);
    assert(seq_sum(sueo9) == 0);
    assert(seq_sum(sueo8) == 0);
    assert(seq_sum(sueo7) == 0);
    assert(seq_sum(sueo6) == 0);
    assert(seq_sum(sueo5) == 0);
    assert(seq_sum(sueo4) == 0);
    assert(seq_sum(sueo3) == 0);
    assert(seq_sum(sueo2) == 0);
    assert(seq_sum(sueo1) == 0);
    assert(seq_sum(sueo0) == 0);
    assert(sueo0 =~= oe);
    assert(seq_sum(oc) == 0);
    assert(seq_sum(oe) == 0);
    assert(greedy_count(pc) == 3);
    assert(greedy_count(pe) == 3);
}

/// The F quarter-turn generator has zero orientation sums and
/// equal corner and edge permutation parities.
proof fn lemma_fmove_banks()
    ensures
        seq_sum(oris_of(fmove_corner_states())) % 3 == 0,
        seq_sum(oris_of(fmove_edge_states())) % 2 == 0,
        greedy_count(perm_of(fmove_corner_states())) % 2 == greedy_count(
            perm_of(fmove_edge_states()),
        ) % 2,
{
    let pc = perm_of(fmove_corner_states());
    let pe = perm_of(fmove_edge_states());
    let oc = oris_of(fmove_corner_states());
    let oe = oris_of(fmove_edge_states());
    let pfc0 = seq![0int, 1int, 3int, 7int, 4int, 5int, 2int, 6int];
    assert(is_permutation(pfc0));
    assert(first_misplaced_from(pfc0, 2) == 2);
    assert(first_misplaced_from(pfc0, 1) == 2);
    assert(first_misplaced_from(pfc0, 0) == 2);
    assert(first_misplaced(pfc0) == 2);
    let pfc1 = seq![0int, 1int, 7int, 3int, 4int, 5int, 2int, 6int];
    assert(pfc1 =~= seq_swap(pfc0, 3, 2));
    assert(is_permutation(pfc1));
    assert(greedy_pairs(pfc0) == seq![(3int, 2int)] + greedy_pairs(pfc1));
    assert(first_misplaced_from(pfc1, 2) == 2);
    assert(first_misplaced_from(pfc1, 1) == 2);
    assert(first_misplaced_from(pfc1, 0) == 2);
    assert(first_misplaced(pfc1) == 2);
    let pfc2 = seq![0int, 1int, 6int, 3int, 4int, 5int, 2int, 7int];
    assert(pfc2 =~= seq_swap(pfc1, 7, 2));
    assert(is_permutation(pfc2));
    assert(greedy_pairs(pfc1) == seq![(7int, 2int)] + greedy_pairs(pfc2));
    assert(first_misplaced_from(pfc2, 2) == 2);
    assert(first_misplaced_from(pfc2, 1) == 2);
    assert(first_misplaced_from(pfc2, 0) == 2);
    assert(first_misplaced(pfc2) == 2);
    let pfc3 = seq![0int, 1int, 2int, 3int, 4int, 5int, 6int, 7int];
    assert(pfc3 =~= seq_swap(pfc2, 6, 2));
    assert(is_permutation(pfc3));
    assert(greedy_pairs(pfc2) == seq![(6int, 2int)] + greedy_pairs(pfc3));
    assert(first_misplaced_from(pfc3, 8) == 8);
    assert(first_misplaced_from(pfc3, 7) == 8);
    assert(first_misplaced_from(pfc3, 6) == 8);
    assert(first_misplaced_from(pfc3, 5) == 8);
    assert(first_misplaced_from(pfc3, 4) == 8);
    assert(first_misplaced_from(pfc3, 3) == 8);
    assert(first_misplaced_from(pfc3, 2) == 8);
    assert(first_misplaced_from(pfc3, 1) == 8);
    assert(first_misplaced_from(pfc3, 0) == 8);
    assert(first_misplaced(pfc3) == 8);
    assert(greedy_pairs(pfc3) == Seq::<(int, int)>::empty());
    assert(greedy_count(pfc0) == 3);
    assert(pfc0 =~= pc);
    let pfe0 = seq![0int, 1int, 2int, 7int, 4int, 5int, 3int, 11int, 8int, 9int, 10int, 6int];
    assert(is_permutation(pfe0));
    assert(first_misplaced_from(pfe0, 3) == 3);
    assert(first_misplaced_from(pfe0, 2) == 3);
    assert(first_misplaced_from(pfe0, 1) == 3);
    assert(first_misplaced_from(pfe0, 0) == 3);
    assert(first_misplaced(pfe0) == 3);
    let pfe1 = seq![0int, 1int, 2int, 11int, 4int, 5int, 3int, 7int, 8int, 9int, 10int, 6int];
    assert(pfe1 =~= seq_swap(pfe0, 7, 3));
    assert(is_permutation(pfe1));
    assert(greedy_pairs(pfe0) == seq![(7int, 3int)] + greedy_pairs(pfe1));
    assert(first_misplaced_from(pfe1, 3) == 3);
    assert(first_misplaced_from(pfe1, 2) == 3);
    assert(first_misplaced_from(pfe1, 1) == 3);
    assert(first_misplaced_from(pfe1, 0) == 3);
    assert(first_misplaced(pfe1) == 3);
    let pfe2 = seq![0int, 1int, 2int, 6int, 4int, 5int, 3int, 7int, 8int, 9int, 10int, 11int];
    assert(pfe2 =~= seq_swap(pfe1, 11, 3));
    assert(is_permutation(pfe2));
    assert(greedy_pairs(pfe1) == seq![(11int, 3int)] + greedy_pairs(pfe2));
    assert(first_misplaced_from(pfe2, 3) == 3);
    assert(first_misplaced_from(pfe2, 2) == 3);
    assert(first_misplaced_from(pfe2, 1) == 3);
    assert(first_misplaced_from(pfe2, 0) == 3);
    assert(first_misplaced(pfe2) == 3);
    let pfe3 = seq![0int, 1int, 2int, 3int, 4int, 5int, 6int, 7int, 8int, 9int, 10int, 11int];
    assert(pfe3 =~= seq_swap(pfe2, 6, 3));
    assert(is_permutation(pfe3));
    assert(greedy_pairs(pfe2) == seq![(6int, 3int)] + greedy_pairs(pfe3));
    assert(first_misplaced_from(pfe3, 12) == 12);
    assert(first_misplaced_from(pfe3, 11) == 12);
    assert(first_misplaced_from(pfe3, 10) == 12);
    assert(first_misplaced_from(pfe3, 9) == 12);
    assert(first_misplaced_from(pfe3, 8) == 12);
    assert(first_misplaced_from(pfe3, 7) == 12);
    assert(first_misplaced_from(pfe3, 6) == 12);
    assert(first_misplaced_from(pfe3, 5) == 12);
    assert(first_misplaced_from(pfe3, 4) == 12);
    assert(first_misplaced_from(pfe3, 3) == 12);
    assert(first_misplaced_from(pfe3, 2) == 12);
    assert(first_misplaced_from(pfe3, 1) == 12);
    assert(first_misplaced_from(pfe3, 0) == 12);
    assert(first_misplaced(pfe3) == 12);
    assert(greedy_pairs(pfe3) == Seq::<(int, int)>::empty());
    assert(greedy_count(pfe0) == 3);
    assert(pfe0 =~= pe);
    let sfco0 = seq![0int, 0int, 1int, 2int, 0int, 0int, 2int, 1int];
    let sfco1 = seq![0int, 1int, 2int, 0int, 0int, 2int, 1int];
    let sfco2 = seq![1int, 2int, 0int, 0int, 2int, 1int];
    let sfco3 = seq![2int, 0int, 0int, 2int, 1int];
    let sfco4 = seq![0int, 0int, 2int, 1int];
    let sfco5 = seq![0int, 2int, 1int];
    let sfco6 = seq![2int, 1int];
    let sfco7 = seq![1int];
    let sfco8 = Seq::<int>::empty();
    assert(sfco0.drop_first() =~= sfco1);
    assert(sfco1.drop_first() =~= sfco2);
    assert(sfco2.drop_first() =~= sfco3);
    assert(sfco3.drop_first() =~= sfco4);
    assert(sfco4.drop_first() =~= sfco5);
    assert(sfco5.drop_first() =~= sfco6);
    assert(sfco6.drop_first() =~= sfco7);
    assert(sfco7.drop_first() =~= sfco8);
    assert(seq_sum(sfco8) == 0);
    assert(seq_sum(sfco7) == 1);
    assert(seq_sum(sfco6) == 3);
    assert(seq_sum(sfco5) == 3);
    assert(seq_sum(sfco4) == 3);
    assert(seq_sum(sfco3) == 5);
    assert(seq_sum(sfco2) == 6);
    assert(seq_sum(sfco1) == 6);
    assert(seq_sum(sfco0) == 6);
    assert(sfco0 =~= oc);
    let sfeo0 = seq![0int, 0int, 0int, 1int, 0int, 0int, 1int, 1int, 0int, 0int, 0int, 1int];
    let sfeo1 = seq![0int, 0int, 1int, 0int, 0int, 1int, 1int, 0int, 0int, 0int, 1int];
    let sfeo2 = seq![0int, 1int, 0int, 0int, 1int, 1int, 0int, 0int, 0int, 1int];
    let sfeo3 = seq![1int, 0int, 0int, 1int, 1int, 0int, 0int, 0int, 1int];
    let sfeo4 = seq![0int, 0int, 1int, 1int, 0int, 0int, 0int, 1int];
    let sfeo5 = seq![0int, 1int, 1int, 0int, 0int, 0int, 1int];
    let sfeo6 = seq![1int, 1int, 0int, 0int, 0int, 1int];
    let sfeo7 = seq![1int, 0int, 0int, 0int, 1int];
    let sfeo8 = seq![0int, 0int, 0int, 1int];
    let sfeo9 = seq![0int, 0int, 1int];
    let sfeo10 = seq![0int, 1int];
    let sfeo11 = seq![1int];
    let sfeo12 = Seq::<int>::empty();
    assert(sfeo0.drop_first() =~= sfeo1);
    assert(sfeo1.drop_first() =~= sfeo2);
    assert(sfeo2.drop_first() =~= sfeo3);
    assert(sfeo3.drop_first() =~= sfeo4);
    assert(sfeo4.drop_first() =~= sfeo5);
    assert(sfeo5.drop_first() =~= sfeo6);
    assert(sfeo6.drop_first() =~= sfeo7);
    assert(sfeo7.drop_first() =~= sfeo8);
    assert(sfeo8.drop_first() =~= sfeo9);
    assert(sfeo9.drop_first() =~= sfeo10);
    assert(sfeo10.drop_first() =~= sfeo11);
    assert(sfeo11.drop_first() =~= sfeo12);
    assert(seq_sum(sfeo12) == 0);
    assert(seq_sum(sfeo11) == 1);
    assert(seq_sum(sfeo10) == 1);
    assert(seq_sum(sfeo9) == 1);
    assert(seq_sum(sfeo8) == 1);
    assert(seq_sum(sfeo7) == 2);
    assert(seq_sum(sfeo6) == 3);
    assert(seq_sum(sfeo5) == 3);
    assert(seq_sum(sfeo4) == 3);
    assert(seq_sum(sfeo3) == 4);
    assert(seq_sum(sfeo2) == 4);
    assert(seq_sum(sfeo1) == 4);
    assert(seq_sum(sfeo0) == 4);
    assert(sfeo0 =~= oe);
    assert(seq_sum(oc) == 6);
    assert(seq_sum(oe) == 4);
    assert(greedy_count(pc) == 3);
    assert(greedy_count(pe) == 3);
}

/// The L quarter-turn generator has zero orientation sums and
/// equal corner and edge permutation parities.
proof fn lemma_lmove_banks()
    ensures
        seq_sum(oris_of(lmove_corner_states())) % 3 == 0,
        seq_sum(oris_of(lmove_edge_states())) % 2 == 0,
        greedy_count(perm_of(lmove_corner_states())) % 2 == greedy_count(
            perm_of(lmove_edge_states()),
        ) % 2,
{
    let pc = perm_of(lmove_corner_states());
    let pe = perm_of(lmove_edge_states());
    let oc = oris_of(lmove_corner_states());
    let oe = oris_of(lmove_edge_states());
    let plc0 = seq![2int, 1int, 6int, 3int, 0int, 5int, 4int, 7int];
    assert(is_permutation(plc0));
    assert(first_misplaced_from(plc0, 0) == 0);
    assert(first_misplaced(plc0) == 0);
    let plc1 = seq![6int, 1int, 2int, 3int, 0int, 5int, 4int, 7int];
    assert(plc1 =~= seq_swap(plc0, 2, 0));
    assert(is_permutation(plc1));
    assert(greedy_pairs(plc0) == seq![(2int, 0int)] + greedy_pairs(plc1));
    assert(first_misplaced_from(plc1, 0) == 0);
    assert(first_misplaced(plc1) == 0);
    let plc2 = seq![4int, 1int, 2int, 3int, 0int, 5int, 6int, 7int];
    assert(plc2 =~= seq_swap(plc1, 6, 0));
    assert(is_permutation(plc2));
    assert(greedy_pairs(plc1) == seq![(6int, 0int)] + greedy_pairs(plc2));
    assert(first_misplaced_from(plc2, 0) == 0);
    assert(first_misplaced(plc2) == 0);
    let plc3 = seq![0int, 1int, 2int, 3int, 4int, 5int, 6int, 7int];
    assert(plc3 =~= seq_swap(plc2, 4, 0));
    assert(is_permutation(plc3));
    assert(greedy_pairs(plc2) == seq![(4int, 0int)] + greedy_pairs(plc3));
    assert(first_misplaced_from(plc3, 8) == 8);
    assert(first_misplaced_from(plc3, 7) == 8);
    assert(first_misplaced_from(plc3, 6) == 8);
    assert(first_misplaced_from(plc3, 5) == 8);
    assert(first_misplaced_from(plc3, 4) == 8);
    assert(first_misplaced_from(plc3, 3) == 8);
    assert(first_misplaced_from(plc3, 2) == 8);
    assert(first_misplaced_from(plc3, 1) == 8);
    assert(first_misplaced_from(plc3, 0) == 8);
    assert(first_misplaced(plc3) == 8);
    assert(greedy_pairs(plc3) == Seq::<(int, int)>::empty());
    assert(greedy_count(plc0) == 3);
    assert(plc0 =~= pc);
    let ple0 = seq![0int, 6int, 2int, 3int, 1int, 5int, 9int, 7int, 8int, 4int, 10int, 11int];
    assert(is_permutation(ple0));
    assert(first_misplaced_from(ple0, 1) == 1);
    assert(first_misplaced_from(ple0, 0) == 1);
    assert(first_misplaced(ple0) == 1);
    let ple1 = seq![0int, 9int, 2int, 3int, 1int, 5int, 6int, 7int, 8int, 4int, 10int, 11int];
    assert(ple1 =~= seq_swap(ple0, 6, 1));
    assert(is_permutation(ple1));
    assert(greedy_pairs(ple0) == seq![(6int, 1int)] + greedy_pairs(ple1));
    assert(first_misplaced_from(ple1, 1) == 1);
    assert(first_misplaced_from(ple1, 0) == 1);
    assert(first_misplaced(ple1) == 1);
    let ple2 = seq![0int, 4int, 2int, 3int, 1int, 5int, 6int, 7int, 8int, 9int, 10int, 11int];
    assert(ple2 =~= seq_swap(ple1, 9, 1));
    assert(is_permutation(ple2));
    assert(greedy_pairs(ple1) == seq![(9int, 1int)] + greedy_pairs(ple2));
    assert(first_misplaced_from(ple2, 1) == 1);
    assert(first_misplaced_from(ple2, 0) == 1);
    assert(first_misplaced(ple2) == 1);
    let ple3 = seq![0int, 1int, 2int, 3int, 4int, 5int, 6int, 7int, 8int, 9int, 10int, 11int];
    assert(ple3 =~= seq_swap(ple2, 4, 1));
    assert(is_permutation(ple3));
    assert(greedy_pairs(ple2) == seq![(4int, 1int)] + greedy_pairs(ple3));
    assert(first_misplaced_from(ple3, 12) == 12);
    assert(first_misplaced_from(ple3, 11) == 12);
    assert(first_misplaced_from(ple3, 10) == 12);
    assert(first_misplaced_from(ple3, 9) == 12);
    assert(first_misplaced_from(ple3, 8) == 12);
    assert(first_misplaced_from(ple3, 7) == 12);
    assert(first_misplaced_from(ple3, 6) == 12);
    assert(first_misplaced_from(ple3, 5) == 12);
    assert(first_misplaced_from(ple3, 4) == 12);
    assert(first_misplaced_from(ple3, 3) == 12);
    assert(first_misplaced_from(ple3, 2) == 12);
    assert(first_misplaced_from(ple3, 1) == 12);
    assert(first_misplaced_from(ple3, 0) == 12);
    assert(first_misplaced(ple3) == 12);
    assert(greedy_pairs(ple3) == Seq::<(int, int)>::empty());
    assert(greedy_count(ple0) == 3);
    assert(ple0 =~= pe);
    let slco0 = seq![1int, 0int, 2int, 0int, 2int, 0int, 1int, 0int];
    let slco1 = seq![0int, 2int, 0int, 2int, 0int, 1int, 0int];
    let slco2 = seq![2int, 0int, 2int, 0int, 1int, 0int];
    let slco3 = seq![0int, 2int, 0int, 1int, 0int];
    let slco4 = seq![2int, 0int, 1int, 0int];
    let slco5 = seq![0int, 1int, 0int];
    let slco6 = seq![1int, 0int];
    let slco7 = seq![0int];
    let slco8 = Seq::<int>::empty();
    assert(slco0.drop_first() =~= slco1);
    assert(slco1.drop_first() =~= slco2);
    assert(slco2.drop_first() =~= slco3);
    assert(slco3.drop_first() =~= slco4);
    assert(slco4.drop_first() =~= slco5);
    assert(slco5.drop_first() =~= slco6);
    assert(slco6.drop_first() =~= slco7);
    assert(slco7.drop_first() =~= slco8);
    assert(seq_sum(slco8) == 0);
    assert(seq_sum(slco7) == 0);
    assert(seq_sum(slco6) == 1);
    assert(seq_sum(slco5) == 1);
    assert(seq_sum(slco4) == 3);
    assert(seq_sum(slco3) == 3);
    assert(seq_sum(slco2) == 5);
    assert(seq_sum(slco1) == 5);
    assert(seq_sum(slco0) == 6);
    assert(slco0 =~= oc);
    let sleo0 = seq![0int, 0int, 0int, 0int, 0int, 0int, 0int, 0int, 0int, 0int, 0int, 0int];
    let sleo1 = seq![0int, 0int, 0int, 0int, 0int, 0int, 0int, 0int, 0int, 0int, 0int];
    let sleo2 = seq![0int, 0int, 0int, 0int, 0int, 0int, 0int, 0int, 0int, 0int];
    let sleo3 = seq![0int, 0int, 0int, 0int, 0int, 0int, 0int, 0int, 0int];
    let sleo4 = seq![0int, 0int, 0int, 0int, 0int, 0int, 0int, 0int];
    let sleo5 = seq![0int, 0int, 0int, 0int, 0int, 0int, 0int];
    let sleo6 = seq![0int, 0int, 0int, 0int, 0int, 0int];
    let sleo7 = seq![0int, 0int, 0int, 0int, 0int];
    let sleo8 = seq![0int, 0int, 0int, 0int];
    let sleo9 = seq![0int, 0int, 0int];
    let sleo10 = seq![0int, 0int];
    let sleo11 = seq![0int];
    let sleo12 = Seq::<int>::empty();
    assert(sleo0.drop_first() =~= sleo1);
    assert(sleo1.drop_first() =~= sleo2);
    assert(sleo2.drop_first() =~= sleo3);
    assert(sleo3.drop_first() =~= sleo4);
    assert(sleo4.drop_first() =~= sleo5);
    assert(sleo5.drop_first() =~= sleo6);
    assert(sleo6.drop_first() =~= sleo7);
    assert(sleo7.drop_first() =~= sleo8);
    assert(sleo8.drop_first() =~= sleo9);
    assert(sleo9.drop_first() =~= sleo10);
    assert(sleo10.drop_first() =~= sleo11);
    assert(sleo11.drop_first() =~= sleo12);
    assert(seq_sum(sleo12) == 0);
    assert(seq_sum(sleo11) == 0);
    assert(seq_sum(sleo10) == 0);
    assert(seq_sum(sleo9) == 0);
    assert(seq_sum(sleo8) == 0);
    assert(seq_sum(sleo7) == 0);
    assert(seq_sum(sleo6) == 0);
    assert(seq_sum(sleo5) == 0);
    assert(seq_sum(sleo4) == 0);
    assert(seq_sum(sleo3) == 0);
    assert(seq_sum(sleo2) == 0);
    assert(seq_sum(sleo1) == 0);
    assert(seq_sum(sleo0) == 0);
    assert(sleo0 =~= oe);
    assert(seq_sum(oc) == 6);
    assert(seq_sum(oe) == 0);
    assert(greedy_count(pc) == 3);
    assert(greedy_count(pe) == 3);
}

/// The B quarter-turn generator has zero orientation sums and
/// equal corner and edge permutation parities.
proof fn lemma_bmove_banks()
    ensures
        seq_sum(oris_of(bmove_corner_states())) % 3 == 0,
        seq_sum(oris_of(bmove_edge_states())) % 2 == 0,
        greedy_count(perm_of(bmove_corner_states())) % 2 == greedy_count(
            perm_of(bmove_edge_states()),
        ) % 2,
{
    let pc = perm_of(bmove_corner_states());
    let pe = perm_of(bmove_edge_states());
    let oc = oris_of(bmove_corner_states());
    let oe = oris_of(bmove_edge_states());
    let pbc0 = seq![4int, 0int, 2int, 3int, 5int, 1int, 6int, 7int];
    assert(is_permutation(pbc0));
    assert(first_misplaced_from(pbc0, 0) == 0);
    assert(first_misplaced(pbc0) == 0);
    let pbc1 = seq![5int, 0int, 2int, 3int, 4int, 1int, 6int, 7int];
    assert(pbc1 =~= seq_swap(pbc0, 4, 0));
    assert(is_permutation(pbc1));
    assert(greedy_pairs(pbc0) == seq![(4int, 0int)] + greedy_pairs(pbc1));
    assert(first_misplaced_from(pbc1, 0) == 0);
    assert(first_misplaced(pbc1) == 0);
    let pbc2 = seq![1int, 0int, 2int, 3int, 4int, 5int, 6int, 7int];
    assert(pbc2 =~= seq_swap(pbc1, 5, 0));
    assert(is_permutation(pbc2));
    assert(greedy_pairs(pbc1) == seq![(5int, 0int)] + greedy_pairs(pbc2));
    assert(first_misplaced_from(pbc2, 0) == 0);
    assert(first_misplaced(pbc2) == 0);
    let pbc3 = seq![0int, 1int, 2int, 3int, 4int, 5int, 6int, 7int];
    assert(pbc3 =~= seq_swap(pbc2, 1, 0));
    assert(is_permutation(pbc3));
    assert(greedy_pairs(pbc2) == seq![(1int, 0int)] + greedy_pairs(pbc3));
    assert(first_misplaced_from(pbc3, 8) == 8);
    assert(first_misplaced_from(pbc3, 7) == 8);
    assert(first_misplaced_from(pbc3, 6) == 8);
    assert(first_misplaced_from(pbc3, 5) == 8);
    assert(first_misplaced_from(pbc3, 4) == 8);
    assert(first_misplaced_from(pbc3, 3) == 8);
    assert(first_misplaced_from(pbc3, 2) == 8);
    assert(first_misplaced_from(pbc3, 1) == 8);
    assert(first_misplaced_from(pbc3, 0) == 8);
    assert(first_misplaced(pbc3) == 8);
    assert(greedy_pairs(pbc3) == Seq::<(int, int)>::empty());
    assert(greedy_count(pbc0) == 3);
    assert(pbc0 =~= pc);
    let pbe0 = seq![4int, 1int, 2int, 3int, 8int, 0int, 6int, 7int, 5int, 9int, 10int, 11int];
    assert(is_permutation(pbe0));
    assert(first_misplaced_from(pbe0, 0) == 0);
    assert(first_misplaced(pbe0) == 0);
    let pbe1 = seq![8int, 1int, 2int, 3int, 4int, 0int, 6int, 7int, 5int, 9int, 10int, 11int];
    assert(pbe1 =~= seq_swap(pbe0, 4, 0));
    assert(is_permutation(pbe1));
    assert(greedy_pairs(pbe0) == seq![(4int, 0int)] + greedy_pairs(pbe1));
    assert(first_misplaced_from(pbe1, 0) == 0);
    assert(first_misplaced(pbe1) == 0);
    let pbe2 = seq![5int, 1int, 2int, 3int, 4int, 0int, 6int, 7int, 8int, 9int, 10int, 11int];
    assert(pbe2 =~= seq_swap(pbe1, 8, 0));
    assert(is_permutation(pbe2));
    assert(greedy_pairs(pbe1) == seq![(8int, 0int)] + greedy_pairs(pbe2));
    assert(first_misplaced_from(pbe2, 0) == 0);
    assert(first_misplaced(pbe2) == 0);
    let pbe3 = seq![0int, 1int, 2int, 3int, 4int, 5int, 6int, 7int, 8int, 9int, 10int, 11int];
    assert(pbe3 =~= seq_swap(pbe2, 5, 0));
    assert(is_permutation(pbe3));
    assert(greedy_pairs(pbe2) == seq![(5int, 0int)] + greedy_pairs(pbe3));
    assert(first_misplaced_from(pbe3, 12) == 12);
    assert(first_misplaced_from(pbe3, 11) == 12);
    assert(first_misplaced_from(pbe3, 10) == 12);
    assert(first_misplaced_from(pbe3, 9) == 12);
    assert(first_misplaced_from(pbe3, 8) == 12);
    assert(first_misplaced_from(pbe3, 7) == 12);
    assert(first_misplaced_from(pbe3, 6) == 12);
    assert(first_misplaced_from(pbe3, 5) == 12);
    assert(first_misplaced_from(pbe3, 4) == 12);
    assert(first_misplaced_from(pbe3, 3) == 12);
    assert(first_misplaced_from(pbe3, 2) == 12);
    assert(first_misplaced_from(pbe3, 1) == 12);
    assert(first_misplaced_from(pbe3, 0) == 12);
    assert(first_misplaced(pbe3) == 12);
    assert(greedy_pairs(pbe3) == Seq::<(int, int)>::empty());
    assert(greedy_count(pbe0) == 3);
    assert(pbe0 =~= pe);
    let sbco0 = seq![2int, 1int, 0int, 0int, 1int, 2int, 0int, 0int];
    let sbco1 = seq![1int, 0int, 0int, 1int, 2int, 0int, 0int];
    let sbco2 = seq![0int, 0int, 1int, 2int, 0int, 0int];
    let sbco3 = seq![0int, 1int, 2int, 0int, 0int];
    let sbco4 = seq![1int, 2int, 0int, 0int];
    let sbco5 = seq![2int, 0int, 0int];
    let sbco6 = seq![0int, 0int];
    let sbco7 = seq![0int];
    let sbco8 = Seq::<int>::empty();
    assert(sbco0.drop_first() =~= sbco1);
    assert(sbco1.drop_first() =~= sbco2);
    assert(sbco2.drop_first() =~= sbco3);
    assert(sbco3.drop_first() =~= sbco4);
    assert(sbco4.drop_first() =~= sbco5);
    assert(sbco5.drop_first() =~= sbco6);
    assert(sbco6.drop_first() =~= sbco7);
    assert(sbco7.drop_first() =~= sbco8);
    assert(seq_sum(sbco8) == 0);
    assert(seq_sum(sbco7) == 0);
    assert(seq_sum(sbco6) == 0);
    assert(seq_sum(sbco5) == 2);
    assert(seq_sum(sbco4) == 3);
    assert(seq_sum(sbco3) == 3);
    assert(seq_sum(sbco2) == 3);
    assert(seq_sum(sbco1) == 4);
    assert(seq_sum(sbco0) == 6);
    assert(sbco0 =~= oc);
    let sbeo0 = seq![1int, 0int, 0int, 0int, 1int, 1int, 0int, 0int, 1int, 0int, 0int, 0int];
    let sbeo1 = seq![0int, 0int, 0int, 1int, 1int, 0int, 0int, 1int, 0int, 0int, 0int];
    let sbeo2 = seq![0int, 0int, 1int, 1int, 0int, 0int, 1int, 0int, 0int, 0int];
    let sbeo3 = seq![0int, 1int, 1int, 0int, 0int, 1int, 0int, 0int, 0int];
    let sbeo4 = seq![1int, 1int, 0int, 0int, 1int, 0int, 0int, 0int];
    let sbeo5 = seq![1int, 0int, 0int, 1int, 0int, 0int, 0int];
    let sbeo6 = seq![0int, 0int, 1int, 0int, 0int, 0int];
    let sbeo7 = seq![0int, 1int, 0int, 0int, 0int];
    let sbeo8 = seq![1int, 0int, 0int, 0int];
    let sbeo9 = seq![0int, 0int, 0int];
    let sbeo10 = seq![0int, 0int];
    let sbeo11 = seq![0int];
    let sbeo12 = Seq::<int>::empty();
    assert(sbeo0.drop_first() =~= sbeo1);
    assert(sbeo1.drop_first() =~= sbeo2);
    assert(sbeo2.drop_first() =~= sbeo3);
    assert(sbeo3.drop_first() =~= sbeo4);
    assert(sbeo4.drop_first() =~= sbeo5);
    assert(sbeo5.drop_first() =~= sbeo6);
    assert(sbeo6.drop_first() =~= sbeo7);
    assert(sbeo7.drop_first() =~= sbeo8);
    assert(sbeo8.drop_first() =~= sbeo9);
    assert(sbeo9.drop_first() =~= sbeo10);
    assert(sbeo10.drop_first() =~= sbeo11);
    assert(sbeo11.drop_first() =~= sbeo12);
    assert(seq_sum(sbeo12) == 0);
    assert(seq_sum(sbeo11) == 0);
    assert(seq_sum(sbeo10) == 0);
    assert(seq_sum(sbeo9) == 0);
    assert(seq_sum(sbeo8) == 1);
    assert(seq_sum(sbeo7) == 1);
    assert(seq_sum(sbeo6) == 1);
    assert(seq_sum(sbeo5) == 2);
    assert(seq_sum(sbeo4) == 3);
    assert(seq_sum(sbeo3) == 3);
    assert(seq_sum(sbeo2) == 3);
    assert(seq_sum(sbeo1) == 3);
    assert(seq_sum(sbeo0) == 4);
    assert(sbeo0 =~= oe);
    assert(seq_sum(oc) == 6);
    assert(seq_sum(oe) == 4);
    assert(greedy_count(pc) == 3);
    assert(greedy_count(pe) == 3);
}

/// The D quarter-turn generator has zero orientation sums and
/// equal corner and edge permutation parities.
proof fn lemma_dmove_banks()
    ensures
        seq_sum(oris_of(dmove_corner_states())) % 3 == 0,
        seq_sum(oris_of(dmove_edge_states())) % 2 == 0,
        greedy_count(perm_of(dmove_corner_states())) % 2 == greedy_count(
            perm_of(dmove_edge_states()),
        ) % 2,
{
    let pc = perm_of(dmove_corner_states());
    let pe = perm_of(dmove_edge_states());
    let oc = oris_of(dmove_corner_states());
    let oe = oris_of(dmove_edge_states());
    let pdc0 = seq![0int, 1int, 2int, 3int, 6int, 4int, 7int, 5int];
    assert(is_permutation(pdc0));
    assert(first_misplaced_from(pdc0, 4) == 4);
    assert(first_misplaced_from(pdc0, 3) == 4);
    assert(first_misplaced_from(pdc0, 2) == 4);
    assert(first_misplaced_from(pdc0, 1) == 4);
    assert(first_misplaced_from(pdc0, 0) == 4);
    assert(first_misplaced(pdc0) == 4);
    let pdc1 = seq![0int, 1int, 2int, 3int, 7int, 4int, 6int, 5int];
    assert(pdc1 =~= seq_swap(pdc0, 6, 4));
    assert(is_permutation(pdc1));
    assert(greedy_pairs(pdc0) == seq![(6int, 4int)] + greedy_pairs(pdc1));
    assert(first_misplaced_from(pdc1, 4) == 4);
    assert(first_misplaced_from(pdc1, 3) == 4);
    assert(first_misplaced_from(pdc1, 2) == 4);
    assert(first_misplaced_from(pdc1, 1) == 4);
    assert(first_misplaced_from(pdc1, 0) == 4);
    assert(first_misplaced(pdc1) == 4);
    let pdc2 = seq![0int, 1int, 2int, 3int, 5int, 4int, 6int, 7int];
    assert(pdc2 =~= seq_swap(pdc1, 7, 4));
    assert(is_permutation(pdc2));
    assert(greedy_pairs(pdc1) == seq![(7int, 4int)] + greedy_pairs(pdc2));
    assert(first_misplaced_from(pdc2, 4) == 4);
    assert(first_misplaced_from(pdc2, 3) == 4);
    assert(first_misplaced_from(pdc2, 2) == 4);
    assert(first_misplaced_from(pdc2, 1) == 4);
    assert(first_misplaced_from(pdc2, 0) == 4);
    assert(first_misplaced(pdc2) == 4);
    let pdc3 = seq![0int, 1int, 2int, 3int, 4int, 5int, 6int, 7int];
    assert(pdc3 =~= seq_swap(pdc2, 5, 4));
    assert(is_permutation(pdc3));
    assert(greedy_pairs(pdc2) == seq![(5int, 4int)] + greedy_pairs(pdc3));
    assert(first_misplaced_from(pdc3, 8) == 8);
    assert(first_misplaced_from(pdc3, 7) == 8);
    assert(first_misplaced_from(pdc3, 6) == 8);
    assert(first_misplaced_from(pdc3, 5) == 8);
    assert(first_misplaced_from(pdc3, 4) == 8);
    assert(first_misplaced_from(pdc3, 3) == 8);
    assert(first_misplaced_from(pdc3, 2) == 8);
    assert(first_misplaced_from(pdc3, 1) == 8);
    assert(first_misplaced_from(pdc3, 0) == 8);
    assert(first_misplaced(pdc3) == 8);
    assert(greedy_pairs(pdc3) == Seq::<(int, int)>::empty());
    assert(greedy_count(pdc0) == 3);
    assert(pdc0 =~= pc);
    let pde0 = seq![0int, 1int, 2int, 3int, 4int, 5int, 6int, 7int, 9int, 11int, 8int, 10int];
    assert(is_permutation(pde0));
    assert(first_misplaced_from(pde0, 8) == 8);
    assert(first_misplaced_from(pde0, 7) == 8);
    assert(first_misplaced_from(pde0, 6) == 8);
    assert(first_misplaced_from(pde0, 5) == 8);
    assert(first_misplaced_from(pde0, 4) == 8);
    assert(first_misplaced_from(pde0, 3) == 8);
    assert(first_misplaced_from(pde0, 2) == 8);
    assert(first_misplaced_from(pde0, 1) == 8);
    assert(first_misplaced_from(pde0, 0) == 8);
    assert(first_misplaced(pde0) == 8);
    let pde1 = seq![0int, 1int, 2int, 3int, 4int, 5int, 6int, 7int, 11int, 9int, 8int, 10int];
    assert(pde1 =~= seq_swap(pde0, 9, 8));
    assert(is_permutation(pde1));
    assert(greedy_pairs(pde0) == seq![(9int, 8int)] + greedy_pairs(pde1));
    assert(first_misplaced_from(pde1, 8) == 8);
    assert(first_misplaced_from(pde1, 7) == 8);
    assert(first_misplaced_from(pde1, 6) == 8);
    assert(first_misplaced_from(pde1, 5) == 8);
    assert(first_misplaced_from(pde1, 4) == 8);
    assert(first_misplaced_from(pde1, 3) == 8);
    assert(first_misplaced_from(pde1, 2) == 8);
    assert(first_misplaced_from(pde1, 1) == 8);
    assert(first_misplaced_from(pde1, 0) == 8);
    assert(first_misplaced(pde1) == 8);
    let pde2 = seq![0int, 1int, 2int, 3int, 4int, 5int, 6int, 7int, 10int, 9int, 8int, 11int];
    assert(pde2 =~= seq_swap(pde1, 11, 8));
    assert(is_permutation(pde2));
    assert(greedy_pairs(pde1) == seq![(11int, 8int)] + greedy_pairs(pde2));
    assert(first_misplaced_from(pde2, 8) == 8);
    assert(first_misplaced_from(pde2, 7) == 8);
    assert(first_misplaced_from(pde2, 6) == 8);
    assert(first_misplaced_from(pde2, 5) == 8);
    assert(first_misplaced_from(pde2, 4) == 8);
    assert(first_misplaced_from(pde2, 3) == 8);
    assert(first_misplaced_from(pde2, 2) == 8);
    assert(first_misplaced_from(pde2, 1) == 8);
    assert(first_misplaced_from(pde2, 0) == 8);
    assert(first_misplaced(pde2) == 8);
    let pde3 = seq![0int, 1int, 2int, 3int, 4int, 5int, 6int, 7int, 8int, 9int, 10int, 11int];
    assert(pde3 =~= seq_swap(pde2, 10, 8));
    assert(is_permutation(pde3));
    assert(greedy_pairs(pde2) == seq![(10int, 8int)] + greedy_pairs(pde3));
    assert(first_misplaced_from(pde3, 12) == 12);
    assert(first_misplaced_from(pde3, 11) == 12);
    assert(first_misplaced_from(pde3, 10) == 12);
    assert(first_misplaced_from(pde3, 9) == 12);
    assert(first_misplaced_from(pde3, 8) == 12);
    assert(first_misplaced_from(pde3, 7) == 12);
    assert(first_misplaced_from(pde3, 6) == 12);
    assert(first_misplaced_from(pde3, 5) == 12);
    assert(first_misplaced_from(pde3, 4) == 12);
    assert(first_misplaced_from(pde3, 3) == 12);
    assert(first_misplaced_from(pde3, 2) == 12);
    assert(first_misplaced_from(pde3, 1) == 12);
    assert(first_misplaced_from(pde3, 0) == 12);
    assert(first_misplaced(pde3) == 12);
    assert(greedy_pairs(pde3) == Seq::<(int, int)>::empty());
    assert(greedy_count(pde0) == 3);
    assert(pde0 =~= pe);
    let sdco0 = seq![0int, 0int, 0int, 0int, 0int, 0int, 0int, 0int];
    let sdco1 = seq![0int, 0int, 0int, 0int, 0int, 0int, 0int];
    let sdco2 = seq![0int, 0int, 0int, 0int, 0int, 0int];
    let sdco3 = seq![0int, 0int, 0int, 0int, 0int];
    let sdco4 = seq![0int, 0int, 0int, 0int];
    let sdco5 = seq![0int, 0int, 0int];
    let sdco6 = seq![0int, 0int];
    let sdco7 = seq![0int];
    let sdco8 = Seq::<int>::empty();
    assert(sdco0.drop_first() =~= sdco1);
    assert(sdco1.drop_first() =~= sdco2);
    assert(sdco2.drop_first() =~= sdco3);
    assert(sdco3.drop_first() =~= sdco4);
    assert(sdco4.drop_first() =~= sdco5);
    assert(sdco5.drop_first() =~= sdco6);
    assert(sdco6.drop_first() =~= sdco7);
    assert(sdco7.drop_first() =~= sdco8);
    assert(seq_sum(sdco8) == 0);
    assert(seq_sum(sdco7) == 0);
    assert(seq_sum(sdco6) == 0);
    assert(seq_sum(sdco5) == 0);
    assert(seq_sum(sdco4) == 0);
    assert(seq_sum(sdco3) == 0);
    assert(seq_sum(sdco2) == 0);
    assert(seq_sum(sdco1) == 0);
    assert(seq_sum(sdco0) == 0);
    assert(sdco0 =~= oc);
    let sdeo0 = seq![0int, 0int, 0int, 0int, 0int, 0int, 0int, 0int, 0int, 0int, 0int, 0int];
    let sdeo1 = seq![0int, 0int, 0int, 0int, 0int, 0int, 0int, 0int, 0int, 0int, 0int];
    let sdeo2 = seq![0int, 0int, 0int, 0int, 0int, 0int, 0int, 0int, 0int, 0int];
    let sdeo3 = seq![0int, 0int, 0int, 0int, 0int, 0int, 0int, 0int, 0int];
    let sdeo4 = seq![0int, 0int, 0int, 0int, 0int, 0int, 0int, 0int];
    let sdeo5 = seq![0int, 0int, 0int, 0int, 0int, 0int, 0int];
    let sdeo6 = seq![0int, 0int, 0int, 0int, 0int, 0int];
    let sdeo7 = seq![0int, 0int, 0int, 0int, 0int];
    let sdeo8 = seq![0int, 0int, 0int, 0int];
    let sdeo9 = seq![0int, 0int, 0int];
    let sdeo10 = seq![0int, 0int];
    let sdeo11 = seq![0int];
    let sdeo12 = Seq::<int>::empty();
    assert(sdeo0.drop_first() =~= sdeo1);
    assert(sdeo1.drop_first() =~= sdeo2);
    assert(sdeo2.drop_first() =~= sdeo3);
    assert(sdeo3.drop_first() =~= sdeo4);
    assert(sdeo4.drop_first() =~= sdeo5);
    assert(sdeo5.drop_first() =~= sdeo6);
    assert(sdeo6.drop_first() =~= sdeo7);
    assert(sdeo7.drop_first() =~= sdeo8);
    assert(sdeo8.drop_first() =~= sdeo9);
    assert(sdeo9.drop_first() =~= sdeo10);
    assert(sdeo10.drop_first() =~= sdeo11);
    assert(sdeo11.drop_first() =~= sdeo12);
    assert(seq_sum(sdeo12) == 0);
    assert(seq_sum(sdeo11) == 0);
    assert(seq_sum(sdeo10) == 0);
    assert(seq_sum(sdeo9) == 0);
    assert(seq_sum(sdeo8) == 0);
    assert(seq_sum(sdeo7) == 0);
    assert(seq_sum(sdeo6) == 0);
    assert(seq_sum(sdeo5) == 0);
    assert(seq_sum(sdeo4) == 0);
    assert(seq_sum(sdeo3) == 0);
    assert(seq_sum(sdeo2) == 0);
    assert(seq_sum(sdeo1) == 0);
    assert(seq_sum(sdeo0) == 0);
    assert(sdeo0 =~= oe);
    assert(seq_sum(oc) == 0);
    assert(seq_sum(oe) == 0);
    assert(greedy_count(pc) == 3);
    assert(greedy_count(pe) == 3);
}

/// A pair of banks that keeps cubes physically reachable: zero
/// orientation sums and matching permutation parities.
pub open spec fn banks_keep_possible(c: Seq<(int, int)>, e: Seq<(int, int)>) -> bool {
    &&& wf_states(c, 3)
    &&& wf_states(e, 2)
    &&& c.len() == 8
    &&& e.len() == 12
    &&& seq_sum(oris_of(c)) % 3 == 0
    &&& seq_sum(oris_of(e)) % 2 == 0
    &&& greedy_count(perm_of(c)) % 2 == greedy_count(perm_of(e)) % 2
}

/// Two bank pairs that keep cubes possible compose to one that does.
pub proof fn lemma_compose_keeps_possible(
    ca: Seq<(int, int)>,
    ea: Seq<(int, int)>,
    cb: Seq<(int, int)>,
    eb: Seq<(int, int)>,
)
    requires
        banks_keep_possible(ca, ea),
        banks_keep_possible(cb, eb),
    ensures
        banks_keep_possible(compose_states(ca, cb, 3), compose_states(ea, eb, 2)),
{
    lemma_compose_wf(ca, cb, 3);
    lemma_compose_wf(ea, eb, 2);
    lemma_compose_ori_sum(ca, cb, 3);
    lemma_compose_ori_sum(ea, eb, 2);
    assert(perm_of(compose_states(ca, cb, 3)) =~= seq_compose(perm_of(ca), perm_of(cb)));
    assert(perm_of(compose_states(ea, eb, 2)) =~= seq_compose(perm_of(ea), perm_of(eb)));
    lemma_greedy_parity_compose(perm_of(ca), perm_of(cb));
    lemma_greedy_parity_compose(perm_of(ea), perm_of(eb));
}

/// Every move's generator banks keep cubes physically reachable: the
/// quarter-turn generators do, and the derived turns are compositions.
pub proof fn lemma_move_banks_keep_possible(m: Move)
    ensures
        banks_keep_possible(move_corner_states(m), move_edge_states(m)),
{
    crate::coord_cube::lemma_move_states_wf(Move::L);
    crate::coord_cube::lemma_move_states_wf(Move::R);
    crate::coord_cube::lemma_move_states_wf(Move::D);
    crate::coord_cube::lemma_move_states_wf(Move::U);
    crate::coord_cube::lemma_move_states_wf(Move::F);
    crate::coord_cube::lemma_move_states_wf(Move::B);
    lemma_lmove_banks();
    lemma_rmove_banks();
    lemma_umove_banks();
    lemma_dmove_banks();
    lemma_fmove_banks();
    lemma_bmove_banks();
    if m == Move::L2 || m == Move::Li {
        lemma_compose_keeps_possible(
            lmove_corner_states(),
            lmove_edge_states(),
            lmove_corner_states(),
            lmove_edge_states(),
        );
        if m == Move::Li {
            lemma_compose_keeps_possible(
                compose_states(lmove_corner_states(), lmove_corner_states(), 3),
                compose_states(lmove_edge_states(), lmove_edge_states(), 2),
                lmove_corner_states(),
                lmove_edge_states(),
            );
        }
    }
    if m == Move::R2 || m == Move::Ri {
        lemma_compose_keeps_possible(
            rmove_corner_states(),
            rmove_edge_states(),
            rmove_corner_states(),
            rmove_edge_states(),
        );
        if m == Move::Ri {
            lemma_compose_keeps_possible(
                compose_states(rmove_corner_states(), rmove_corner_states(), 3),
                compose_states(rmove_edge_states(), rmove_edge_states(), 2),
                rmove_corner_states(),
                rmove_edge_states(),
            );
        }
    }
    if m == Move::D2 || m == Move::Di {
        lemma_compose_keeps_possible(
            dmove_corner_states(),
            dmove_edge_states(),
            dmove_corner_states(),
            dmove_edge_states(),
        );
        if m == Move::Di {
            lemma_compose_keeps_possible(
                compose_states(dmove_corner_states(), dmove_corner_states(), 3),
                compose_states(dmove_edge_states(), dmove_edge_states(), 2),
                dmove_corner_states(),
                dmove_edge_states(),
            );
        }
    }
    if m == Move::U2 || m == Move::Ui {
        lemma_compose_keeps_possible(
            umove_corner_states(),
            umove_edge_states(),
            umove_corner_states(),
            umove_edge_states(),
        );
        if m == Move::Ui {
            lemma_compose_keeps_possible(
                compose_states(umove_corner_states(), umove_corner_states(), 3),
                compose_states(umove_edge_states(), umove_edge_states(), 2),
                umove_corner_states(),
                umove_edge_states(),
            );
        }
    }
    if m == Move::F2 || m == Move::Fi {
        lemma_compose_keeps_possible(
            fmove_corner_states(),
            fmove_edge_states(),
            fmove_corner_states(),
            fmove_edge_states(),
        );
        if m == Move::Fi {
            lemma_compose_keeps_possible(
                compose_states(fmove_corner_states(), fmove_corner_states(), 3),
                compose_states(fmove_edge_states(), fmove_edge_states(), 2),
                fmove_corner_states(),
                fmove_edge_states(),
            );
        }
    }
    if m == Move::B2 || m == Move::Bi {
        lemma_compose_keeps_possible(
            bmove_corner_states(),
            bmove_edge_states(),
            bmove_corner_states(),
            bmove_edge_states(),
        );
        if m == Move::Bi {
            lemma_compose_keeps_possible(
                compose_states(bmove_corner_states(), bmove_corner_states(), 3),
                compose_states(bmove_edge_states(), bmove_edge_states(), 2),
                bmove_corner_states(),
                bmove_edge_states(),
            );
        }
    }
}

} // verus!
