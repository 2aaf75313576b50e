//! Sequence-level theory of finite permutations.
//!
//! A permutation of `0..n` is modelled as a `Seq<int>` of length `n` whose
//! entries are the values `0..n`, each occurring exactly once. This module
//! provides:
//!
//! - the pigeonhole facts connecting injectivity and surjectivity of such
//!   sequences ([`lemma_permutation_covers`], [`lemma_cover_is_permutation`]);
//! - the greedy 2-cycle decomposition ([`greedy_pairs`]): repeatedly find
//!   the first position whose entry is not itself, emit the pair
//!   `(entry, position)`, and swap those two positions. Its length is the
//!   transposition count of the permutation;
//! - the parity theory: the parity of the transposition count equals the
//!   parity of the inversion count ([`lemma_greedy_parity_eq_inversions`]),
//!   and swapping two entries of a permutation flips that parity
//!   ([`lemma_swap_flips_parity`]). The latter is what justifies repairing
//!   a cube state whose corner and edge parities disagree by swapping two
//!   edge slots.

use vstd::prelude::*;
use vstd::seq_lib::*;
use vstd::set_lib::*;

verus! {

/// `p` maps `0..p.len()` into itself with no repeated entry (hence, by
/// pigeonhole, onto it): a genuine permutation.
pub open spec fn is_permutation(p: Seq<int>) -> bool {
    &&& forall|i: int| 0 <= i < p.len() ==> 0 <= #[trigger] p[i] < p.len()
    &&& p.no_duplicates()
}

/// Every value in `0..p.len()` occurs somewhere in `p`.
pub open spec fn covers_all(p: Seq<int>) -> bool {
    forall|v: int| 0 <= v < p.len() ==> #[trigger] p.contains(v)
}

/// A permutation hits every value in `0..len`: injectivity implies
/// surjectivity on a finite domain.
pub proof fn lemma_permutation_covers(p: Seq<int>)
    requires
        is_permutation(p),
    ensures
        covers_all(p),
{
    broadcast use vstd::set::group_set_axioms;

    let n = p.len() as int;
    p.unique_seq_to_set();
    lemma_int_range(0, n);
    assert(p.to_set().subset_of(set_int_range(0, n))) by {
        assert forall|x: int| p.to_set().contains(x) implies set_int_range(0, n).contains(x) by {
            let i = choose|i: int| 0 <= i < p.len() && p[i] == x;
            assert(0 <= p[i] < n);
        }
    }
    lemma_subset_equality(p.to_set(), set_int_range(0, n));
    assert forall|v: int| 0 <= v < p.len() implies #[trigger] p.contains(v) by {
        assert(set_int_range(0, n).contains(v));
        assert(p.to_set().contains(v));
    }
}

/// A sequence over `0..len` that hits every value has no repeats:
/// surjectivity implies injectivity on a finite domain.
pub proof fn lemma_cover_is_permutation(p: Seq<int>)
    requires
        forall|i: int| 0 <= i < p.len() ==> 0 <= #[trigger] p[i] < p.len(),
        covers_all(p),
    ensures
        is_permutation(p),
{
    broadcast use vstd::set::group_set_axioms;

    let n = p.len() as int;
    lemma_int_range(0, n);
    assert(set_int_range(0, n).subset_of(p.to_set())) by {
        assert forall|v: int| set_int_range(0, n).contains(v) implies p.to_set().contains(v) by {
            assert(p.contains(v));
        }
    }
    p.lemma_cardinality_of_set();
    lemma_len_subset(set_int_range(0, n), p.to_set());
    p.lemma_no_dup_set_cardinality();
}

/// The sequence with the entries at positions `i` and `j` exchanged.
pub open spec fn seq_swap<A>(s: Seq<A>, i: int, j: int) -> Seq<A> {
    s.update(i, s[j]).update(j, s[i])
}

/// Exchanging two entries leaves the multiset of entries unchanged.
pub proof fn lemma_seq_swap_multiset<A>(s: Seq<A>, i: int, j: int)
    requires
        0 <= i < s.len(),
        0 <= j < s.len(),
    ensures
        seq_swap(s, i, j).to_multiset() =~= s.to_multiset(),
{
    broadcast use vstd::seq_lib::to_multiset_update;
    broadcast use vstd::seq_lib::group_to_multiset_ensures;

    let u = s.update(i, s[j]);
    assert(u[j] == s[j]);
    assert(u.to_multiset() == s.to_multiset().insert(s[j]).remove(s[i]));
    assert(seq_swap(s, i, j).to_multiset() == u.to_multiset().insert(s[i]).remove(u[j]));
    assert(s.to_multiset().count(s[i]) > 0);
    assert(s.to_multiset().count(s[j]) > 0);
}

/// Two sequences with equal entry multisets are both repeat-free or both
/// not.
pub proof fn lemma_no_dup_multiset<A>(s1: Seq<A>, s2: Seq<A>)
    requires
        s1.to_multiset() == s2.to_multiset(),
        s1.no_duplicates(),
    ensures
        s2.no_duplicates(),
{
    s1.lemma_multiset_has_no_duplicates();
    s2.lemma_multiset_has_no_duplicates_conv();
}

/// Exchanging two entries of a permutation yields a permutation.
pub proof fn lemma_seq_swap_is_permutation(p: Seq<int>, i: int, j: int)
    requires
        is_permutation(p),
        0 <= i < p.len(),
        0 <= j < p.len(),
    ensures
        is_permutation(seq_swap(p, i, j)),
        seq_swap(p, i, j).len() == p.len(),
    {
    lemma_seq_swap_multiset(p, i, j);
    lemma_no_dup_multiset(p, seq_swap(p, i, j));
}

/// How many entries of `s` are smaller than `x`: the inversions `x`
/// contributes when it stands before all of `s`.
pub open spec fn count_gt(x: int, s: Seq<int>) -> nat
    decreases s.len(),
{
    if s.len() == 0 {
        0
    } else {
        (if x > s[0] {
            1nat
        } else {
            0nat
        }) + count_gt(x, s.drop_first())
    }
}

/// The number of inversions of `s`: pairs of positions in increasing
/// order whose entries are in decreasing order.
pub open spec fn inversions(s: Seq<int>) -> nat
    decreases s.len(),
{
    if s.len() == 0 {
        0
    } else {
        count_gt(s[0], s.drop_first()) + inversions(s.drop_first())
    }
}

proof fn lemma_count_gt_remove(x: int, s: Seq<int>, k: int)
    requires
        0 <= k < s.len(),
    ensures
        count_gt(x, s) == count_gt(x, s.remove(k)) + (if x > s[k] {
            1nat
        } else {
            0nat
        }),
    decreases k,
{
    if k == 0 {
        assert(s.remove(0) =~= s.drop_first());
    } else {
        assert(s.remove(k).drop_first() =~= s.drop_first().remove(k - 1));
        assert(s.remove(k)[0] == s[0]);
        lemma_count_gt_remove(x, s.drop_first(), k - 1);
    }
}

proof fn lemma_count_gt_multiset(x: int, s1: Seq<int>, s2: Seq<int>)
    requires
        s1.to_multiset() == s2.to_multiset(),
    ensures
        count_gt(x, s1) == count_gt(x, s2),
    decreases s1.len(),
{
    broadcast use vstd::seq_lib::group_to_multiset_ensures;

    if s1.len() == 0 {
        assert(s1.to_multiset().len() == s1.len());
        assert(s2.to_multiset().len() == s2.len());
        assert(s2.len() == 0);
    } else {
        let v = s1[0];
        assert(s1.contains(v));
        assert(s1.to_multiset().count(v) > 0);
        assert(s2.to_multiset().count(v) > 0);
        assert(s2.contains(v));
        let k = choose|k: int| 0 <= k < s2.len() && s2[k] == v;
        lemma_count_gt_remove(x, s2, k);
        assert(s1.remove(0) =~= s1.drop_first());
        assert(s1.drop_first().to_multiset() == s1.to_multiset().remove(v));
        assert(s2.remove(k).to_multiset() == s2.to_multiset().remove(v));
        lemma_count_gt_multiset(x, s1.drop_first(), s2.remove(k));
    }
}

/// Exchanging two distinct adjacent entries changes the inversion count
/// by exactly one, so it flips its parity.
proof fn lemma_inversions_adjacent(s: Seq<int>, k: int)
    requires
        0 <= k,
        k + 1 < s.len(),
        s[k] != s[k + 1],
    ensures
        (inversions(seq_swap(s, k, k + 1)) + inversions(s)) % 2 == 1,
    decreases k,
{
    let t = seq_swap(s, k, k + 1);
    let d1 = s.drop_first();
    if k == 0 {
        let d2 = d1.drop_first();
        assert(t[0] == s[1]);
        assert(t.drop_first() =~= d1.update(0, s[0]));
        assert(t.drop_first()[0] == s[0]);
        assert(t.drop_first().drop_first() =~= d2);
        assert(inversions(t) == count_gt(s[1], t.drop_first()) + inversions(t.drop_first()));
        assert(inversions(t.drop_first()) == count_gt(s[0], d2) + inversions(d2));
        assert(inversions(t) == count_gt(s[1], t.drop_first()) + count_gt(s[0], d2) + inversions(
            d2,
        ));
        assert(count_gt(s[1], t.drop_first()) == (if s[1] > s[0] {
            1nat
        } else {
            0nat
        }) + count_gt(s[1], d2));
        assert(count_gt(s[0], d1) == (if s[0] > s[1] {
            1nat
        } else {
            0nat
        }) + count_gt(s[0], d2));
        assert(d1[0] == s[1]);
        assert(inversions(s) == count_gt(s[0], d1) + inversions(d1));
        assert(inversions(d1) == count_gt(s[1], d2) + inversions(d2));
        assert(inversions(s) == count_gt(s[0], d1) + count_gt(s[1], d2) + inversions(d2));
    } else {
        let dt = t.drop_first();
        assert(dt =~= seq_swap(d1, k - 1, k));
        assert(t[0] == s[0]);
        lemma_seq_swap_multiset(d1, k - 1, k);
        lemma_count_gt_multiset(s[0], dt, d1);
        lemma_inversions_adjacent(d1, k - 1);
        assert(inversions(t) == count_gt(s[0], d1) + inversions(dt));
        assert(inversions(s) == count_gt(s[0], d1) + inversions(d1));
    }
}

/// Exchanging any two entries of a repeat-free sequence flips the parity
/// of the inversion count.
pub proof fn lemma_inversions_swap(s: Seq<int>, i: int, j: int)
    requires
        s.no_duplicates(),
        0 <= i < j < s.len(),
    ensures
        (inversions(seq_swap(s, i, j)) + inversions(s)) % 2 == 1,
    decreases j - i,
{
    if j == i + 1 {
        lemma_inversions_adjacent(s, i);
    } else {
        let q1 = seq_swap(s, j - 1, j);
        let q2 = seq_swap(q1, i, j - 1);
        let q3 = seq_swap(q2, j - 1, j);
        lemma_inversions_adjacent(s, j - 1);
        lemma_seq_swap_multiset(s, j - 1, j);
        lemma_no_dup_multiset(s, q1);
        lemma_inversions_swap(q1, i, j - 1);
        lemma_seq_swap_multiset(q1, i, j - 1);
        lemma_no_dup_multiset(q1, q2);
        assert(q2[j - 1] == s[i]);
        assert(q2[j] == s[j - 1]);
        assert(s[i] != s[j - 1]);
        lemma_inversions_adjacent(q2, j - 1);
        assert(q3 =~= seq_swap(s, i, j));
    }
}

/// The position of the first entry of `p` at or after `i` that is not
/// equal to its own position; `p.len()` if every one is.
pub open spec fn first_misplaced_from(p: Seq<int>, i: int) -> int
    decreases p.len() - i when 0 <= i <= p.len()
{
    if i >= p.len() {
        p.len() as int
    } else if p[i] != i {
        i
    } else {
        first_misplaced_from(p, i + 1)
    }
}

/// The first position of `p` whose entry is not itself; `p.len()` if `p`
/// is the identity.
pub open spec fn first_misplaced(p: Seq<int>) -> int {
    first_misplaced_from(p, 0)
}

proof fn lemma_first_misplaced_from(p: Seq<int>, i: int)
    requires
        0 <= i <= p.len(),
    ensures
        i <= first_misplaced_from(p, i) <= p.len(),
        forall|t: int| i <= t < first_misplaced_from(p, i) ==> #[trigger] p[t] == t,
        first_misplaced_from(p, i) < p.len() ==> p[first_misplaced_from(p, i)]
            != first_misplaced_from(p, i),
    decreases p.len() - i,
{
    if i >= p.len() {
    } else if p[i] != i {
    } else {
        lemma_first_misplaced_from(p, i + 1);
    }
}

/// Properties of [`first_misplaced`]: everything before it is in place,
/// and, unless it is `p.len()`, the entry there is out of place.
pub proof fn lemma_first_misplaced(p: Seq<int>)
    ensures
        0 <= first_misplaced(p) <= p.len(),
        forall|t: int| 0 <= t < first_misplaced(p) ==> #[trigger] p[t] == t,
        first_misplaced(p) < p.len() ==> p[first_misplaced(p)] != first_misplaced(p),
{
    lemma_first_misplaced_from(p, 0);
}

/// The number of positions at or after `i` whose entry is not itself.
pub open spec fn num_misplaced_from(p: Seq<int>, i: int) -> nat
    decreases p.len() - i when 0 <= i <= p.len()
{
    if i >= p.len() {
        0
    } else {
        (if p[i] != i {
            1nat
        } else {
            0nat
        }) + num_misplaced_from(p, i + 1)
    }
}

/// The number of positions of `p` whose entry is not itself.
pub open spec fn num_misplaced(p: Seq<int>) -> nat {
    num_misplaced_from(p, 0)
}

proof fn lemma_num_misplaced_le(p: Seq<int>, q: Seq<int>, i: int, a: int)
    requires
        p.len() == q.len(),
        0 <= i <= p.len(),
        forall|t: int| i <= t < p.len() && #[trigger] q[t] != t ==> p[t] != t,
        i <= a < p.len() ==> (p[a] != a && q[a] == a),
    ensures
        i <= a < p.len() ==> num_misplaced_from(q, i) < num_misplaced_from(p, i),
        num_misplaced_from(q, i) <= num_misplaced_from(p, i),
    decreases p.len() - i,
{
    if i >= p.len() {
    } else {
        lemma_num_misplaced_le(p, q, i + 1, a);
    }
}

/// The greedy 2-cycle decomposition of a permutation: while some position
/// holds an entry other than itself, take the first such position `h`,
/// emit the pair `(p[h], h)`, and exchange the entries at positions
/// `p[h]` and `h` (which puts the entry `p[h]` in its place). The pairs
/// are transpositions whose composition restores the identity.
pub open spec fn greedy_pairs(p: Seq<int>) -> Seq<(int, int)>
    decreases num_misplaced(p) via greedy_pairs_decreases
{
    if !is_permutation(p) || first_misplaced(p) >= p.len() {
        Seq::empty()
    } else {
        let h = first_misplaced(p);
        let a = p[h];
        seq![(a, h)] + greedy_pairs(seq_swap(p, a, h))
    }
}

/// The transposition count of a permutation: the number of pairs the
/// greedy decomposition emits.
pub open spec fn greedy_count(p: Seq<int>) -> nat {
    greedy_pairs(p).len()
}

/// After the greedy step at first misplaced position `h`, position
/// `p[h]` is in place, nothing in place becomes misplaced, and the
/// result is still a permutation.
pub proof fn lemma_greedy_step(p: Seq<int>)
    requires
        is_permutation(p),
        first_misplaced(p) < p.len(),
    ensures
        ({
            let h = first_misplaced(p);
            let a = p[h];
            &&& 0 <= h < a < p.len()
            &&& is_permutation(seq_swap(p, a, h))
            &&& num_misplaced(seq_swap(p, a, h)) < num_misplaced(p)
        }),
{
    let h = first_misplaced(p);
    let a = p[h];
    lemma_first_misplaced(p);
    assert(0 <= a < p.len());
    assert(a != h);
    if a < h {
        assert(p[a] == a);
        assert(p[h] == a);
        assert(false);
    }
    assert(h < a);
    lemma_seq_swap_is_permutation(p, a, h);
    let q = seq_swap(p, a, h);
    assert(q[a] == p[h]);
    assert(q[a] == a);
    assert(p[a] != a);
    assert forall|t: int| 0 <= t < p.len() && #[trigger] q[t] != t implies p[t] != t by {
        if t == a {
        } else if t == h {
        } else {
            assert(q[t] == p[t]);
        }
    }
    lemma_num_misplaced_le(p, q, 0, a);
}

#[via_fn]
proof fn greedy_pairs_decreases(p: Seq<int>) {
    if is_permutation(p) && first_misplaced(p) < p.len() {
        lemma_greedy_step(p);
    }
}

proof fn lemma_count_gt_zero(x: int, s: Seq<int>)
    requires
        forall|t: int| 0 <= t < s.len() ==> x < #[trigger] s[t],
    ensures
        count_gt(x, s) == 0,
    decreases s.len(),
{
    if s.len() > 0 {
        lemma_count_gt_zero(x, s.drop_first());
    }
}

/// A strictly increasing sequence has no inversions.
proof fn lemma_inversions_increasing(s: Seq<int>)
    requires
        forall|t1: int, t2: int| 0 <= t1 < t2 < s.len() ==> #[trigger] s[t1] < #[trigger] s[t2],
    ensures
        inversions(s) == 0,
    decreases s.len(),
{
    if s.len() > 0 {
        let d = s.drop_first();
        assert(forall|t: int| 0 <= t < d.len() ==> s[0] < #[trigger] d[t]);
        lemma_count_gt_zero(s[0], d);
        assert(forall|t1: int, t2: int| 0 <= t1 < t2 < d.len() ==> #[trigger] d[t1]
            < #[trigger] d[t2]);
        lemma_inversions_increasing(d);
    }
}

/// The parity of the greedy transposition count equals the parity of the
/// inversion count: each greedy step exchanges two distinct entries and
/// so flips the inversion parity, and the identity has no inversions.
pub proof fn lemma_greedy_parity_eq_inversions(p: Seq<int>)
    requires
        is_permutation(p),
    ensures
        greedy_count(p) % 2 == inversions(p) % 2,
    decreases num_misplaced(p),
{
    lemma_first_misplaced(p);
    let h = first_misplaced(p);
    if h >= p.len() {
        assert(forall|t1: int, t2: int| 0 <= t1 < t2 < p.len() ==> #[trigger] p[t1]
            < #[trigger] p[t2]) by {
            assert(forall|t: int| 0 <= t < p.len() ==> #[trigger] p[t] == t);
        }
        lemma_inversions_increasing(p);
        assert(greedy_pairs(p).len() == 0);
    } else {
        let a = p[h];
        lemma_greedy_step(p);
        let q = seq_swap(p, a, h);
        assert(seq_swap(p, h, a) =~= q);
        assert(p[h] != p[a]);
        lemma_inversions_swap(p, h, a);
        assert((inversions(seq_swap(p, h, a)) + inversions(p)) % 2 == 1);
        lemma_greedy_parity_eq_inversions(q);
        assert(greedy_pairs(p) == seq![(a, h)] + greedy_pairs(q));
        assert(greedy_count(p) == 1 + greedy_count(q));
    }
}

/// Exchanging two entries of a permutation flips the parity of its
/// transposition count. This is the classical parity theorem that makes
/// "corner parity equals edge parity" a meaningful invariant, and it
/// justifies repairing a mismatched state by one extra swap.
pub proof fn lemma_swap_flips_parity(p: Seq<int>, i: int, j: int)
    requires
        is_permutation(p),
        0 <= i < j < p.len(),
    ensures
        is_permutation(seq_swap(p, i, j)),
        greedy_count(seq_swap(p, i, j)) % 2 != greedy_count(p) % 2,
{
    lemma_seq_swap_is_permutation(p, i, j);
    lemma_inversions_swap(p, i, j);
    lemma_greedy_parity_eq_inversions(p);
    lemma_greedy_parity_eq_inversions(seq_swap(p, i, j));
}

/// A permutation has the same entries as the identity, as a multiset.
pub proof fn lemma_perm_multiset_identity(p: Seq<int>)
    requires
        is_permutation(p),
    ensures
        p.to_multiset() == Seq::new(p.len(), |i: int| i).to_multiset(),
    decreases p.len(),
{
    broadcast use vstd::seq_lib::group_to_multiset_ensures;

    let idseq = Seq::new(p.len(), |i: int| i);
    lemma_permutation_covers(p);
    p.lemma_multiset_has_no_duplicates();
    assert(idseq.no_duplicates());
    idseq.lemma_multiset_has_no_duplicates();
    assert(p.to_multiset() =~= idseq.to_multiset()) by {
        assert forall|v: int| true implies p.to_multiset().count(v) == idseq.to_multiset().count(
            v,
        ) by {
            if 0 <= v < p.len() {
                assert(p.contains(v));
                assert(idseq[v] == v);
                assert(idseq.contains(v));
                assert(p.to_multiset().count(v) == 1);
                assert(idseq.to_multiset().count(v) == 1);
            } else {
                if p.contains(v) {
                    let w = choose|w: int| 0 <= w < p.len() && p[w] == v;
                    assert(0 <= p[w] < p.len());
                    assert(false);
                }
                if idseq.contains(v) {
                    let w = choose|w: int| 0 <= w < idseq.len() && idseq[w] == v;
                    assert(false);
                }
                assert(p.to_multiset().count(v) == 0);
                assert(idseq.to_multiset().count(v) == 0);
            }
        }
    }
}

/// Functional composition of permutations: entry `h` is `q[p[h]]`,
/// "apply `p`, then `q`".
pub open spec fn seq_compose(p: Seq<int>, q: Seq<int>) -> Seq<int> {
    Seq::new(p.len(), |h: int| q[p[h]])
}

/// Composition of permutations is a permutation.
pub proof fn lemma_seq_compose_permutation(p: Seq<int>, q: Seq<int>)
    requires
        is_permutation(p),
        is_permutation(q),
        p.len() == q.len(),
    ensures
        is_permutation(seq_compose(p, q)),
{
    let comp = seq_compose(p, q);
    assert forall|i: int| 0 <= i < comp.len() implies 0 <= #[trigger] comp[i] < comp.len() by {
        assert(0 <= p[i] < p.len());
    }
    assert forall|i: int, j: int|
        0 <= i < comp.len() && 0 <= j < comp.len() && i != j implies comp[i] != comp[j] by {
        assert(p[i] != p[j]);
        assert(0 <= p[i] < q.len() && 0 <= p[j] < q.len());
    }
    assert(comp.no_duplicates());
}

/// Parity is a homomorphism: the transposition count of a composition
/// has the parity of the sum of the two counts.
pub proof fn lemma_greedy_parity_compose(p: Seq<int>, q: Seq<int>)
    requires
        is_permutation(p),
        is_permutation(q),
        p.len() == q.len(),
    ensures
        greedy_count(seq_compose(p, q)) % 2 == (greedy_count(p) + greedy_count(q)) % 2,
    decreases num_misplaced(p),
{
    lemma_first_misplaced(p);
    lemma_seq_compose_permutation(p, q);
    let comp = seq_compose(p, q);
    let h = first_misplaced(p);
    if h >= p.len() {
        assert(comp =~= q);
        assert(greedy_pairs(p).len() == 0);
    } else {
        let a = p[h];
        lemma_greedy_step(p);
        let pn = seq_swap(p, a, h);
        assert(greedy_pairs(p) == seq![(a, h)] + greedy_pairs(pn));
        assert(greedy_count(p) == 1 + greedy_count(pn));
        lemma_greedy_parity_compose(pn, q);
        assert(seq_compose(pn, q) =~= seq_swap(comp, h, a)) by {
            assert forall|x: int| 0 <= x < p.len() implies seq_compose(pn, q)[x] == seq_swap(
                comp,
                h,
                a,
            )[x] by {
                assert(0 <= p[x] < q.len());
                if x == a {
                    assert(pn[a] == p[h]);
                } else if x == h {
                    assert(pn[h] == p[a]);
                } else {
                    assert(pn[x] == p[x]);
                }
            }
        }
        lemma_swap_flips_parity(comp, h, a);
    }
}

/// The sum of the entries of `s`.
pub open spec fn seq_sum(s: Seq<int>) -> int
    decreases s.len(),
{
    if s.len() == 0 {
        0
    } else {
        s[0] + seq_sum(s.drop_first())
    }
}

proof fn lemma_seq_sum_remove(s: Seq<int>, k: int)
    requires
        0 <= k < s.len(),
    ensures
        seq_sum(s) == seq_sum(s.remove(k)) + s[k],
    decreases k,
{
    if k == 0 {
        assert(s.remove(0) =~= s.drop_first());
    } else {
        assert(s.remove(k).drop_first() =~= s.drop_first().remove(k - 1));
        assert(s.remove(k)[0] == s[0]);
        lemma_seq_sum_remove(s.drop_first(), k - 1);
    }
}

/// Mapping a function over two sequences with equal entry multisets
/// yields equal multisets again.
pub proof fn lemma_map_values_multiset<A, B>(s1: Seq<A>, s2: Seq<A>, f: spec_fn(A) -> B)
    requires
        s1.to_multiset() == s2.to_multiset(),
    ensures
        s1.map_values(f).to_multiset() == s2.map_values(f).to_multiset(),
    decreases s1.len(),
{
    broadcast use vstd::seq_lib::group_to_multiset_ensures;

    if s1.len() == 0 {
        assert(s1.to_multiset().len() == s1.len());
        assert(s2.to_multiset().len() == s2.len());
        assert(s1.map_values(f) =~= s2.map_values(f));
    } else {
        let v = s1[0];
        assert(s1.contains(v));
        assert(s1.to_multiset().count(v) > 0);
        assert(s2.to_multiset().count(v) > 0);
        assert(s2.contains(v));
        let k = choose|k: int| 0 <= k < s2.len() && s2[k] == v;
        let m1 = s1.map_values(f);
        let m2 = s2.map_values(f);
        assert(s1.remove(0) =~= s1.drop_first());
        assert(s1.drop_first().to_multiset() == s1.to_multiset().remove(v));
        assert(s2.remove(k).to_multiset() == s2.to_multiset().remove(v));
        lemma_map_values_multiset(s1.drop_first(), s2.remove(k), f);
        assert(m1.remove(0) =~= s1.drop_first().map_values(f));
        assert(m2.remove(k) =~= s2.remove(k).map_values(f));
        assert(m1.remove(0).to_multiset() == m1.to_multiset().remove(m1[0]));
        assert(m2.remove(k).to_multiset() == m2.to_multiset().remove(m2[k]));
        assert(m1[0] == f(v));
        assert(m2[k] == f(v));
        assert(m1.contains(f(v)));
        assert(m1.to_multiset().count(f(v)) > 0);
        assert(m2.contains(f(v)));
        assert(m2.to_multiset().count(f(v)) > 0);
        assert(m1.to_multiset() =~= m2.to_multiset()) by {
            assert forall|b: B| true implies m1.to_multiset().count(b) == m2.to_multiset().count(
                b,
            ) by {
                assert(m1.to_multiset().remove(f(v)).count(b) == m2.to_multiset().remove(
                    f(v),
                ).count(b));
            }
        }
    }
}

/// Appending an entry adds it to the sum.
pub proof fn lemma_seq_sum_push(s: Seq<int>, v: int)
    ensures
        seq_sum(s.push(v)) == seq_sum(s) + v,
    decreases s.len(),
{
    if s.len() == 0 {
        assert(s.push(v).drop_first() =~= Seq::<int>::empty());
        assert(s.push(v)[0] == v);
        assert(seq_sum(s) == 0);
        assert(seq_sum(Seq::<int>::empty()) == 0);
    } else {
        assert(s.push(v)[0] == s[0]);
        assert(s.push(v).drop_first() =~= s.drop_first().push(v));
        lemma_seq_sum_push(s.drop_first(), v);
        assert(seq_sum(s.push(v)) == s[0] + seq_sum(s.drop_first().push(v)));
    }
}

/// The sum of a prefix grows by the next entry.
pub proof fn lemma_seq_sum_take(s: Seq<int>, k: int)
    requires
        0 <= k < s.len(),
    ensures
        seq_sum(s.take(k + 1)) == seq_sum(s.take(k)) + s[k],
{
    assert(s.take(k + 1) =~= s.take(k).push(s[k]));
    lemma_seq_sum_push(s.take(k), s[k]);
}

/// Sequences with equal entry multisets have equal sums: reordering the
/// entries never changes the sum.
pub proof fn lemma_seq_sum_multiset(s1: Seq<int>, s2: Seq<int>)
    requires
        s1.to_multiset() == s2.to_multiset(),
    ensures
        seq_sum(s1) == seq_sum(s2),
    decreases s1.len(),
{
    broadcast use vstd::seq_lib::group_to_multiset_ensures;

    if s1.len() == 0 {
        assert(s1.to_multiset().len() == s1.len());
        assert(s2.to_multiset().len() == s2.len());
        assert(s2.len() == 0);
    } else {
        let v = s1[0];
        assert(s1.contains(v));
        assert(s1.to_multiset().count(v) > 0);
        assert(s2.to_multiset().count(v) > 0);
        assert(s2.contains(v));
        let k = choose|k: int| 0 <= k < s2.len() && s2[k] == v;
        lemma_seq_sum_remove(s2, k);
        assert(s1.remove(0) =~= s1.drop_first());
        assert(s1.drop_first().to_multiset() == s1.to_multiset().remove(v));
        assert(s2.remove(k).to_multiset() == s2.to_multiset().remove(v));
        lemma_seq_sum_multiset(s1.drop_first(), s2.remove(k));
    }
}

} // verus!
