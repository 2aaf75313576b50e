//! The abstract algebra of cube states.
//!
//! A bank of slots (the 8 corners, or the 12 edges) is abstracted as a
//! sequence of `(cubicle, orientation)` pairs indexed by home cubicle:
//! entry `h` describes the piece whose home is slot `h` — the slot it
//! currently occupies and its orientation, counted modulo `m` (3 for
//! corners, 2 for edges). On these sequences this module defines the group
//! structure — identity, composition, inverse — and proves the group laws:
//! associativity, the identity laws, and cancellation by the inverse.

use vstd::prelude::*;
use crate::permutation::{
    first_misplaced, greedy_count, greedy_pairs, is_permutation, lemma_first_misplaced,
    lemma_map_values_multiset, lemma_perm_multiset_identity, lemma_permutation_covers,
    lemma_seq_sum_multiset, seq_sum,
};
use vstd::arithmetic::div_mod::*;

verus! {

/// The cubicle each home's piece currently occupies.
pub open spec fn perm_of(s: Seq<(int, int)>) -> Seq<int> {
    Seq::new(s.len(), |i: int| s[i].0)
}

/// The orientation of each home's piece.
pub open spec fn oris_of(s: Seq<(int, int)>) -> Seq<int> {
    Seq::new(s.len(), |i: int| s[i].1)
}

/// A well-formed bank of slots: the occupied cubicles form a permutation
/// of `0..len` and every orientation lies below the modulus `m`.
pub open spec fn wf_states(s: Seq<(int, int)>, m: int) -> bool {
    &&& is_permutation(perm_of(s))
    &&& forall|i: int| 0 <= i < s.len() ==> 0 <= (#[trigger] s[i]).1 < m
}

/// The solved bank: every piece in its home with orientation zero.
pub open spec fn identity_states(n: int) -> Seq<(int, int)> {
    Seq::new(n as nat, |i: int| (i, 0))
}

/// Applies `a`, then `b`: the piece of home `h` moves by `a` to cubicle
/// `a[h].0`, and then by `b` to wherever `b` sends the piece of *home*
/// `a[h].0`; the orientations add modulo `m`.
pub open spec fn compose_states(a: Seq<(int, int)>, b: Seq<(int, int)>, m: int) -> Seq<
    (int, int),
> {
    Seq::new(a.len(), |h: int| (b[a[h].0].0, (a[h].1 + b[a[h].0].1) % m))
}

/// The home whose piece currently occupies cubicle `c` under `a`: the
/// preimage of `c` under the permutation.
pub open spec fn inv_at(a: Seq<(int, int)>, c: int) -> int {
    choose|h: int| 0 <= h < a.len() && (#[trigger] a[h]).0 == c
}

/// For a well-formed bank, `inv_at` is the one home sent to `c`.
pub proof fn lemma_inv_at(a: Seq<(int, int)>, m: int, c: int)
    requires
        wf_states(a, m),
        0 <= c < a.len(),
    ensures
        0 <= inv_at(a, c) < a.len(),
        a[inv_at(a, c)].0 == c,
        forall|h: int| 0 <= h < a.len() && (#[trigger] a[h]).0 == c ==> h == inv_at(a, c),
{
    let pa = perm_of(a);
    lemma_permutation_covers(pa);
    assert(pa.contains(c));
    let w = choose|w: int| 0 <= w < pa.len() && pa[w] == c;
    assert(a[w].0 == c);
    assert(exists|h: int| 0 <= h < a.len() && (#[trigger] a[h]).0 == c);
    let g = inv_at(a, c);
    assert(0 <= g < a.len() && a[g].0 == c);
    assert forall|h: int| 0 <= h < a.len() && (#[trigger] a[h]).0 == c implies h == g by {
        if h != g {
            assert(pa[h] == pa[g]);
            assert(false);
        }
    }
}

/// The inverse move: the piece that `a` sends from home `h` to cubicle
/// `c` is sent back from home `c` to cubicle `h`, with the cancelling
/// orientation.
pub open spec fn inverse_states(a: Seq<(int, int)>, m: int) -> Seq<(int, int)> {
    Seq::new(a.len(), |c: int| (inv_at(a, c), (m - a[inv_at(a, c)].1) % m))
}

/// The identity bank is well formed and its orientations sum to zero.
pub proof fn lemma_identity_wf(n: int, m: int)
    requires
        0 <= n,
        1 <= m,
    ensures
        wf_states(identity_states(n), m),
        seq_sum(oris_of(identity_states(n))) == 0,
        perm_of(identity_states(n)) =~= Seq::new(n as nat, |i: int| i),
        greedy_count(perm_of(identity_states(n))) == 0,
{
    let s = identity_states(n);
    let p = perm_of(s);
    assert(forall|i: int| 0 <= i < n ==> p[i] == i);
    assert(p.no_duplicates());
    lemma_sum_of_zeros(oris_of(s));
    lemma_first_misplaced(p);
    if first_misplaced(p) < p.len() {
        assert(p[first_misplaced(p)] == first_misplaced(p));
        assert(false);
    }
    assert(greedy_pairs(p).len() == 0);
}

/// A sequence of zeros sums to zero.
pub proof fn lemma_sum_of_zeros(s: Seq<int>)
    requires
        forall|i: int| 0 <= i < s.len() ==> #[trigger] s[i] == 0,
    ensures
        seq_sum(s) == 0,
    decreases s.len(),
{
    if s.len() > 0 {
        lemma_sum_of_zeros(s.drop_first());
    }
}

/// Composition of well-formed banks is well formed.
pub proof fn lemma_compose_wf(a: Seq<(int, int)>, b: Seq<(int, int)>, m: int)
    requires
        wf_states(a, m),
        wf_states(b, m),
        a.len() == b.len(),
        1 <= m,
    ensures
        wf_states(compose_states(a, b, m), m),
{
    let c = compose_states(a, b, m);
    let pa = perm_of(a);
    let pb = perm_of(b);
    let pc = perm_of(c);
    assert forall|i: int| 0 <= i < c.len() implies 0 <= #[trigger] pc[i] < c.len() by {
        assert(0 <= pa[i] < a.len());
        assert(pc[i] == pb[pa[i]]);
    }
    assert forall|i: int, j: int| 0 <= i < c.len() && 0 <= j < c.len() && i != j implies pc[i]
        != pc[j] by {
        assert(pa[i] != pa[j]);
        assert(0 <= pa[i] < b.len() && 0 <= pa[j] < b.len());
        assert(pc[i] == pb[pa[i]] && pc[j] == pb[pa[j]]);
    }
    assert(pc.no_duplicates());
    assert forall|i: int| 0 <= i < c.len() implies 0 <= (#[trigger] c[i]).1 < m by {
        assert(0 <= a[i].1 < m);
        assert(0 <= b[pa[i]].1 < m);
        lemma_mod_bound(a[i].1 + b[pa[i]].1, m);
    }
}

/// Composition is associative: applying `a` then `b` then `c` is the
/// same whether the first two or the last two are combined first.
pub proof fn lemma_compose_assoc(a: Seq<(int, int)>, b: Seq<(int, int)>, c: Seq<(int, int)>, m: int)
    requires
        wf_states(a, m),
        wf_states(b, m),
        wf_states(c, m),
        a.len() == b.len() && b.len() == c.len(),
        1 <= m,
    ensures
        compose_states(compose_states(a, b, m), c, m) =~= compose_states(
            a,
            compose_states(b, c, m),
            m,
        ),
{
    let ab = compose_states(a, b, m);
    let bc = compose_states(b, c, m);
    let n = a.len();
    assert forall|h: int| 0 <= h < n implies compose_states(ab, c, m)[h] == compose_states(
        a,
        bc,
        m,
    )[h] by {
        let pa = perm_of(a);
        let pb = perm_of(b);
        assert(pa[h] == a[h].0);
        assert(0 <= pa[h] < n);
        assert(pb[a[h].0] == b[a[h].0].0);
        assert(0 <= pb[a[h].0] < n);
        let x = a[h].1;
        let y = b[a[h].0].1;
        let z = c[b[a[h].0].0].1;
        assert(ab[h] == (b[a[h].0].0, (x + y) % m));
        assert(compose_states(ab, c, m)[h] == (c[b[a[h].0].0].0, ((x + y) % m + z) % m));
        assert(bc[a[h].0] == (c[b[a[h].0].0].0, (y + z) % m));
        assert(compose_states(a, bc, m)[h] == (c[b[a[h].0].0].0, (x + (y + z) % m) % m));
        assert(((x + y) % m + z) % m == (x + y + z) % m) by {
            lemma_add_mod_noop((x + y), z, m);
            lemma_mod_twice(x + y, m);
            lemma_mod_bound(z, m);
            lemma_small_mod(z as nat, m as nat);
        }
        assert((x + (y + z) % m) % m == (x + y + z) % m) by {
            lemma_add_mod_noop_right(x, y + z, m);
        }
    }
}

/// The solved bank is a two-sided identity for composition.
pub proof fn lemma_compose_identity(a: Seq<(int, int)>, m: int)
    requires
        wf_states(a, m),
        1 <= m,
    ensures
        compose_states(a, identity_states(a.len() as int), m) =~= a,
        compose_states(identity_states(a.len() as int), a, m) =~= a,
{
    let n = a.len() as int;
    let e = identity_states(n);
    assert forall|h: int| 0 <= h < n implies compose_states(a, e, m)[h] == a[h] by {
        let pa = perm_of(a);
        assert(pa[h] == a[h].0);
        assert(0 <= pa[h] < n);
        assert(e[a[h].0] == (a[h].0, 0int));
        assert(0 <= a[h].1 < m);
        lemma_small_mod(a[h].1 as nat, m as nat);
    }
    assert forall|h: int| 0 <= h < n implies compose_states(e, a, m)[h] == a[h] by {
        assert(e[h] == (h, 0int));
        assert(0 <= a[h].1 < m);
        lemma_small_mod(a[h].1 as nat, m as nat);
    }
}

/// A sequence of pointwise sums splits into the two sums.
proof fn lemma_seq_sum_split(x: Seq<int>, y: Seq<int>, n: nat)
    requires
        x.len() == n,
        y.len() == n,
    ensures
        seq_sum(Seq::new(n, |i: int| x[i] + y[i])) == seq_sum(x) + seq_sum(y),
    decreases n,
{
    let f = |i: int| x[i] + y[i];
    if n == 0 {
        assert(Seq::new(0, f) =~= Seq::<int>::empty());
        assert(x =~= Seq::<int>::empty());
        assert(y =~= Seq::<int>::empty());
    } else {
        let nm = (n - 1) as nat;
        lemma_seq_sum_split(x.take(nm as int), y.take(nm as int), nm);
        assert(Seq::new(nm, |i: int| x.take(nm as int)[i] + y.take(nm as int)[i]) =~= Seq::new(
            nm,
            f,
        ));
        assert(Seq::new(n, f) =~= Seq::new(nm, f).push(f(nm as int)));
        crate::permutation::lemma_seq_sum_push(Seq::new(nm, f), f(nm as int));
        assert(x =~= x.take(nm as int).push(x[nm as int]));
        assert(y =~= y.take(nm as int).push(y[nm as int]));
        crate::permutation::lemma_seq_sum_push(x.take(nm as int), x[nm as int]);
        crate::permutation::lemma_seq_sum_push(y.take(nm as int), y[nm as int]);
    }
}

/// Taking every entry modulo `m` does not change the sum modulo `m`.
proof fn lemma_seq_sum_mod_pointwise(u: Seq<int>, v: Seq<int>, m: int)
    requires
        u.len() == v.len(),
        m >= 1,
        forall|i: int| 0 <= i < u.len() ==> #[trigger] u[i] == v[i] % m,
    ensures
        seq_sum(u) % m == seq_sum(v) % m,
    decreases u.len(),
{
    if u.len() > 0 {
        assert(forall|i: int|
            0 <= i < u.drop_first().len() ==> #[trigger] u.drop_first()[i] == v.drop_first()[i]
                % m);
        lemma_seq_sum_mod_pointwise(u.drop_first(), v.drop_first(), m);
        let v0 = v[0];
        let su = seq_sum(u.drop_first());
        let sv = seq_sum(v.drop_first());
        assert(seq_sum(u) == v0 % m + su);
        assert(seq_sum(v) == v0 + sv);
        assert((v0 % m + su) % m == (v0 + su) % m) by {
            lemma_add_mod_noop(v0, su, m);
            lemma_add_mod_noop(v0 % m, su, m);
            lemma_mod_twice(v0, m);
        }
        assert((v0 + su) % m == (v0 + sv) % m) by {
            lemma_add_mod_noop_right(v0, su, m);
            lemma_add_mod_noop_right(v0, sv, m);
        }
    }
}

/// The orientation sum of a composition is the sum of the two
/// orientation sums, modulo `m`: each piece's orientations add, and the
/// second bank is read off in permuted order, which cannot change its
/// sum.
pub proof fn lemma_compose_ori_sum(a: Seq<(int, int)>, b: Seq<(int, int)>, m: int)
    requires
        wf_states(a, m),
        wf_states(b, m),
        a.len() == b.len(),
        m >= 2,
    ensures
        seq_sum(oris_of(compose_states(a, b, m))) % m == (seq_sum(oris_of(a)) + seq_sum(
            oris_of(b),
        )) % m,
{
    let n = a.len();
    let comp = compose_states(a, b, m);
    let pa = perm_of(a);
    let x = oris_of(a);
    let y = Seq::new(n, |h: int| b[pa[h]].1);
    let v = Seq::new(n, |h: int| x[h] + y[h]);
    assert forall|h: int| 0 <= h < n implies #[trigger] oris_of(comp)[h] == v[h] % m by {
        assert(0 <= pa[h] < n);
        assert(comp[h].1 == (a[h].1 + b[pa[h]].1) % m);
    }
    lemma_seq_sum_mod_pointwise(oris_of(comp), v, m);
    lemma_seq_sum_split(x, y, n);
    // the permuted read of b's orientations has the same sum as b's
    let f = |p: int| b[p].1;
    let idseq = Seq::new(n, |i: int| i);
    lemma_perm_multiset_identity(pa);
    lemma_map_values_multiset(pa, idseq, f);
    assert(y =~= pa.map_values(f));
    assert(oris_of(b) =~= idseq.map_values(f));
    lemma_seq_sum_multiset(pa.map_values(f), idseq.map_values(f));
}

/// The inverse of a well-formed bank is well formed, and it is exactly
/// the bank that undoes `a`: entry `a[h].0` of the inverse is
/// `(h, -a[h].1 mod m)`.
pub proof fn lemma_inverse_wf(a: Seq<(int, int)>, m: int)
    requires
        wf_states(a, m),
        1 <= m,
    ensures
        wf_states(inverse_states(a, m), m),
        forall|h: int| 0 <= h < a.len() ==> inverse_states(a, m)[(#[trigger] a[h]).0] == (
            h,
            (m - a[h].1) % m,
        ),
{
    let n = a.len() as int;
    let inv = inverse_states(a, m);
    let pa = perm_of(a);
    assert forall|h: int| 0 <= h < n implies inv[(#[trigger] a[h]).0] == (h, (m - a[h].1) % m) by {
        let c = a[h].0;
        assert(pa[h] == c);
        assert(0 <= pa[h] < n);
        lemma_inv_at(a, m, c);
        assert(inv_at(a, c) == h);
        assert(inv[c] == (inv_at(a, c), (m - a[inv_at(a, c)].1) % m));
    }
    assert forall|c: int| 0 <= c < n implies 0 <= (#[trigger] inv[c]).0 < n && 0 <= inv[c].1
        < m by {
        lemma_inv_at(a, m, c);
        assert(inv[c] == (inv_at(a, c), (m - a[inv_at(a, c)].1) % m));
        lemma_mod_bound(m - a[inv_at(a, c)].1, m);
    }
    let pi = perm_of(inv);
    assert forall|c1: int, c2: int|
        0 <= c1 < n && 0 <= c2 < n && c1 != c2 implies pi[c1] != pi[c2] by {
        lemma_inv_at(a, m, c1);
        lemma_inv_at(a, m, c2);
        assert(pi[c1] == inv_at(a, c1) && pi[c2] == inv_at(a, c2));
        if inv_at(a, c1) == inv_at(a, c2) {
            assert(c1 == a[inv_at(a, c1)].0 == a[inv_at(a, c2)].0 == c2);
            assert(false);
        }
    }
    assert(pi.no_duplicates());
    assert forall|c: int| 0 <= c < n implies 0 <= #[trigger] pi[c] < n by {
        assert(0 <= inv[c].0 < n);
    }
    assert forall|c: int| 0 <= c < n implies 0 <= (#[trigger] inv[c]).1 < m by {}
}

/// Composing a bank with its inverse, in either order, yields the
/// solved bank.
pub proof fn lemma_compose_inverse(a: Seq<(int, int)>, m: int)
    requires
        wf_states(a, m),
        1 <= m,
    ensures
        compose_states(a, inverse_states(a, m), m) =~= identity_states(a.len() as int),
        compose_states(inverse_states(a, m), a, m) =~= identity_states(a.len() as int),
{
    let n = a.len() as int;
    let inv = inverse_states(a, m);
    lemma_inverse_wf(a, m);
    assert forall|h: int| 0 <= h < n implies compose_states(a, inv, m)[h] == (h, 0int) by {
        let pa = perm_of(a);
        let c = a[h].0;
        let o = a[h].1;
        assert(pa[h] == c);
        assert(0 <= pa[h] < n);
        assert(inv[c] == (h, (m - o) % m));
        assert(0 <= o < m);
        assert((o + (m - o) % m) % m == 0) by {
            lemma_mod_self_0(m);
            if o == 0 {
                assert((m - 0) % m == 0);
                lemma_small_mod(0nat, m as nat);
            } else {
                lemma_small_mod((m - o) as nat, m as nat);
                assert((m - o) % m == m - o);
                assert(o + (m - o) % m == m);
            }
        }
    }
    assert forall|c: int| 0 <= c < n implies compose_states(inv, a, m)[c] == (c, 0int) by {
        lemma_inv_at(a, m, c);
        let h = inv_at(a, c);
        assert(0 <= h < n && a[h].0 == c);
        assert(inv[c] == (h, (m - a[h].1) % m));
        let o = a[h].1;
        assert(0 <= o < m);
        assert(compose_states(inv, a, m)[c] == (a[h].0, ((m - o) % m + o) % m));
        assert(((m - o) % m + o) % m == 0) by {
            lemma_mod_self_0(m);
            if o == 0 {
                assert((m - 0) % m == 0);
                lemma_small_mod(0nat, m as nat);
            } else {
                lemma_small_mod((m - o) as nat, m as nat);
                assert((m - o) % m == m - o);
                assert((m - o) % m + o == m);
            }
        }
    }
}

} // verus!
