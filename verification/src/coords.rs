//! The three search coordinates of a cube state.
//!
//! The corner-orientation coordinate (range `0..2187`, that is `3^7`) and
//! the edge-orientation coordinate (range `0..2048`, that is `2^11`) are
//! mixed-radix numbers: digit `c` is the orientation of the piece
//! currently in cubicle `c`, for every cubicle but the last one, whose
//! piece's orientation is forced by the zero-sum invariant.
//!
//! The UD-slice coordinate (range `0..495`, that is the number of
//! 4-element subsets of 12) encodes which 4 cubicles currently hold the
//! four equatorial edge pieces, as the rank of the corresponding 12-bit
//! mask among all masks with exactly 4 set bits, in ascending numeric
//! order.

use vstd::prelude::*;
use vstd::arithmetic::power::{lemma_pow_positive, pow};
use vstd::arithmetic::div_mod::{lemma_div_denominator, lemma_mod_bound, lemma_small_mod};
use vstd::arithmetic::mul::lemma_mul_inequality;
use crate::algebra::{compose_states, inv_at, lemma_inv_at, oris_of, perm_of, wf_states};
use crate::cubie::{CornerCubie, CornerOrientation, EdgeCubie, EdgeOrientation};
use crate::cubie_cube::CubieCube;
use crate::iter_2cycles::{corner_2cycles, corner_pairs_idx, edge_2cycles, edge_pairs_idx};
use crate::permutation::{
    greedy_count, lemma_cover_is_permutation, lemma_map_values_multiset,
    lemma_perm_multiset_identity, lemma_seq_sum_multiset, lemma_seq_sum_push, seq_sum, seq_swap,
};
use crate::radix::{
    cnt_below, digit, digit_sum, digit_weighted_sum, lemma_cnt_strict, lemma_digit_bound,
    lemma_digit_reconstruction, lemma_pc_le_self, lemma_pow2_values, lemma_total_slice_masks, pc,
};

verus! {

broadcast use
    crate::cubie::lemma_corner_cubicle_idx,
    crate::cubie::lemma_corner_orientation_idx,
    crate::cubie::lemma_edge_cubicle_idx,
    crate::cubie::lemma_edge_orientation_idx,
;

/// Which piece bank a coordinate reads: the 8 corners or the 12 edges.
#[derive(Debug, Copy, Clone, Eq, PartialEq, Structural)]
pub enum PieceKind {
    Corner,
    Edge,
}

/// The orientation of the piece currently in cubicle `c`.
pub open spec fn pos_ori(s: Seq<(int, int)>, c: int) -> int {
    s[inv_at(s, c)].1
}

/// The mixed-radix orientation coordinate over positions `0..k`.
pub open spec fn ori_coord_rec(s: Seq<(int, int)>, m: int, k: nat) -> int
    decreases k,
{
    if k == 0 {
        0
    } else {
        ori_coord_rec(s, m, (k - 1) as nat) + pow(m, (k - 1) as nat) * pos_ori(s, k - 1)
    }
}

/// The orientation coordinate of a bank: digit `c` (base `m`) is the
/// orientation of the piece currently in cubicle `c`, for every cubicle
/// but the last.
pub open spec fn ori_coord(s: Seq<(int, int)>, m: int) -> int {
    ori_coord_rec(s, m, (s.len() - 1) as nat)
}

/// The orientation that the piece in the last cubicle must have for the
/// orientation sum to vanish, once all other positions carry the digits
/// of `coord`.
pub open spec fn last_ori_fix(m: int, coord: int, n: int) -> int {
    (m - digit_sum(coord, m, (n - 1) as nat) % m) % m
}

/// The bank `s` with its orientations replaced according to `coord`:
/// each piece outside the last cubicle gets the digit of its current
/// cubicle, and the piece in the last cubicle gets the fixing
/// orientation.
pub open spec fn with_ori_coord(s: Seq<(int, int)>, m: int, coord: int) -> Seq<(int, int)> {
    Seq::new(
        s.len(),
        |h: int|
            (
                s[h].0,
                if s[h].0 == s.len() - 1 {
                    last_ori_fix(m, coord, s.len() as int)
                } else {
                    digit(coord, m, s[h].0 as nat)
                },
            ),
    )
}

/// The orientation coordinate lies below `m^(n-1)`.
pub proof fn lemma_ori_coord_rec_bound(s: Seq<(int, int)>, m: int, k: nat)
    requires
        m >= 2,
        forall|c: int| 0 <= c < k ==> 0 <= #[trigger] pos_ori(s, c) < m,
    ensures
        0 <= ori_coord_rec(s, m, k) < pow(m, k),
    decreases k,
{
    reveal(vstd::arithmetic::power::pow);
    lemma_pow_positive(m, k);
    if k > 0 {
        let km = (k - 1) as nat;
        lemma_ori_coord_rec_bound(s, m, km);
        lemma_pow_positive(m, km);
        assert(pos_ori(s, km as int) <= m - 1);
        assert(pow(m, km) * pos_ori(s, km as int) <= pow(m, km) * (m - 1)) by {
            vstd::arithmetic::mul::lemma_mul_is_commutative(pow(m, km), pos_ori(s, km as int));
            vstd::arithmetic::mul::lemma_mul_is_commutative(pow(m, km), m - 1);
            lemma_mul_inequality(pos_ori(s, km as int), m - 1, pow(m, km));
        }
        assert(pow(m, k) == m * pow(m, km));
        assert(pow(m, km) + pow(m, km) * (m - 1) == m * pow(m, km)) by {
            vstd::arithmetic::mul::lemma_mul_is_distributive_add(pow(m, km), 1, m - 1);
            vstd::arithmetic::mul::lemma_mul_is_commutative(pow(m, km), m);
            vstd::arithmetic::mul::lemma_mul_basics(pow(m, km));
        }
    }
}

/// Two banks whose pieces sit at the same positions with the same
/// orientations position-by-position have the same coordinate.
pub proof fn lemma_ori_coord_rec_congruent(s1: Seq<(int, int)>, s2: Seq<(int, int)>, m: int, k: nat)
    requires
        forall|c: int| 0 <= c < k ==> pos_ori(s1, c) == pos_ori(s2, c),
    ensures
        ori_coord_rec(s1, m, k) == ori_coord_rec(s2, m, k),
    decreases k,
{
    if k > 0 {
        lemma_ori_coord_rec_congruent(s1, s2, m, (k - 1) as nat);
    }
}

/// The coordinate whose position digits are the digits of `coord`
/// rebuilds `coord` itself.
proof fn lemma_ori_coord_rec_digits(s: Seq<(int, int)>, m: int, coord: int, k: nat)
    requires
        m >= 2,
        coord >= 0,
        forall|c: int| 0 <= c < k ==> #[trigger] pos_ori(s, c) == digit(coord, m, c as nat),
    ensures
        ori_coord_rec(s, m, k) == digit_weighted_sum(coord, m, k),
    decreases k,
{
    if k > 0 {
        lemma_ori_coord_rec_digits(s, m, coord, (k - 1) as nat);
    }
}

/// The sum of the first `k` digits of `coord`, as a sequence sum.
proof fn lemma_digit_seq_sum(coord: int, m: int, k: nat)
    ensures
        seq_sum(Seq::new(k, |c: int| digit(coord, m, c as nat))) == digit_sum(coord, m, k),
    decreases k,
{
    let f = |c: int| digit(coord, m, c as nat);
    if k == 0 {
        assert(Seq::new(0, f) =~= Seq::<int>::empty());
    } else {
        let km = (k - 1) as nat;
        lemma_digit_seq_sum(coord, m, km);
        assert(Seq::new(k, f) =~= Seq::new(km, f).push(f(km as int)));
        lemma_seq_sum_push(Seq::new(km, f), f(km as int));
    }
}

/// The orientation sum of a bank equals the sum of its orientations read
/// off position by position: summing over homes or over cubicles is the
/// same, because the cubicles are a permutation of the homes.
pub proof fn lemma_ori_sum_by_position(s: Seq<(int, int)>, m: int)
    requires
        wf_states(s, m),
    ensures
        seq_sum(oris_of(s)) == seq_sum(Seq::new(s.len(), |c: int| pos_ori(s, c))),
{
    let n = s.len() as int;
    let p = perm_of(s);
    let f = |c: int| pos_ori(s, c);
    let idseq = Seq::new(s.len(), |i: int| i);
    lemma_perm_multiset_identity(p);
    lemma_map_values_multiset(p, idseq, f);
    assert(oris_of(s) =~= p.map_values(f)) by {
        assert forall|h: int| 0 <= h < n implies oris_of(s)[h] == p.map_values(f)[h] by {
            assert(p.map_values(f)[h] == pos_ori(s, p[h]));
            lemma_inv_at(s, m, s[h].0);
            assert(inv_at(s, s[h].0) == h);
            assert(pos_ori(s, s[h].0) == s[h].1);
            assert(p[h] == s[h].0);
        }
    }
    assert(Seq::new(s.len(), f) =~= idseq.map_values(f));
    lemma_seq_sum_multiset(p.map_values(f), idseq.map_values(f));
}

/// Everything [`CubieCube::set_ori_coord`] promises, derived from the
/// shape of [`with_ori_coord`]: same permutation, coordinate restored,
/// zero orientation sum, well-formed.
pub proof fn lemma_with_ori_coord_props(s: Seq<(int, int)>, m: int, coord: int, n: int)
    requires
        wf_states(s, m),
        s.len() == n,
        2 <= n,
        m >= 2,
        0 <= coord < pow(m, (n - 1) as nat),
    ensures
        wf_states(with_ori_coord(s, m, coord), m),
        perm_of(with_ori_coord(s, m, coord)) == perm_of(s),
        ori_coord(with_ori_coord(s, m, coord), m) == coord,
        seq_sum(oris_of(with_ori_coord(s, m, coord))) % m == 0,
{
    let w = with_ori_coord(s, m, coord);
    let fixv = last_ori_fix(m, coord, n);
    assert(perm_of(w) =~= perm_of(s));
    // digit sums are nonnegative and the fix cancels them modulo m
    assert(digit_sum(coord, m, (n - 1) as nat) >= 0) by {
        lemma_digit_sum_nonneg(coord, m, (n - 1) as nat);
    }
    let ds = digit_sum(coord, m, (n - 1) as nat);
    lemma_mod_bound(ds, m);
    assert(0 <= fixv < m) by {
        lemma_mod_bound(m - ds % m, m);
    }
    // well-formedness: same permutation, orientations in range
    assert forall|i: int| 0 <= i < n implies 0 <= (#[trigger] w[i]).1 < m by {
        let pa = perm_of(s);
        assert(pa[i] == s[i].0);
        assert(0 <= s[i].0 < n);
        if s[i].0 == n - 1 {
        } else {
            lemma_digit_bound(coord, m, s[i].0 as nat);
        }
    }
    // each position below n-1 carries its digit
    assert forall|c: int| 0 <= c < n - 1 implies #[trigger] pos_ori(w, c) == digit(
        coord,
        m,
        c as nat,
    ) by {
        lemma_inv_at(w, m, c);
        let h = inv_at(w, c);
        assert(w[h].0 == c);
        assert(w[h].1 == digit(coord, m, c as nat));
    }
    // the last position carries the fix
    assert(pos_ori(w, n - 1) == fixv) by {
        lemma_inv_at(w, m, n - 1);
        let h = inv_at(w, n - 1);
        assert(w[h].0 == n - 1);
    }
    // coordinate restored
    lemma_ori_coord_rec_digits(w, m, coord, (n - 1) as nat);
    lemma_digit_reconstruction(coord, m, (n - 1) as nat);
    lemma_small_mod(coord as nat, pow(m, (n - 1) as nat) as nat);
    // zero orientation sum
    lemma_ori_sum_by_position(w, m);
    let g = |c: int| pos_ori(w, c);
    let digs = Seq::new((n - 1) as nat, |c: int| digit(coord, m, c as nat));
    assert(Seq::new(w.len(), g) =~= digs.push(fixv));
    lemma_seq_sum_push(digs, fixv);
    lemma_digit_seq_sum(coord, m, (n - 1) as nat);
    assert(seq_sum(oris_of(w)) == ds + fixv);
    assert((ds + fixv) % m == 0) by {
        vstd::arithmetic::div_mod::lemma_add_mod_noop(ds, fixv, m);
        lemma_small_mod(fixv as nat, m as nat);
        let r = ds % m;
        vstd::arithmetic::div_mod::lemma_mod_self_0(m);
        if r == 0 {
            assert(fixv == 0) by {
                assert((m - 0) % m == 0);
            }
            assert((r + fixv % m) % m == 0) by {
                lemma_small_mod(0nat, m as nat);
            }
        } else {
            assert(fixv == m - r) by {
                lemma_small_mod((m - r) as nat, m as nat);
            }
            assert(r + fixv == m);
        }
    }
}

/// In a well-formed bank every position's orientation is in range.
pub proof fn lemma_pos_ori_in_range(s: Seq<(int, int)>, m: int)
    requires
        wf_states(s, m),
    ensures
        forall|c: int| 0 <= c < s.len() ==> 0 <= #[trigger] pos_ori(s, c) < m,
{
    assert forall|c: int| 0 <= c < s.len() implies 0 <= #[trigger] pos_ori(s, c) < m by {
        lemma_inv_at(s, m, c);
    }
}

/// The orientation coordinate pins the digits back out: digit `j` of
/// the coordinate is the orientation at position `j`.
proof fn lemma_ori_coord_rec_digit(s: Seq<(int, int)>, m: int, k: nat, j: nat)
    requires
        m >= 2,
        j < k,
        forall|c: int| 0 <= c < k ==> 0 <= #[trigger] pos_ori(s, c) < m,
    ensures
        digit(ori_coord_rec(s, m, k), m, j) == pos_ori(s, j as int),
    decreases k,
{
    reveal(vstd::arithmetic::power::pow);
    let km = (k - 1) as nat;
    let p = pos_ori(s, km as int);
    lemma_ori_coord_rec_bound(s, m, km);
    lemma_pow_positive(m, j);
    lemma_pow_positive(m, km);
    let rec = ori_coord_rec(s, m, k);
    let rp = ori_coord_rec(s, m, km);
    assert(rec == rp + pow(m, km) * p);
    if j == km {
        // the top digit: the lower part divides away entirely
        assert(rec / pow(m, j) == rp / pow(m, j) + p) by {
            vstd::arithmetic::div_mod::lemma_hoist_over_denominator(rp, p, pow(m, j) as nat);
            assert(pow(m, km) * p == p * pow(m, j)) by {
                vstd::arithmetic::mul::lemma_mul_is_commutative(pow(m, km), p);
            }
        }
        assert(rp / pow(m, j) == 0) by {
            vstd::arithmetic::div_mod::lemma_basic_div(rp, pow(m, j));
        }
        lemma_small_mod(p as nat, m as nat);
    } else {
        lemma_ori_coord_rec_digit(s, m, km, j);
        let w = (km - j) as nat;
        assert(pow(m, km) == pow(m, j) * pow(m, w)) by {
            vstd::arithmetic::power::lemma_pow_adds(m, j, w);
        }
        let jc = pow(m, w) * p;
        assert(rec / pow(m, j) == rp / pow(m, j) + jc) by {
            vstd::arithmetic::div_mod::lemma_hoist_over_denominator(rp, jc, pow(m, j) as nat);
            assert(pow(m, km) * p == jc * pow(m, j)) by {
                vstd::arithmetic::mul::lemma_mul_is_associative(pow(m, j), pow(m, w), p);
                vstd::arithmetic::mul::lemma_mul_is_commutative(pow(m, j), pow(m, w) * p);
            }
        }
        assert(w >= 1);
        assert(pow(m, w) == m * pow(m, (w - 1) as nat));
        assert(jc == m * (pow(m, (w - 1) as nat) * p)) by {
            vstd::arithmetic::mul::lemma_mul_is_associative(m, pow(m, (w - 1) as nat), p);
        }
        assert((rp / pow(m, j) + m * (pow(m, (w - 1) as nat) * p)) % m == (rp / pow(m, j)) % m)
            by {
            vstd::arithmetic::div_mod::lemma_mod_multiples_vanish(
                pow(m, (w - 1) as nat) * p,
                rp / pow(m, j),
                m,
            );
        }
    }
}

/// For a zero-sum bank, the coordinate together with the zero-sum rule
/// determines every position's orientation: positions below the last
/// carry the coordinate's digits, and the last position carries the
/// fixing orientation.
pub proof fn lemma_ori_coord_determines(s: Seq<(int, int)>, m: int)
    requires
        wf_states(s, m),
        s.len() >= 2,
        m >= 2,
        seq_sum(oris_of(s)) % m == 0,
    ensures
        forall|c: int|
            0 <= c < s.len() - 1 ==> #[trigger] pos_ori(s, c) == digit(
                ori_coord(s, m),
                m,
                c as nat,
            ),
        pos_ori(s, s.len() - 1) == last_ori_fix(m, ori_coord(s, m), s.len() as int),
{
    let n = s.len() as int;
    let coord = ori_coord(s, m);
    lemma_pos_ori_in_range(s, m);
    assert forall|c: int|
        0 <= c < n - 1 implies #[trigger] pos_ori(s, c) == digit(coord, m, c as nat) by {
        lemma_ori_coord_rec_digit(s, m, (n - 1) as nat, c as nat);
    }
    // the digit sum of the coordinate is the sum of all but the last position
    let digs = Seq::new((n - 1) as nat, |c: int| digit(coord, m, c as nat));
    let g = |c: int| pos_ori(s, c);
    lemma_digit_seq_sum(coord, m, (n - 1) as nat);
    assert(digs =~= Seq::new((n - 1) as nat, g));
    let p = pos_ori(s, n - 1);
    assert(Seq::new(s.len(), g) =~= Seq::new((n - 1) as nat, g).push(p));
    lemma_seq_sum_push(Seq::new((n - 1) as nat, g), p);
    lemma_ori_sum_by_position(s, m);
    let ds = digit_sum(coord, m, (n - 1) as nat);
    assert(seq_sum(oris_of(s)) == ds + p);
    assert((ds + p) % m == 0);
    lemma_mod_bound(ds, m);
    assert(p == (m - ds % m) % m) by {
        vstd::arithmetic::div_mod::lemma_add_mod_noop(ds, p, m);
        lemma_small_mod(p as nat, m as nat);
        vstd::arithmetic::div_mod::lemma_mod_self_0(m);
        let r = ds % m;
        if r == 0 {
            assert((r + p) % m == 0);
            assert(p % m == 0) by {
                lemma_small_mod(0nat, m as nat);
            }
            assert(p == 0);
            assert((m - 0) % m == 0);
        } else {
            assert((r + p) % m == 0);
            if p == 0 {
                lemma_small_mod(r as nat, m as nat);
                assert(false);
            }
            assert(0 < r + p < 2 * m);
            assert(r + p == m) by {
                if r + p < m {
                    lemma_small_mod((r + p) as nat, m as nat);
                    assert(false);
                }
                if r + p > m {
                    assert((r + p) - m < m);
                    vstd::arithmetic::div_mod::lemma_mod_sub_multiples_vanish(r + p, m);
                    lemma_small_mod((r + p - m) as nat, m as nat);
                    assert(false);
                }
            }
            lemma_small_mod((m - r) as nat, m as nat);
        }
    }
}

/// Composing moves the orientations position-wise: the piece that was
/// at position `p` is now at position `g[p].0` with `g[p].1` added to
/// its orientation.
pub proof fn lemma_compose_pos_ori(s: Seq<(int, int)>, g: Seq<(int, int)>, m: int)
    requires
        wf_states(s, m),
        wf_states(g, m),
        s.len() == g.len(),
        m >= 2,
    ensures
        forall|p: int|
            0 <= p < s.len() ==> pos_ori(compose_states(s, g, m), (#[trigger] g[p]).0) == (
            pos_ori(s, p) + g[p].1) % m,
{
    let n = s.len() as int;
    let comp = compose_states(s, g, m);
    crate::algebra::lemma_compose_wf(s, g, m);
    assert forall|p: int|
        0 <= p < n implies pos_ori(comp, (#[trigger] g[p]).0) == (pos_ori(s, p) + g[p].1)
        % m by {
        assert(perm_of(g)[p] == g[p].0);
        assert(0 <= g[p].0 < n);
        lemma_inv_at(s, m, p);
        let h = inv_at(s, p);
        assert(s[h].0 == p);
        assert(comp[h] == (g[p].0, (s[h].1 + g[p].1) % m));
        lemma_inv_at(comp, m, g[p].0);
        assert(inv_at(comp, g[p].0) == h);
        assert(pos_ori(comp, g[p].0) == comp[h].1);
        assert(pos_ori(s, p) == s[h].1);
    }
}

/// Digit sums are nonnegative.
pub proof fn lemma_digit_sum_nonneg(x: int, m: int, k: nat)
    requires
        x >= 0,
        m >= 2,
    ensures
        digit_sum(x, m, k) >= 0,
    decreases k,
{
    if k > 0 {
        lemma_digit_sum_nonneg(x, m, (k - 1) as nat);
        lemma_digit_bound(x, m, (k - 1) as nat);
    }
}

impl CubieCube {
    /// The orientation coordinate of the chosen bank: corner range
    /// `0..2187`, edge range `0..2048`.
    pub fn get_ori_coord(&self, kind: PieceKind) -> (r: u16)
        requires
            self.wf(),
        ensures
            kind == PieceKind::Corner ==> r as int == ori_coord(self.corner_states(), 3) && r
                < 2187,
            kind == PieceKind::Edge ==> r as int == ori_coord(self.edge_states(), 2) && r < 2048,
    {
        match kind {
            PieceKind::Corner => self.corner_ori_coord(),
            PieceKind::Edge => self.edge_ori_coord(),
        }
    }

    fn corner_ori_coord(&self) -> (r: u16)
        requires
            self.wf(),
        ensures
            r as int == ori_coord(self.corner_states(), 3),
            r < 2187,
    {
        let ghost s = self.corner_states();
        let mut d: [u16; 8] = [0;8];
        let mut h: usize = 0;
        while h < 8
            invariant
                self.wf(),
                s == self.corner_states(),
                h <= 8,
                forall|t: int| 0 <= t < h ==> d@[(#[trigger] s[t]).0] as int == s[t].1,
                forall|t: int| 0 <= t < 8 ==> d@[t] < 3,
            decreases 8 - h,
        {
            let ghost dprev = d@;
            let st = *self.corners.get(h);
            let c = st.c.index();
            proof {
                assert(s[h as int].0 == st.c.idx());
                assert(perm_of(s)[h as int] == st.c.idx());
                assert(0 <= perm_of(s)[h as int] < 8);
            }
            d[c] = st.orientation().index() as u16;
            proof {
                assert forall|t: int| 0 <= t < h + 1 implies d@[(#[trigger] s[t]).0] as int
                    == s[t].1 by {
                    assert(perm_of(s)[t] == s[t].0);
                    assert(0 <= s[t].0 < 8);
                    if t < h {
                        assert(perm_of(s)[h as int] == s[h as int].0);
                        assert(s[t].0 != s[h as int].0);
                        assert(d@[s[t].0] == dprev[s[t].0]);
                    } else {
                        assert(d@[s[t].0] as int == st.o.idx());
                    }
                }
            }
            h += 1;
        }
        proof {
            assert forall|c: int| 0 <= c < 8 implies (#[trigger] d@[c]) as int == pos_ori(s, c)
                && 0 <= pos_ori(s, c) < 3 by {
                lemma_inv_at(s, 3, c);
                let t = inv_at(s, c);
                assert(d@[s[t].0] as int == s[t].1);
            }
            assert forall|c: int| 0 <= c < 8 implies 0 <= #[trigger] pos_ori(s, c) < 3 by {
                assert(d@[c] as int == pos_ori(s, c));
            }
            lemma_pow2_values();
        }
        let mut sum: u16 = 0;
        let mut pw: u16 = 1;
        let mut c: usize = 0;
        while c < 7
            invariant
                c <= 7,
                forall|t: int| 0 <= t < 8 ==> (#[trigger] d@[t]) as int == pos_ori(s, t),
                forall|t: int| 0 <= t < 8 ==> 0 <= #[trigger] pos_ori(s, t) < 3,
                pw as int == pow(3, c as nat),
                sum as int == ori_coord_rec(s, 3, c as nat),
                0 <= sum as int && (sum as int) < pow(3, c as nat),
                pow(3, 7) == 2187,
            decreases 7 - c,
        {
            proof {
                lemma_pow2_values();
                vstd::arithmetic::power::lemma_pow_increases(3, (c + 1) as nat, 7);
                assert(pow(3, (c + 1) as nat) == 3 * pow(3, c as nat)) by {
                    reveal(vstd::arithmetic::power::pow);
                }
                assert(pw * d[c as int] <= pow(3, c as nat) * 2) by {
                    vstd::arithmetic::mul::lemma_mul_is_commutative(pow(3, c as nat), 2);
                    vstd::arithmetic::mul::lemma_mul_is_commutative(
                        pow(3, c as nat),
                        d[c as int] as int,
                    );
                    lemma_mul_inequality(d[c as int] as int, 2, pow(3, c as nat));
                }
            }
            sum = sum + pw * d[c];
            proof {
                assert(ori_coord_rec(s, 3, (c + 1) as nat) == ori_coord_rec(s, 3, c as nat) + pow(
                    3,
                    c as nat,
                ) * pos_ori(s, c as int));
            }
            pw = pw * 3;
            c += 1;
        }
        proof {
            assert(s.len() == 8);
            assert(ori_coord(s, 3) == ori_coord_rec(s, 3, 7));
        }
        sum
    }

    fn edge_ori_coord(&self) -> (r: u16)
        requires
            self.wf(),
        ensures
            r as int == ori_coord(self.edge_states(), 2),
            r < 2048,
    {
        let ghost s = self.edge_states();
        let mut d: [u16; 12] = [0;12];
        let mut h: usize = 0;
        while h < 12
            invariant
                self.wf(),
                s == self.edge_states(),
                h <= 12,
                forall|t: int| 0 <= t < h ==> d@[(#[trigger] s[t]).0] as int == s[t].1,
                forall|t: int| 0 <= t < 12 ==> d@[t] < 2,
            decreases 12 - h,
        {
            let ghost dprev = d@;
            let st = *self.edges.get(h);
            let c = st.c.index();
            proof {
                assert(s[h as int].0 == st.c.idx());
                assert(perm_of(s)[h as int] == st.c.idx());
                assert(0 <= perm_of(s)[h as int] < 12);
            }
            d[c] = st.orientation().index() as u16;
            proof {
                assert forall|t: int| 0 <= t < h + 1 implies d@[(#[trigger] s[t]).0] as int
                    == s[t].1 by {
                    assert(perm_of(s)[t] == s[t].0);
                    assert(0 <= s[t].0 < 12);
                    if t < h {
                        assert(perm_of(s)[h as int] == s[h as int].0);
                        assert(s[t].0 != s[h as int].0);
                        assert(d@[s[t].0] == dprev[s[t].0]);
                    } else {
                        assert(d@[s[t].0] as int == st.o.idx());
                    }
                }
            }
            h += 1;
        }
        proof {
            assert forall|c: int| 0 <= c < 12 implies (#[trigger] d@[c]) as int == pos_ori(s, c)
                && 0 <= pos_ori(s, c) < 2 by {
                lemma_inv_at(s, 2, c);
                let t = inv_at(s, c);
                assert(d@[s[t].0] as int == s[t].1);
            }
            assert forall|c: int| 0 <= c < 12 implies 0 <= #[trigger] pos_ori(s, c) < 2 by {
                assert(d@[c] as int == pos_ori(s, c));
            }
            lemma_pow2_values();
        }
        let mut sum: u16 = 0;
        let mut pw: u16 = 1;
        let mut c: usize = 0;
        while c < 11
            invariant
                c <= 11,
                forall|t: int| 0 <= t < 12 ==> (#[trigger] d@[t]) as int == pos_ori(s, t),
                forall|t: int| 0 <= t < 12 ==> 0 <= #[trigger] pos_ori(s, t) < 2,
                pw as int == pow(2, c as nat),
                sum as int == ori_coord_rec(s, 2, c as nat),
                0 <= sum as int && (sum as int) < pow(2, c as nat),
                pow(2, 11) == 2048,
            decreases 11 - c,
        {
            proof {
                lemma_pow2_values();
                vstd::arithmetic::power::lemma_pow_increases(2, (c + 1) as nat, 11);
                assert(pow(2, (c + 1) as nat) == 2 * pow(2, c as nat)) by {
                    reveal(vstd::arithmetic::power::pow);
                }
                assert(pw * d[c as int] <= pow(2, c as nat) * 1) by {
                    vstd::arithmetic::mul::lemma_mul_is_commutative(pow(2, c as nat), 1);
                    vstd::arithmetic::mul::lemma_mul_is_commutative(
                        pow(2, c as nat),
                        d[c as int] as int,
                    );
                    lemma_mul_inequality(d[c as int] as int, 1, pow(2, c as nat));
                }
            }
            sum = sum + pw * d[c];
            proof {
                assert(ori_coord_rec(s, 2, (c + 1) as nat) == ori_coord_rec(s, 2, c as nat) + pow(
                    2,
                    c as nat,
                ) * pos_ori(s, c as int));
            }
            pw = pw * 2;
            c += 1;
        }
        proof {
            assert(s.len() == 12);
            assert(ori_coord(s, 2) == ori_coord_rec(s, 2, 11));
        }
        sum
    }

    /// Replaces the chosen bank's orientations so that its orientation
    /// coordinate becomes `coord` and the orientation sum stays zero:
    /// the exact inverse of [`CubieCube::get_ori_coord`]. The permutation
    /// and the other bank are untouched, so a possible cube stays
    /// possible.
    pub fn set_ori_coord(&mut self, kind: PieceKind, coord: u16)
        requires
            old(self).wf(),
            kind == PieceKind::Corner ==> coord < 2187,
            kind == PieceKind::Edge ==> coord < 2048,
        ensures
            final(self).wf(),
            kind == PieceKind::Corner ==> {
                &&& final(self).corner_states() == with_ori_coord(
                    old(self).corner_states(),
                    3,
                    coord as int,
                )
                &&& final(self).edge_states() == old(self).edge_states()
                &&& ori_coord(final(self).corner_states(), 3) == coord
                &&& seq_sum(oris_of(final(self).corner_states())) % 3 == 0
            },
            kind == PieceKind::Edge ==> {
                &&& final(self).edge_states() == with_ori_coord(
                    old(self).edge_states(),
                    2,
                    coord as int,
                )
                &&& final(self).corner_states() == old(self).corner_states()
                &&& ori_coord(final(self).edge_states(), 2) == coord
                &&& seq_sum(oris_of(final(self).edge_states())) % 2 == 0
            },
            old(self).possible() ==> final(self).possible(),
    {
        match kind {
            PieceKind::Corner => self.set_corner_ori_coord(coord),
            PieceKind::Edge => self.set_edge_ori_coord(coord),
        }
    }

    fn set_corner_ori_coord(&mut self, coord: u16)
        requires
            old(self).wf(),
            coord < 2187,
        ensures
            final(self).corner_states() == with_ori_coord(
                old(self).corner_states(),
                3,
                coord as int,
            ),
            final(self).edge_states() == old(self).edge_states(),
            final(self).wf(),
            ori_coord(final(self).corner_states(), 3) == coord,
            seq_sum(oris_of(final(self).corner_states())) % 3 == 0,
            old(self).possible() ==> final(self).possible(),
    {
        let ghost s = old(self).corner_states();
        // peel the digits of `coord`, lowest position first
        let mut dig: [u16; 8] = [0;8];
        let mut rem: u16 = coord;
        proof {
            reveal(vstd::arithmetic::power::pow);
            assert(pow(3, 0nat) == 1);
            vstd::arithmetic::div_mod::lemma_div_basics(coord as int);
        }
        let mut c: usize = 0;
        while c < 7
            invariant
                c <= 7,
                coord < 2187,
                rem as int == coord as int / pow(3, c as nat),
                rem <= coord,
                forall|t: int| 0 <= t < c ==> dig@[t] as int == digit(coord as int, 3, t as nat),
                forall|t: int| 0 <= t < 8 ==> dig@[t] < 3,
            decreases 7 - c,
        {
            let ghost dprev = dig@;
            dig[c] = rem % 3;
            proof {
                reveal(vstd::arithmetic::power::pow);
                assert(pow(3, 0nat) == 1);
                assert(digit(coord as int, 3, c as nat) == (coord as int / pow(3, c as nat)) % 3);
                lemma_pow_positive(3, c as nat);
                lemma_div_denominator(coord as int, pow(3, c as nat), 3);
                assert(pow(3, (c + 1) as nat) == 3 * pow(3, c as nat));
                vstd::arithmetic::mul::lemma_mul_is_commutative(pow(3, c as nat), 3);
                assert(forall|t: int| 0 <= t < c ==> dig@[t] == dprev[t]);
                vstd::arithmetic::div_mod::lemma_div_basics_5(coord as int, pow(3, (c + 1) as nat));
            }
            rem = rem / 3;
            c += 1;
        }
        // total of the seven digits, for the fixing orientation
        let mut total: usize = 0;
        let mut t: usize = 0;
        while t < 7
            invariant
                t <= 7,
                forall|u: int| 0 <= u < 7 ==> dig@[u] as int == digit(coord as int, 3, u as nat),
                forall|u: int| 0 <= u < 8 ==> dig@[u] < 3,
                total as int == digit_sum(coord as int, 3, t as nat),
                total <= 2 * t,
            decreases 7 - t,
        {
            total += dig[t] as usize;
            t += 1;
        }
        let fix = (3 - (total % 3)) % 3;
        proof {
            assert(fix as int == last_ori_fix(3, coord as int, 8));
        }
        // write the orientations home by home
        let ghost w = with_ori_coord(s, 3, coord as int);
        let mut h: usize = 0;
        while h < 8
            invariant
                h <= 8,
                old(self).wf(),
                s == old(self).corner_states(),
                w == with_ori_coord(s, 3, coord as int),
                self.edges == old(self).edges,
                forall|u: int| 0 <= u < 7 ==> dig@[u] as int == digit(coord as int, 3, u as nat),
                forall|u: int| 0 <= u < 8 ==> dig@[u] < 3,
                fix < 3,
                fix as int == last_ori_fix(3, coord as int, 8),
                forall|u: int| h <= u < 8 ==> self.corner_states()[u] == s[u],
                forall|u: int| 0 <= u < h ==> self.corner_states()[u] == w[u],
            decreases 8 - h,
        {
            let ghost prev = self.corner_states();
            let st = *self.corners.get(h);
            let ci = st.c.index();
            proof {
                assert(prev[h as int] == s[h as int]);
                assert(s[h as int].0 == st.c.idx());
                assert(perm_of(s)[h as int] == s[h as int].0);
                assert(0 <= perm_of(s)[h as int] < 8);
            }
            let o: u16 = if ci == 7 {
                fix as u16
            } else {
                dig[ci]
            };
            let n = CornerCubie { c: st.c, o: CornerOrientation::from_index(o as usize) };
            self.corners.set(h, n);
            proof {
                assert forall|u: int| 0 <= u < h + 1 implies self.corner_states()[u] == w[u] by {
                    if u < h {
                        assert(self.corner_states()[u] == prev[u]);
                    } else {
                        assert(self.corner_states()[h as int] == (n.c.idx(), n.o.idx()));
                        assert(w[h as int] == (
                            s[h as int].0,
                            if s[h as int].0 == 7 {
                                last_ori_fix(3, coord as int, 8)
                            } else {
                                digit(coord as int, 3, s[h as int].0 as nat)
                            },
                        ));
                    }
                }
                assert(forall|u: int| h + 1 <= u < 8 ==> self.corner_states()[u] == prev[u]);
            }
            h += 1;
        }
        proof {
            assert(self.corner_states() =~= w);
            lemma_pow2_values();
            lemma_with_ori_coord_props(s, 3, coord as int, 8);
            assert(self.edge_states() == old(self).edge_states());
            if old(self).possible() {
                assert(perm_of(self.corner_states()) == perm_of(old(self).corner_states()));
            }
        }
    }

    fn set_edge_ori_coord(&mut self, coord: u16)
        requires
            old(self).wf(),
            coord < 2048,
        ensures
            final(self).edge_states() == with_ori_coord(old(self).edge_states(), 2, coord as int),
            final(self).corner_states() == old(self).corner_states(),
            final(self).wf(),
            ori_coord(final(self).edge_states(), 2) == coord,
            seq_sum(oris_of(final(self).edge_states())) % 2 == 0,
            old(self).possible() ==> final(self).possible(),
    {
        let ghost s = old(self).edge_states();
        let mut dig: [u16; 12] = [0;12];
        let mut rem: u16 = coord;
        proof {
            reveal(vstd::arithmetic::power::pow);
            assert(pow(2, 0nat) == 1);
            vstd::arithmetic::div_mod::lemma_div_basics(coord as int);
        }
        let mut c: usize = 0;
        while c < 11
            invariant
                c <= 11,
                coord < 2048,
                rem as int == coord as int / pow(2, c as nat),
                rem <= coord,
                forall|t: int| 0 <= t < c ==> dig@[t] as int == digit(coord as int, 2, t as nat),
                forall|t: int| 0 <= t < 12 ==> dig@[t] < 2,
            decreases 11 - c,
        {
            let ghost dprev = dig@;
            dig[c] = rem % 2;
            proof {
                reveal(vstd::arithmetic::power::pow);
                assert(pow(2, 0nat) == 1);
                assert(digit(coord as int, 2, c as nat) == (coord as int / pow(2, c as nat)) % 2);
                lemma_pow_positive(2, c as nat);
                lemma_div_denominator(coord as int, pow(2, c as nat), 2);
                assert(pow(2, (c + 1) as nat) == 2 * pow(2, c as nat));
                vstd::arithmetic::mul::lemma_mul_is_commutative(pow(2, c as nat), 2);
                assert(forall|t: int| 0 <= t < c ==> dig@[t] == dprev[t]);
                vstd::arithmetic::div_mod::lemma_div_basics_5(coord as int, pow(2, (c + 1) as nat));
            }
            rem = rem / 2;
            c += 1;
        }
        let mut total: usize = 0;
        let mut t: usize = 0;
        while t < 11
            invariant
                t <= 11,
                forall|u: int| 0 <= u < 11 ==> dig@[u] as int == digit(coord as int, 2, u as nat),
                forall|u: int| 0 <= u < 12 ==> dig@[u] < 2,
                total as int == digit_sum(coord as int, 2, t as nat),
                total <= t,
            decreases 11 - t,
        {
            total += dig[t] as usize;
            t += 1;
        }
        let fix = (2 - (total % 2)) % 2;
        proof {
            assert(fix as int == last_ori_fix(2, coord as int, 12));
        }
        let ghost w = with_ori_coord(s, 2, coord as int);
        let mut h: usize = 0;
        while h < 12
            invariant
                h <= 12,
                old(self).wf(),
                s == old(self).edge_states(),
                w == with_ori_coord(s, 2, coord as int),
                self.corners == old(self).corners,
                forall|u: int| 0 <= u < 11 ==> dig@[u] as int == digit(coord as int, 2, u as nat),
                forall|u: int| 0 <= u < 12 ==> dig@[u] < 2,
                fix < 2,
                fix as int == last_ori_fix(2, coord as int, 12),
                forall|u: int| h <= u < 12 ==> self.edge_states()[u] == s[u],
                forall|u: int| 0 <= u < h ==> self.edge_states()[u] == w[u],
            decreases 12 - h,
        {
            let ghost prev = self.edge_states();
            let st = *self.edges.get(h);
            let ci = st.c.index();
            proof {
                assert(prev[h as int] == s[h as int]);
                assert(s[h as int].0 == st.c.idx());
                assert(perm_of(s)[h as int] == s[h as int].0);
                assert(0 <= perm_of(s)[h as int] < 12);
            }
            let o: u16 = if ci == 11 {
                fix as u16
            } else {
                dig[ci]
            };
            let n = EdgeCubie { c: st.c, o: EdgeOrientation::from_index(o as usize) };
            self.edges.set(h, n);
            proof {
                assert forall|u: int| 0 <= u < h + 1 implies self.edge_states()[u] == w[u] by {
                    if u < h {
                        assert(self.edge_states()[u] == prev[u]);
                    } else {
                        assert(self.edge_states()[h as int] == (n.c.idx(), n.o.idx()));
                        assert(w[h as int] == (
                            s[h as int].0,
                            if s[h as int].0 == 11 {
                                last_ori_fix(2, coord as int, 12)
                            } else {
                                digit(coord as int, 2, s[h as int].0 as nat)
                            },
                        ));
                    }
                }
                assert(forall|u: int| h + 1 <= u < 12 ==> self.edge_states()[u] == prev[u]);
            }
            h += 1;
        }
        proof {
            assert(self.edge_states() =~= w);
            lemma_pow2_values();
            lemma_with_ori_coord_props(s, 2, coord as int, 12);
            assert(self.corner_states() == old(self).corner_states());
            if old(self).possible() {
                assert(perm_of(self.edge_states()) == perm_of(old(self).edge_states()));
            }
        }
    }
}

/// The 12-bit mask of the cubicles currently holding the four
/// equatorial edge pieces (the pieces whose homes are cubicles 4 to 7).
pub open spec fn udslice_mask_rec(s: Seq<(int, int)>, j: nat) -> int
    decreases j,
{
    if j == 0 {
        0
    } else {
        udslice_mask_rec(s, (j - 1) as nat) + pow(2, s[4 + j - 1].0 as nat)
    }
}

/// The mask of the four equatorial edge positions.
pub open spec fn udslice_mask(s: Seq<(int, int)>) -> int {
    udslice_mask_rec(s, 4)
}

/// The mask only reads the four equatorial entries.
proof fn lemma_udslice_mask_rec_congruent(s1: Seq<(int, int)>, s2: Seq<(int, int)>, j: nat)
    requires
        forall|t: int| 0 <= t < j ==> #[trigger] s1[4 + t] == s2[4 + t],
    ensures
        udslice_mask_rec(s1, j) == udslice_mask_rec(s2, j),
    decreases j,
{
    if j > 0 {
        lemma_udslice_mask_rec_congruent(s1, s2, (j - 1) as nat);
    }
}

/// `2^c` as a machine integer.
fn pow2_u16(c: usize) -> (r: u16)
    requires
        c < 12,
    ensures
        r as int == pow(2, c as nat),
        r >= 1,
{
    proof {
        reveal(vstd::arithmetic::power::pow);
        lemma_pow2_values();
    }
    let mut r: u16 = 1;
    let mut i: usize = 0;
    while i < c
        invariant
            i <= c,
            c < 12,
            r as int == pow(2, i as nat),
            r >= 1,
            pow(2, 11) == 2048,
        decreases c - i,
    {
        proof {
            vstd::arithmetic::power::lemma_pow_increases(2, (i + 1) as nat, 11);
            assert(pow(2, (i + 1) as nat) == 2 * pow(2, i as nat)) by {
                reveal(vstd::arithmetic::power::pow);
            }
        }
        r = r * 2;
        i += 1;
    }
    r
}

/// The number of set bits of a machine integer.
fn popcount(x: u16) -> (r: u16)
    ensures
        r as int == pc(x as int),
{
    let mut v: u16 = x;
    let mut r: u16 = 0;
    proof {
        lemma_pc_le_self(x as int);
    }
    while v > 0
        invariant
            r as int + pc(v as int) == pc(x as int),
            pc(x as int) <= x as int,
            r <= x,
            v <= x,
        decreases v,
    {
        proof {
            assert(pc(v as int) == (v as int % 2) as nat + pc(v as int / 2));
            lemma_pc_le_self(v as int / 2);
        }
        r = r + v % 2;
        v = v / 2;
    }
    r
}

/// The rank of a 12-bit mask with 4 set bits: how many such masks are
/// numerically smaller. Ranks run over exactly `0..495`.
pub fn udslice_bitmask_to_coord(bitmask: u16) -> (r: u16)
    requires
        bitmask < 4096,
        pc(bitmask as int) == 4,
    ensures
        r as int == cnt_below(bitmask as int, 4),
        r < 495,
{
    let mut cnt: u16 = 0;
    let mut y: u16 = 0;
    while y < bitmask
        invariant
            y <= bitmask,
            cnt as int == cnt_below(y as int, 4),
            cnt <= y,
        decreases bitmask - y,
    {
        if popcount(y) == 4 {
            cnt = cnt + 1;
        }
        y += 1;
    }
    proof {
        lemma_total_slice_masks();
        lemma_cnt_strict(bitmask as int, 4096, 4);
    }
    cnt
}

/// The inverse of [`udslice_bitmask_to_coord`]: the unique 12-bit mask
/// with 4 set bits and the given rank.
pub fn udslice_coord_to_bitmask(coord: u16) -> (r: u16)
    requires
        coord < 495,
    ensures
        r < 4096,
        pc(r as int) == 4,
        cnt_below(r as int, 4) == coord,
{
    let mut cnt: u16 = 0;
    let mut y: u16 = 0;
    while y < 4096
        invariant
            y <= 4096,
            coord < 495,
            cnt as int == cnt_below(y as int, 4),
            cnt <= coord,
        decreases 4096 - y,
    {
        if popcount(y) == 4 {
            if cnt == coord {
                return y;
            }
            cnt = cnt + 1;
        }
        y += 1;
    }
    proof {
        lemma_total_slice_masks();
        assert(false);
    }
    0
}

/// Ranking is a bijection between the 12-bit masks with 4 set bits and
/// `0..495`: two such masks with the same rank are the same mask. With
/// the contracts of [`udslice_bitmask_to_coord`] and
/// [`udslice_coord_to_bitmask`] this says that converting a mask to its
/// rank and back returns the starting mask.
pub proof fn lemma_slice_rank_injective(m1: int, m2: int)
    requires
        0 <= m1 < 4096,
        0 <= m2 < 4096,
        pc(m1) == 4,
        pc(m2) == 4,
        cnt_below(m1, 4) == cnt_below(m2, 4),
    ensures
        m1 == m2,
{
    if m1 < m2 {
        lemma_cnt_strict(m1, m2, 4);
    }
    if m2 < m1 {
        lemma_cnt_strict(m2, m1, 4);
    }
}

/// The non-equatorial edge homes, in the order the UD-slice setter
/// fills them: the four top homes, then the four bottom ones.
pub open spec fn nonslice_home(t: int) -> int {
    if t < 4 {
        t
    } else {
        t + 4
    }
}

/// The non-equatorial homes already filled when `ni` of them are done.
pub open spec fn assigned_nonslice(h: int, ni: int) -> bool {
    (0 <= h < 4 && h < ni) || (8 <= h && h < ni + 4)
}

/// Cubicle `cp` is already held by one of the filled homes.
pub open spec fn slice_assigned_covers(es: Seq<(int, int)>, si: int, ni: int, cp: int) -> bool {
    exists|h: int|
        0 <= h < 12 && (4 <= h < 4 + si || assigned_nonslice(h, ni)) && (#[trigger] es[h]).0 == cp
}

impl CubieCube {
    /// The UD-slice coordinate: the rank (`0..495`) of the mask of the
    /// four cubicles currently holding the equatorial edge pieces.
    pub fn get_udslice_coord(&self) -> (r: u16)
        requires
            self.wf(),
        ensures
            r as int == cnt_below(udslice_mask(self.edge_states()), 4),
            pc(udslice_mask(self.edge_states())) == 4,
            0 <= udslice_mask(self.edge_states()) < 4096,
            r < 495,
    {
        let ghost s = self.edge_states();
        proof {
            lemma_pow2_values();
        }
        let mut mask: u16 = 0;
        let mut j: usize = 0;
        proof {
            assert(pc(0) == 0);
            assert forall|c: nat| #[trigger] digit(0, 2, c) == 0 by {
                lemma_pow_positive(2, c);
                vstd::arithmetic::div_mod::lemma_basic_div(0, pow(2, c));
            }
        }
        while j < 4
            invariant
                self.wf(),
                s == self.edge_states(),
                j <= 4,
                mask as int == udslice_mask_rec(s, j as nat),
                pc(mask as int) == j,
                mask as int <= j * 2048,
                forall|c: nat| #[trigger] digit(mask as int, 2, c) == 1 ==> exists|t: int|
                    4 <= t < 4 + j && (#[trigger] s[t]).0 == c,
            decreases 4 - j,
        {
            let st = *self.edges.get(4 + j);
            let ci = st.c.index();
            proof {
                lemma_pow2_values();
                assert(s[4 + j as int].0 == st.c.idx());
                assert(perm_of(s)[4 + j as int] == st.c.idx());
                assert(0 <= perm_of(s)[4 + j as int] < 12);
            }
            let p2 = pow2_u16(ci);
            proof {
                let cn = st.c.idx() as nat;
                assert(digit(mask as int, 2, cn) == 0) by {
                    if digit(mask as int, 2, cn) == 1 {
                        let t = choose|t: int| 4 <= t < 4 + j && (#[trigger] s[t]).0 == cn;
                        assert(perm_of(s)[t] == s[t].0);
                        assert(perm_of(s)[4 + j as int] == s[4 + j as int].0);
                        assert(false);
                    } else {
                        crate::radix::lemma_digit_bound(mask as int, 2, cn);
                    }
                }
                crate::radix::lemma_add_pow2(mask as int, cn);
                vstd::arithmetic::power::lemma_pow_increases(2, cn, 11);
            }
            let ghost oldmask = mask as int;
            mask = mask + p2;
            proof {
                assert forall|c: nat| #[trigger] digit(mask as int, 2, c) == 1 implies exists|
                    t: int,
                |
                    4 <= t < 4 + (j + 1) && (#[trigger] s[t]).0 == c by {
                    let cn = st.c.idx() as nat;
                    if c == cn {
                        assert(s[4 + j as int].0 == c);
                    } else {
                        assert(digit(oldmask, 2, c) == 1);
                        let t = choose|t: int| 4 <= t < 4 + j && (#[trigger] s[t]).0 == c;
                        assert(4 <= t < 4 + (j + 1) && s[t].0 == c);
                    }
                }
            }
            j += 1;
        }
        proof {
            lemma_pow2_values();
            assert((mask as int) < 4096) by {
                if mask >= 4096 {
                    assert(mask as int <= 8192);
                    if mask == 8192 {
                        assert(mask as int / 8192 == 1) by {
                            vstd::arithmetic::div_mod::lemma_fundamental_div_mod_converse(
                                mask as int,
                                8192,
                                1,
                                0,
                            );
                        }
                        assert(digit(mask as int, 2, 13) == 1);
                        let t = choose|t: int| 4 <= t < 8 && (#[trigger] s[t]).0 == 13nat;
                        assert(perm_of(s)[t] == s[t].0);
                        assert(0 <= perm_of(s)[t] < 12);
                        assert(false);
                    } else {
                        assert(mask as int / 4096 == 1) by {
                            vstd::arithmetic::div_mod::lemma_fundamental_div_mod_converse(
                                mask as int,
                                4096,
                                1,
                                mask as int - 4096,
                            );
                        }
                        assert(digit(mask as int, 2, 12) == 1);
                        let t = choose|t: int| 4 <= t < 8 && (#[trigger] s[t]).0 == 12nat;
                        assert(perm_of(s)[t] == s[t].0);
                        assert(0 <= perm_of(s)[t] < 12);
                        assert(false);
                    }
                }
            }
        }
        udslice_bitmask_to_coord(mask)
    }

    /// Rebuilds the edge permutation so that the UD-slice coordinate
    /// becomes `coord`: the set bits of the unranked mask receive the
    /// four equatorial pieces (in home order), the clear bits the other
    /// eight pieces. Orientations stay with their homes during the
    /// rebuild. If the corner and edge permutation parities then
    /// disagree, two non-equatorial edge slots are swapped, which
    /// repairs the parity without touching the coordinate or any
    /// orientation sum.
    #[verifier::rlimit(80)]
    pub fn set_udslice_coord(&mut self, coord: u16)
        requires
            old(self).wf(),
            coord < 495,
        ensures
            final(self).corner_states() == old(self).corner_states(),
            final(self).wf(),
            cnt_below(udslice_mask(final(self).edge_states()), 4) == coord,
            pc(udslice_mask(final(self).edge_states())) == 4,
            0 <= udslice_mask(final(self).edge_states()) < 4096,
            seq_sum(oris_of(final(self).edge_states())) == seq_sum(
                oris_of(old(self).edge_states()),
            ),
            final(self).corner_parity() == final(self).edge_parity(),
            old(self).possible() ==> final(self).possible(),
    {
        let mask = udslice_coord_to_bitmask(coord);
        let ghost s0 = old(self).edge_states();
        proof {
            lemma_pow2_values();
            crate::radix::lemma_pc_digit_sum(mask as int, 12);
            assert(digit_sum(mask as int, 2, 12) == 4);
            assert(digit_sum(mask as int, 2, 0) == 0);
            assert(digit_weighted_sum(mask as int, 2, 0) == 0);
        }
        let mut si: usize = 0;
        let mut ni: usize = 0;
        let mut c: usize = 0;
        while c < 12
            invariant
                c <= 12,
                self.corners == old(self).corners,
                s0 == old(self).edge_states(),
                old(self).wf(),
                mask < 4096,
                pc(mask as int) == 4,
                coord < 495,
                cnt_below(mask as int, 4) == coord,
                digit_sum(mask as int, 2, 12) == 4,
                si as int == digit_sum(mask as int, 2, c as nat),
                ni as int == c - si,
                si <= 4,
                ni <= 8,
                udslice_mask_rec(self.edge_states(), si as nat) == digit_weighted_sum(
                    mask as int,
                    2,
                    c as nat,
                ),
                forall|h: int| 0 <= h < 12 ==> (#[trigger] self.edge_states()[h]).1 == s0[h].1,
                forall|t: int| 0 <= t < si ==> 0 <= (#[trigger] self.edge_states()[4 + t]).0 < c,
                forall|h: int|
                    assigned_nonslice(h, ni as int) ==> 0 <= (#[trigger] self.edge_states()[h]).0
                        < c,
                forall|cp: int| 0 <= cp < c ==> #[trigger] slice_assigned_covers(
                    self.edge_states(),
                    si as int,
                    ni as int,
                    cp,
                ),
            decreases 12 - c,
        {
            let ghost prev = self.edge_states();
            proof {
                lemma_pow2_values();
            }
            let p2 = pow2_u16(c);
            let bit = (mask / p2) % 2;
            proof {
                assert(bit as int == digit(mask as int, 2, c as nat));
                crate::radix::lemma_digit_bound(mask as int, 2, c as nat);
                assert(digit_sum(mask as int, 2, (c + 1) as nat) == digit_sum(
                    mask as int,
                    2,
                    c as nat,
                ) + bit as int);
                crate::radix::lemma_digit_sum_range(mask as int, (c + 1) as nat, 12);
                assert(digit_weighted_sum(mask as int, 2, (c + 1) as nat) == digit_weighted_sum(
                    mask as int,
                    2,
                    c as nat,
                ) + pow(2, c as nat) * bit as int);
            }
            let home: usize = if bit == 1 {
                4 + si
            } else {
                if ni < 4 {
                    ni
                } else {
                    ni + 4
                }
            };
            let st = *self.edges.get(home);
            let n = EdgeCubie { c: crate::cubie::EdgeCubicle::from_index(c), o: st.o };
            self.edges.set(home, n);
            proof {
                assert(self.edge_states()[home as int] == (n.c.idx(), n.o.idx()));
                assert(n.c.idx() == c as int);
                assert(prev[home as int] == (st.c.idx(), st.o.idx()));
                assert(prev[home as int].1 == s0[home as int].1);
                assert(self.edge_states()[home as int] == (c as int, s0[home as int].1));
                assert(forall|h: int|
                    0 <= h < 12 && h != home ==> self.edge_states()[h] == prev[h]);
                assert forall|h: int|
                    0 <= h < 12 implies (#[trigger] self.edge_states()[h]).1 == s0[h].1 by {
                    if h == home {
                    } else {
                        assert(self.edge_states()[h] == prev[h]);
                    }
                }
                // the freshly written home was not assigned before
                if bit == 1 {
                    assert(udslice_mask_rec(self.edge_states(), (si + 1) as nat)
                        == udslice_mask_rec(self.edge_states(), si as nat) + pow(2, c as nat));
                    lemma_udslice_mask_rec_congruent(self.edge_states(), prev, si as nat);
                } else {
                    lemma_udslice_mask_rec_congruent(self.edge_states(), prev, si as nat);
                }
                let sia = si as int + (if bit == 1 {
                    1int
                } else {
                    0int
                });
                let nia = ni as int + (if bit == 1 {
                    0int
                } else {
                    1int
                });
                assert forall|t: int| 0 <= t < sia implies 0 <= (#[trigger] self.edge_states()[4
                    + t]).0 < c + 1 by {
                    if bit == 1 && t == si {
                        assert(4 + t == home as int);
                        assert(self.edge_states()[4 + t].0 == c as int);
                    } else {
                        assert(4 + t != home as int);
                        assert(self.edge_states()[4 + t] == prev[4 + t]);
                        assert(0 <= prev[4 + t].0 < c);
                    }
                }
                assert forall|h: int|
                    assigned_nonslice(h, nia) implies 0 <= (#[trigger] self.edge_states()[h]).0 < c
                    + 1 by {
                    if bit == 0 && h == home as int {
                        assert(self.edge_states()[h].0 == c as int);
                    } else {
                        assert(h != home as int);
                        assert(assigned_nonslice(h, ni as int));
                        assert(self.edge_states()[h] == prev[h]);
                        assert(0 <= prev[h].0 < c);
                    }
                }
                assert forall|cp: int| 0 <= cp < c + 1 implies #[trigger] slice_assigned_covers(
                    self.edge_states(),
                    sia,
                    nia,
                    cp,
                ) by {
                    if cp < c {
                        assert(slice_assigned_covers(prev, si as int, ni as int, cp));
                        let h0 = choose|h: int|
                            0 <= h < 12 && (4 <= h < 4 + si || assigned_nonslice(h, ni as int))
                                && (#[trigger] prev[h]).0 == cp;
                        assert(h0 != home);
                        assert(self.edge_states()[h0] == prev[h0]);
                        assert(4 <= h0 < 4 + sia || assigned_nonslice(h0, nia));
                        assert(self.edge_states()[h0].0 == cp);
                    } else {
                        assert(self.edge_states()[home as int].0 == cp);
                        assert(4 <= home < 4 + sia || assigned_nonslice(home as int, nia));
                    }
                }
            }
            if bit == 1 {
                si += 1;
            } else {
                ni += 1;
            }
            c += 1;
        }
        proof {
            let es = self.edge_states();
            assert(si == 4);
            assert(ni == 8);
            assert forall|cp: int| 0 <= cp < 12 implies #[trigger] perm_of(es).contains(cp) by {
                assert(slice_assigned_covers(es, si as int, ni as int, cp));
                let h = choose|h: int|
                    0 <= h < 12 && (4 <= h < 4 + si || assigned_nonslice(h, ni as int)) && (
                    #[trigger] es[h]).0 == cp;
                assert(perm_of(es)[h] == cp);
            }
            assert forall|h: int| 0 <= h < 12 implies 0 <= #[trigger] perm_of(es)[h] < 12 by {
                assert(perm_of(es)[h] == es[h].0);
                if 4 <= h < 8 {
                    assert(0 <= es[h].0 < 12);
                } else if h < 4 {
                    assert(assigned_nonslice(h, 8));
                } else {
                    assert(assigned_nonslice(h, 8));
                }
            }
            lemma_cover_is_permutation(perm_of(es));
            assert forall|i: int| 0 <= i < 12 implies 0 <= (#[trigger] es[i]).1 < 2 by {
                assert(es[i].1 == s0[i].1);
                assert(0 <= s0[i].1 < 2);
            }
            assert(wf_states(es, 2));
            // the mask of the result is the unranked mask
            lemma_digit_reconstruction(mask as int, 2, 12);
            lemma_small_mod(mask as nat, 4096);
            assert(udslice_mask(es) == mask as int);
            // orientation sum preserved
            assert(oris_of(es) =~= oris_of(s0));
        }
        // repair the permutation parity if the two banks now disagree
        let c2 = corner_2cycles(&self.corners);
        let e2 = edge_2cycles(&self.edges);
        proof {
            assert(corner_pairs_idx(c2@).len() == c2@.len());
            assert(edge_pairs_idx(e2@).len() == e2@.len());
            assert(c2@.len() == greedy_count(perm_of(self.corner_states())));
            assert(e2@.len() == greedy_count(perm_of(self.edge_states())));
        }
        if c2.len() % 2 != e2.len() % 2 {
            let ghost pre = self.edge_states();
            self.edges.swap(0, 1);
            proof {
                assert(self.edge_states() =~= seq_swap(pre, 0, 1));
                crate::cubie_cube::lemma_edge_slot_swap(pre, self.edge_states());
                assert forall|t: int| 0 <= t < 4 implies #[trigger] pre[4 + t]
                    == self.edge_states()[4 + t] by {
                    assert(self.edge_states()[4 + t] == pre[4 + t]);
                }
                lemma_udslice_mask_rec_congruent(pre, self.edge_states(), 4);
            }
        }
    }
}

} // verus!
