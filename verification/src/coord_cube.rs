//! A cube reduced to its three search coordinates, with per-move
//! transition tables.
//!
//! For coordinate-space search the three coordinates of
//! [`crate::coords`] are updated per move by a table lookup instead of a
//! full cube round-trip: for each of the 18 moves and each coordinate
//! value, the table holds the coordinate after the move. The tables are
//! built once, by materializing every coordinate value into a full
//! [`CubieCube`] via the setters, applying the move, and reading the
//! coordinate back out; their contracts pin every entry to the
//! mathematical transition function.

use vstd::prelude::*;
use vstd::arithmetic::power::pow;
use crate::algebra::{compose_states, identity_states, perm_of, wf_states};
use crate::coords::{
    lemma_with_ori_coord_props, ori_coord, udslice_mask, with_ori_coord, PieceKind,
};
use crate::cubie_cube::CubieCube;
use crate::moves::{move_corner_states, move_edge_states};
use crate::radix::{cnt_below, digit, lemma_add_pow2, lemma_digit_bound, lemma_pow2_values, pc};
use crate::Move;

verus! {

/// The mask with 4 set bits whose rank is `coord`.
pub open spec fn mask_of_coord(coord: int) -> int {
    choose|mk: int| 0 <= mk < 4096 && pc(mk) == 4 && cnt_below(mk, 4) == coord
}

/// Some mask below `b` with 4 set bits has rank `k`, for every rank
/// below the count of such masks under `b`.
proof fn lemma_exists_mask(b: int, k: int)
    requires
        0 <= k,
        0 <= b,
        k < cnt_below(b, 4),
    ensures
        exists|y: int| 0 <= y < b && #[trigger] pc(y) == 4 && cnt_below(y, 4) == k,
    decreases b,
{
    if cnt_below(b - 1, 4) > k {
        lemma_exists_mask(b - 1, k);
        let y = choose|y: int| 0 <= y < b - 1 && #[trigger] pc(y) == 4 && cnt_below(y, 4) == k;
        assert(0 <= y < b && pc(y) == 4 && cnt_below(y, 4) == k);
    } else {
        assert(pc(b - 1) == 4 && cnt_below(b - 1, 4) == k);
    }
}

/// [`mask_of_coord`] is a genuine mask with rank `coord`.
pub proof fn lemma_mask_of_coord(coord: int)
    requires
        0 <= coord < 495,
    ensures
        0 <= mask_of_coord(coord) < 4096,
        pc(mask_of_coord(coord)) == 4,
        cnt_below(mask_of_coord(coord), 4) == coord,
{
    crate::radix::lemma_total_slice_masks();
    lemma_exists_mask(4096, coord);
    let y = choose|y: int| 0 <= y < 4096 && #[trigger] pc(y) == 4 && cnt_below(y, 4) == coord;
    assert(0 <= y < 4096 && pc(y) == 4 && cnt_below(y, 4) == coord);
    assert(exists|mk: int| 0 <= mk < 4096 && pc(mk) == 4 && cnt_below(mk, 4) == coord);
}

/// The image of the set bits of `mask` under the move `g`: where the
/// pieces at the masked positions end up.
pub open spec fn moved_mask_rec(mask: int, g: Seq<(int, int)>, c: nat) -> int
    decreases c,
{
    if c == 0 {
        0
    } else {
        moved_mask_rec(mask, g, (c - 1) as nat) + digit(mask, 2, (c - 1) as nat) * pow(
            2,
            g[c - 1].0 as nat,
        )
    }
}

/// The mask of the positions that the masked positions move to under
/// `g`.
pub open spec fn moved_mask(mask: int, g: Seq<(int, int)>) -> int {
    moved_mask_rec(mask, g, 12)
}

/// The digits of the partially built moved mask: bit `cp` is set exactly
/// when some already-processed set bit of `mask` moves to `cp`.
proof fn lemma_moved_mask_rec(mask: int, g: Seq<(int, int)>, c: nat)
    requires
        0 <= mask < 4096,
        wf_states(g, 2),
        g.len() == 12,
        c <= 12,
    ensures
        0 <= moved_mask_rec(mask, g, c) <= c * 2048,
        forall|cp: nat| #[trigger] digit(moved_mask_rec(mask, g, c), 2, cp) == 1 <==> (exists|
            t: int,
        |
            0 <= t < c && digit(mask, 2, t as nat) == 1 && (#[trigger] g[t]).0 == cp),
    decreases c,
{
    lemma_pow2_values();
    if c == 0 {
        assert forall|cp: nat| #[trigger] digit(0, 2, cp) == 0 by {
            vstd::arithmetic::power::lemma_pow_positive(2, cp);
            vstd::arithmetic::div_mod::lemma_basic_div(0, pow(2, cp));
        }
    } else {
        let cm = (c - 1) as nat;
        lemma_moved_mask_rec(mask, g, cm);
        let prev = moved_mask_rec(mask, g, cm);
        lemma_digit_bound(mask, 2, cm);
        let b = digit(mask, 2, cm);
        assert(perm_of(g)[c - 1] == g[c - 1].0);
        assert(0 <= perm_of(g)[c - 1] < 12);
        let e = g[c - 1].0 as nat;
        vstd::arithmetic::power::lemma_pow_increases(2, e, 11);
        if b == 1 {
            assert(moved_mask_rec(mask, g, c) == prev + pow(2, e));
            assert(digit(prev, 2, e) == 0) by {
                if digit(prev, 2, e) == 1 {
                    let t = choose|t: int|
                        0 <= t < cm && digit(mask, 2, t as nat) == 1 && (#[trigger] g[t]).0 == e;
                    assert(perm_of(g)[t] == g[t].0);
                    assert(perm_of(g)[c - 1] == g[c - 1].0);
                    assert(false);
                } else {
                    lemma_digit_bound(prev, 2, e);
                }
            }
            lemma_add_pow2(prev, e);
            assert forall|cp: nat| #[trigger] digit(moved_mask_rec(mask, g, c), 2, cp)
                == 1 <==> (exists|t: int|
                0 <= t < c && digit(mask, 2, t as nat) == 1 && (#[trigger] g[t]).0 == cp) by {
                if digit(moved_mask_rec(mask, g, c), 2, cp) == 1 {
                    if cp == e {
                        assert(g[c - 1].0 == cp && digit(mask, 2, cm) == 1);
                    } else {
                        assert(digit(prev, 2, cp) == 1);
                        let t = choose|t: int|
                            0 <= t < cm && digit(mask, 2, t as nat) == 1 && (#[trigger] g[t]).0
                                == cp;
                        assert(0 <= t < c && digit(mask, 2, t as nat) == 1 && g[t].0 == cp);
                    }
                }
                if exists|t: int|
                    0 <= t < c && digit(mask, 2, t as nat) == 1 && (#[trigger] g[t]).0 == cp {
                    let t = choose|t: int|
                        0 <= t < c && digit(mask, 2, t as nat) == 1 && (#[trigger] g[t]).0 == cp;
                    if t == c - 1 {
                        assert(cp == e);
                        assert(digit(moved_mask_rec(mask, g, c), 2, cp) == 1);
                    } else {
                        assert(digit(prev, 2, cp) == 1);
                        if cp == e {
                            assert(false);
                        }
                        assert(digit(moved_mask_rec(mask, g, c), 2, cp) == 1);
                    }
                }
            }
        } else {
            assert(b * pow(2, e) == 0) by {
                vstd::arithmetic::mul::lemma_mul_basics(pow(2, e));
            }
            assert(moved_mask_rec(mask, g, c) == prev);
            assert forall|cp: nat| #[trigger] digit(moved_mask_rec(mask, g, c), 2, cp)
                == 1 <==> (exists|t: int|
                0 <= t < c && digit(mask, 2, t as nat) == 1 && (#[trigger] g[t]).0 == cp) by {
                if digit(prev, 2, cp) == 1 {
                    let t = choose|t: int|
                        0 <= t < cm && digit(mask, 2, t as nat) == 1 && (#[trigger] g[t]).0 == cp;
                    assert(0 <= t < c && digit(mask, 2, t as nat) == 1 && g[t].0 == cp);
                }
                if exists|t: int|
                    0 <= t < c && digit(mask, 2, t as nat) == 1 && (#[trigger] g[t]).0 == cp {
                    let t = choose|t: int|
                        0 <= t < c && digit(mask, 2, t as nat) == 1 && (#[trigger] g[t]).0 == cp;
                    assert(t != c - 1);
                    assert(digit(prev, 2, cp) == 1);
                }
            }
        }
    }
}

/// Two nonnegative numbers below `2^12` with the same bits are equal.
proof fn lemma_digit_ext(x: int, y: int)
    requires
        0 <= x < 4096,
        0 <= y < 4096,
        forall|cp: nat| cp < 12 ==> #[trigger] digit(x, 2, cp) == digit(y, 2, cp),
    ensures
        x == y,
{
    lemma_pow2_values();
    crate::radix::lemma_digit_reconstruction(x, 2, 12);
    crate::radix::lemma_digit_reconstruction(y, 2, 12);
    vstd::arithmetic::div_mod::lemma_small_mod(x as nat, 4096);
    vstd::arithmetic::div_mod::lemma_small_mod(y as nat, 4096);
    lemma_dws_congruent(x, y, 12);
}

/// Weighted digit sums agree when the digits agree.
proof fn lemma_dws_congruent(x: int, y: int, k: nat)
    requires
        forall|cp: nat| cp < k ==> #[trigger] digit(x, 2, cp) == digit(y, 2, cp),
    ensures
        crate::radix::digit_weighted_sum(x, 2, k) == crate::radix::digit_weighted_sum(y, 2, k),
    decreases k,
{
    if k > 0 {
        lemma_dws_congruent(x, y, (k - 1) as nat);
    }
}

/// The udslice mask has a set bit exactly at the positions of the four
/// equatorial pieces.
proof fn lemma_udslice_mask_digits(s: Seq<(int, int)>)
    requires
        wf_states(s, 2),
        s.len() == 12,
    ensures
        0 <= udslice_mask(s) < 4096,
        pc(udslice_mask(s)) == 4,
        forall|cp: nat| #[trigger] digit(udslice_mask(s), 2, cp) == 1 <==> (exists|t: int|
            4 <= t < 8 && (#[trigger] s[t]).0 == cp),
{
    lemma_udslice_rec_digits(s, 4);
    let mk = udslice_mask(s);
    assert((mk as int) < 4096) by {
        if mk >= 4096 {
            assert(mk <= 8192);
            if mk == 8192 {
                assert(mk / 8192 == 1) by {
                    vstd::arithmetic::div_mod::lemma_fundamental_div_mod_converse(mk, 8192, 1, 0);
                }
                lemma_pow2_values();
                assert(digit(mk, 2, 13) == 1);
                let t = choose|t: int| 4 <= t < 8 && (#[trigger] s[t]).0 == 13nat;
                assert(perm_of(s)[t] == s[t].0);
                assert(0 <= perm_of(s)[t] < 12);
                assert(false);
            } else {
                assert(mk / 4096 == 1) by {
                    vstd::arithmetic::div_mod::lemma_fundamental_div_mod_converse(
                        mk,
                        4096,
                        1,
                        mk - 4096,
                    );
                }
                lemma_pow2_values();
                assert(digit(mk, 2, 12) == 1);
                let t = choose|t: int| 4 <= t < 8 && (#[trigger] s[t]).0 == 12nat;
                assert(perm_of(s)[t] == s[t].0);
                assert(0 <= perm_of(s)[t] < 12);
                assert(false);
            }
        }
    }
}

/// Digits of the partially built udslice mask.
proof fn lemma_udslice_rec_digits(s: Seq<(int, int)>, j: nat)
    requires
        wf_states(s, 2),
        s.len() == 12,
        j <= 4,
    ensures
        0 <= crate::coords::udslice_mask_rec(s, j) <= j * 2048,
        pc(crate::coords::udslice_mask_rec(s, j)) == j,
        forall|cp: nat| #[trigger] digit(crate::coords::udslice_mask_rec(s, j), 2, cp)
            == 1 <==> (exists|t: int| 4 <= t < 4 + j && (#[trigger] s[t]).0 == cp),
    decreases j,
{
    lemma_pow2_values();
    if j == 0 {
        assert forall|cp: nat| #[trigger] digit(0, 2, cp) == 0 by {
            vstd::arithmetic::power::lemma_pow_positive(2, cp);
            vstd::arithmetic::div_mod::lemma_basic_div(0, pow(2, cp));
        }
    } else {
        let jm = (j - 1) as nat;
        lemma_udslice_rec_digits(s, jm);
        let prev = crate::coords::udslice_mask_rec(s, jm);
        assert(perm_of(s)[4 + jm as int] == s[4 + jm as int].0);
        assert(0 <= perm_of(s)[4 + jm as int] < 12);
        let e = s[4 + jm as int].0 as nat;
        vstd::arithmetic::power::lemma_pow_increases(2, e, 11);
        assert(digit(prev, 2, e) == 0) by {
            if digit(prev, 2, e) == 1 {
                let t = choose|t: int| 4 <= t < 4 + jm && (#[trigger] s[t]).0 == e;
                assert(perm_of(s)[t] == s[t].0);
                assert(false);
            } else {
                lemma_digit_bound(prev, 2, e);
            }
        }
        lemma_add_pow2(prev, e);
        assert(crate::coords::udslice_mask_rec(s, j) == prev + pow(2, e));
        assert forall|cp: nat| #[trigger] digit(crate::coords::udslice_mask_rec(s, j), 2, cp)
            == 1 <==> (exists|t: int| 4 <= t < 4 + j && (#[trigger] s[t]).0 == cp) by {
            if digit(crate::coords::udslice_mask_rec(s, j), 2, cp) == 1 {
                if cp == e {
                    assert(s[4 + jm as int].0 == cp);
                } else {
                    assert(digit(prev, 2, cp) == 1);
                    let t = choose|t: int| 4 <= t < 4 + jm && (#[trigger] s[t]).0 == cp;
                    assert(4 <= t < 4 + j && s[t].0 == cp);
                }
            }
            if exists|t: int| 4 <= t < 4 + j && (#[trigger] s[t]).0 == cp {
                let t = choose|t: int| 4 <= t < 4 + j && (#[trigger] s[t]).0 == cp;
                if t == 4 + jm {
                    assert(cp == e);
                    assert(digit(crate::coords::udslice_mask_rec(s, j), 2, cp) == 1);
                } else {
                    assert(digit(prev, 2, cp) == 1);
                    if cp == e {
                        assert(perm_of(s)[t] == s[t].0);
                        assert(perm_of(s)[4 + jm as int] == s[4 + jm as int].0);
                        assert(false);
                    }
                    assert(digit(crate::coords::udslice_mask_rec(s, j), 2, cp) == 1);
                }
            }
        }
    }
}

/// Moving a cube moves its udslice mask: the mask of the composed state
/// is the image of the old mask under the move.
pub proof fn lemma_udslice_mask_moved(s: Seq<(int, int)>, g: Seq<(int, int)>)
    requires
        wf_states(s, 2),
        wf_states(g, 2),
        s.len() == 12,
        g.len() == 12,
    ensures
        udslice_mask(compose_states(s, g, 2)) == moved_mask(udslice_mask(s), g),
{
    let comp = compose_states(s, g, 2);
    crate::algebra::lemma_compose_wf(s, g, 2);
    lemma_udslice_mask_digits(s);
    lemma_udslice_mask_digits(comp);
    lemma_moved_mask_rec(udslice_mask(s), g, 12);
    let lhs = udslice_mask(comp);
    let rhs = moved_mask(udslice_mask(s), g);
    assert((rhs as int) < 4096) by {
        if rhs >= 4096 {
            assert(rhs <= 24576);
            lemma_pow2_values();
            assert forall|cp: nat| 12 <= cp < 15 implies #[trigger] digit(rhs, 2, cp) == 0 by {
                if digit(rhs, 2, cp) == 1 {
                    let t = choose|t: int|
                        0 <= t < 12 && digit(udslice_mask(s), 2, t as nat) == 1 && (
                        #[trigger] g[t]).0 == cp;
                    assert(perm_of(g)[t] == g[t].0);
                    assert(0 <= perm_of(g)[t] < 12);
                    assert(false);
                } else {
                }
            }
            assert(digit(rhs, 2, 12) == 0 && digit(rhs, 2, 13) == 0 && digit(rhs, 2, 14) == 0);
            assert(rhs / 4096 >= 1 && rhs / 4096 <= 6) by {
                vstd::arithmetic::div_mod::lemma_div_is_ordered(4096, rhs, 4096);
                vstd::arithmetic::div_mod::lemma_basic_div(rhs - 4096 * (rhs / 4096), 4096);
                vstd::arithmetic::div_mod::lemma_fundamental_div_mod(rhs, 4096);
                vstd::arithmetic::div_mod::lemma_mod_bound(rhs, 4096);
            }
            let q = rhs / 4096;
            assert(digit(rhs, 2, 12) == q % 2);
            assert(digit(rhs, 2, 13) == (q / 2) % 2) by {
                lemma_pow2_values();
                vstd::arithmetic::div_mod::lemma_div_denominator(rhs, 4096, 2);
            }
            assert(digit(rhs, 2, 14) == (q / 4) % 2) by {
                lemma_pow2_values();
                vstd::arithmetic::div_mod::lemma_div_denominator(rhs, 4096, 4);
            }
            assert(q % 2 == 0 && (q / 2) % 2 == 0 && (q / 4) % 2 == 0);
            assert(false);
        }
    }
    assert forall|cp: nat| cp < 12 implies #[trigger] digit(lhs, 2, cp) == digit(rhs, 2, cp) by {
        lemma_digit_bound(lhs, 2, cp);
        lemma_digit_bound(rhs, 2, cp);
        if digit(lhs, 2, cp) == 1 {
            let t = choose|t: int| 4 <= t < 8 && (#[trigger] comp[t]).0 == cp;
            assert(comp[t].0 == g[s[t].0].0);
            assert(perm_of(s)[t] == s[t].0);
            assert(0 <= s[t].0 < 12);
            assert(digit(udslice_mask(s), 2, s[t].0 as nat) == 1) by {
                assert(s[t].0 == s[t].0);
            }
            assert(digit(rhs, 2, cp) == 1) by {
                assert(0 <= s[t].0 < 12 && digit(udslice_mask(s), 2, s[t].0 as nat) == 1 && g[s[t].0].0
                    == cp);
            }
        }
        if digit(rhs, 2, cp) == 1 {
            let t = choose|t: int|
                0 <= t < 12 && digit(udslice_mask(s), 2, t as nat) == 1 && (#[trigger] g[t]).0
                    == cp;
            let u = choose|u: int| 4 <= u < 8 && (#[trigger] s[u]).0 == t;
            assert(comp[u].0 == g[s[u].0].0);
            assert(digit(lhs, 2, cp) == 1) by {
                assert(4 <= u < 8 && comp[u].0 == cp);
            }
        }
    }
    lemma_digit_ext(lhs, rhs, );
}

/// The corner-orientation coordinate after move `m`, starting from the
/// coordinate `c`.
pub open spec fn corner_ori_step(m: Move, c: int) -> int {
    ori_coord(compose_states(with_ori_coord(identity_states(8), 3, c), move_corner_states(m), 3), 3)
}

/// The edge-orientation coordinate after move `m`.
pub open spec fn edge_ori_step(m: Move, c: int) -> int {
    ori_coord(compose_states(with_ori_coord(identity_states(12), 2, c), move_edge_states(m), 2), 2)
}

/// The udslice coordinate after move `m`: the rank of the image of the
/// unranked mask under the move.
pub open spec fn udslice_step(m: Move, c: int) -> int {
    cnt_below(moved_mask(mask_of_coord(c), move_edge_states(m)), 4) as int
}

/// The per-move transition tables of the three coordinates, built once
/// and then immutable.
pub struct MoveTables {
    pub corner_ori: Vec<Vec<u16>>,
    pub edge_ori: Vec<Vec<u16>>,
    pub udslice: Vec<Vec<u16>>,
}

/// The generator bank of every move is well formed.
pub proof fn lemma_move_states_wf(m: Move)
    ensures
        wf_states(move_corner_states(m), 3),
        wf_states(move_edge_states(m), 2),
        move_corner_states(m).len() == 8,
        move_edge_states(m).len() == 12,
{
    assert(wf_states(crate::moves::lmove_corner_states(), 3));
    assert(wf_states(crate::moves::rmove_corner_states(), 3));
    assert(wf_states(crate::moves::umove_corner_states(), 3));
    assert(wf_states(crate::moves::dmove_corner_states(), 3));
    assert(wf_states(crate::moves::fmove_corner_states(), 3));
    assert(wf_states(crate::moves::bmove_corner_states(), 3));
    assert(wf_states(crate::moves::lmove_edge_states(), 2));
    assert(wf_states(crate::moves::rmove_edge_states(), 2));
    assert(wf_states(crate::moves::umove_edge_states(), 2));
    assert(wf_states(crate::moves::dmove_edge_states(), 2));
    assert(wf_states(crate::moves::fmove_edge_states(), 2));
    assert(wf_states(crate::moves::bmove_edge_states(), 2));
    match m {
        Move::L | Move::R | Move::D | Move::U | Move::F | Move::B => {},
        Move::L2 => {
            crate::algebra::lemma_compose_wf(
                crate::moves::lmove_corner_states(),
                crate::moves::lmove_corner_states(),
                3,
            );
            crate::algebra::lemma_compose_wf(
                crate::moves::lmove_edge_states(),
                crate::moves::lmove_edge_states(),
                2,
            );
        },
        Move::Li => {
            crate::algebra::lemma_compose_wf(
                crate::moves::lmove_corner_states(),
                crate::moves::lmove_corner_states(),
                3,
            );
            crate::algebra::lemma_compose_wf(
                compose_states(
                    crate::moves::lmove_corner_states(),
                    crate::moves::lmove_corner_states(),
                    3,
                ),
                crate::moves::lmove_corner_states(),
                3,
            );
            crate::algebra::lemma_compose_wf(
                crate::moves::lmove_edge_states(),
                crate::moves::lmove_edge_states(),
                2,
            );
            crate::algebra::lemma_compose_wf(
                compose_states(
                    crate::moves::lmove_edge_states(),
                    crate::moves::lmove_edge_states(),
                    2,
                ),
                crate::moves::lmove_edge_states(),
                2,
            );
        },
        Move::R2 => {
            crate::algebra::lemma_compose_wf(
                crate::moves::rmove_corner_states(),
                crate::moves::rmove_corner_states(),
                3,
            );
            crate::algebra::lemma_compose_wf(
                crate::moves::rmove_edge_states(),
                crate::moves::rmove_edge_states(),
                2,
            );
        },
        Move::Ri => {
            crate::algebra::lemma_compose_wf(
                crate::moves::rmove_corner_states(),
                crate::moves::rmove_corner_states(),
                3,
            );
            crate::algebra::lemma_compose_wf(
                compose_states(
                    crate::moves::rmove_corner_states(),
                    crate::moves::rmove_corner_states(),
                    3,
                ),
                crate::moves::rmove_corner_states(),
                3,
            );
            crate::algebra::lemma_compose_wf(
                crate::moves::rmove_edge_states(),
                crate::moves::rmove_edge_states(),
                2,
            );
            crate::algebra::lemma_compose_wf(
                compose_states(
                    crate::moves::rmove_edge_states(),
                    crate::moves::rmove_edge_states(),
                    2,
                ),
                crate::moves::rmove_edge_states(),
                2,
            );
        },
        Move::D2 => {
            crate::algebra::lemma_compose_wf(
                crate::moves::dmove_corner_states(),
                crate::moves::dmove_corner_states(),
                3,
            );
            crate::algebra::lemma_compose_wf(
                crate::moves::dmove_edge_states(),
                crate::moves::dmove_edge_states(),
                2,
            );
        },
        Move::Di => {
            crate::algebra::lemma_compose_wf(
                crate::moves::dmove_corner_states(),
                crate::moves::dmove_corner_states(),
                3,
            );
            crate::algebra::lemma_compose_wf(
                compose_states(
                    crate::moves::dmove_corner_states(),
                    crate::moves::dmove_corner_states(),
                    3,
                ),
                crate::moves::dmove_corner_states(),
                3,
            );
            crate::algebra::lemma_compose_wf(
                crate::moves::dmove_edge_states(),
                crate::moves::dmove_edge_states(),
                2,
            );
            crate::algebra::lemma_compose_wf(
                compose_states(
                    crate::moves::dmove_edge_states(),
                    crate::moves::dmove_edge_states(),
                    2,
                ),
                crate::moves::dmove_edge_states(),
                2,
            );
        },
        Move::U2 => {
            crate::algebra::lemma_compose_wf(
                crate::moves::umove_corner_states(),
                crate::moves::umove_corner_states(),
                3,
            );
            crate::algebra::lemma_compose_wf(
                crate::moves::umove_edge_states(),
                crate::moves::umove_edge_states(),
                2,
            );
        },
        Move::Ui => {
            crate::algebra::lemma_compose_wf(
                crate::moves::umove_corner_states(),
                crate::moves::umove_corner_states(),
                3,
            );
            crate::algebra::lemma_compose_wf(
                compose_states(
                    crate::moves::umove_corner_states(),
                    crate::moves::umove_corner_states(),
                    3,
                ),
                crate::moves::umove_corner_states(),
                3,
            );
            crate::algebra::lemma_compose_wf(
                crate::moves::umove_edge_states(),
                crate::moves::umove_edge_states(),
                2,
            );
            crate::algebra::lemma_compose_wf(
                compose_states(
                    crate::moves::umove_edge_states(),
                    crate::moves::umove_edge_states(),
                    2,
                ),
                crate::moves::umove_edge_states(),
                2,
            );
        },
        Move::F2 => {
            crate::algebra::lemma_compose_wf(
                crate::moves::fmove_corner_states(),
                crate::moves::fmove_corner_states(),
                3,
            );
            crate::algebra::lemma_compose_wf(
                crate::moves::fmove_edge_states(),
                crate::moves::fmove_edge_states(),
                2,
            );
        },
        Move::Fi => {
            crate::algebra::lemma_compose_wf(
                crate::moves::fmove_corner_states(),
                crate::moves::fmove_corner_states(),
                3,
            );
            crate::algebra::lemma_compose_wf(
                compose_states(
                    crate::moves::fmove_corner_states(),
                    crate::moves::fmove_corner_states(),
                    3,
                ),
                crate::moves::fmove_corner_states(),
                3,
            );
            crate::algebra::lemma_compose_wf(
                crate::moves::fmove_edge_states(),
                crate::moves::fmove_edge_states(),
                2,
            );
            crate::algebra::lemma_compose_wf(
                compose_states(
                    crate::moves::fmove_edge_states(),
                    crate::moves::fmove_edge_states(),
                    2,
                ),
                crate::moves::fmove_edge_states(),
                2,
            );
        },
        Move::B2 => {
            crate::algebra::lemma_compose_wf(
                crate::moves::bmove_corner_states(),
                crate::moves::bmove_corner_states(),
                3,
            );
            crate::algebra::lemma_compose_wf(
                crate::moves::bmove_edge_states(),
                crate::moves::bmove_edge_states(),
                2,
            );
        },
        Move::Bi => {
            crate::algebra::lemma_compose_wf(
                crate::moves::bmove_corner_states(),
                crate::moves::bmove_corner_states(),
                3,
            );
            crate::algebra::lemma_compose_wf(
                compose_states(
                    crate::moves::bmove_corner_states(),
                    crate::moves::bmove_corner_states(),
                    3,
                ),
                crate::moves::bmove_corner_states(),
                3,
            );
            crate::algebra::lemma_compose_wf(
                crate::moves::bmove_edge_states(),
                crate::moves::bmove_edge_states(),
                2,
            );
            crate::algebra::lemma_compose_wf(
                compose_states(
                    crate::moves::bmove_edge_states(),
                    crate::moves::bmove_edge_states(),
                    2,
                ),
                crate::moves::bmove_edge_states(),
                2,
            );
        },
    }
}

/// The move with the given number.
pub open spec fn move_of_idx(mi: int) -> Move {
    if mi == 0 { Move::Li } else if mi == 1 { Move::L } else if mi == 2 { Move::L2 }
    else if mi == 3 { Move::Ri } else if mi == 4 { Move::R } else if mi == 5 { Move::R2 }
    else if mi == 6 { Move::Di } else if mi == 7 { Move::D } else if mi == 8 { Move::D2 }
    else if mi == 9 { Move::Ui } else if mi == 10 { Move::U } else if mi == 11 { Move::U2 }
    else if mi == 12 { Move::Fi } else if mi == 13 { Move::F } else if mi == 14 { Move::F2 }
    else if mi == 15 { Move::Bi } else if mi == 16 { Move::B } else { Move::B2 }
}

impl MoveTables {
    /// Every entry of every table equals the mathematical transition
    /// function of its coordinate.
    pub open spec fn wf(self) -> bool {
        &&& self.corner_ori@.len() == 18
        &&& self.edge_ori@.len() == 18
        &&& self.udslice@.len() == 18
        &&& forall|mi: int| 0 <= mi < 18 ==> (#[trigger] self.corner_ori@[mi])@.len() == 2187
        &&& forall|mi: int| 0 <= mi < 18 ==> (#[trigger] self.edge_ori@[mi])@.len() == 2048
        &&& forall|mi: int| 0 <= mi < 18 ==> (#[trigger] self.udslice@[mi])@.len() == 495
        &&& forall|mi: int, c: int|
            0 <= mi < 18 && 0 <= c < 2187 ==> (#[trigger] self.corner_ori@[mi]@[c]) as int
                == corner_ori_step(move_of_idx(mi), c) && self.corner_ori@[mi]@[c] < 2187
        &&& forall|mi: int, c: int|
            0 <= mi < 18 && 0 <= c < 2048 ==> (#[trigger] self.edge_ori@[mi]@[c]) as int
                == edge_ori_step(move_of_idx(mi), c) && self.edge_ori@[mi]@[c] < 2048
        &&& forall|mi: int, c: int|
            0 <= mi < 18 && 0 <= c < 495 ==> (#[trigger] self.udslice@[mi]@[c]) as int
                == udslice_step(move_of_idx(mi), c) && self.udslice@[mi]@[c] < 495
    }

    /// Builds the three tables: for every move and coordinate value,
    /// materialize the value into a full cube, apply the move, and read
    /// the coordinate back out.
    pub fn new() -> (r: Self)
        ensures
            r.wf(),
    {
        let moves = Move::all();
        let mut corner_ori: Vec<Vec<u16>> = Vec::new();
        let mut mi: usize = 0;
        while mi < 18
            invariant
                mi <= 18,
                moves@.len() == 18,
                forall|i: int| 0 <= i < 18 ==> (#[trigger] moves@[i]).idx() == i,
                corner_ori@.len() == mi,
                forall|i: int| 0 <= i < mi ==> (#[trigger] corner_ori@[i])@.len() == 2187,
                forall|i: int, c: int|
                    0 <= i < mi && 0 <= c < 2187 ==> (#[trigger] corner_ori@[i]@[c]) as int
                        == corner_ori_step(move_of_idx(i), c) && corner_ori@[i]@[c] < 2187,
            decreases 18 - mi,
        {
            let m = moves[mi];
            proof {
                assert(moves@[mi as int].idx() == mi);
                assert(move_of_idx(mi as int) == m);
            }
            let mut row: Vec<u16> = Vec::new();
            let mut c: u16 = 0;
            while c < 2187
                invariant
                    c <= 2187,
                    move_of_idx(mi as int) == m,
                    row@.len() == c,
                    forall|t: int|
                        0 <= t < c ==> (#[trigger] row@[t]) as int == corner_ori_step(m, t)
                            && row@[t] < 2187,
                decreases 2187 - c,
            {
                let mut cc = CubieCube::solved();
                cc.set_ori_coord(PieceKind::Corner, c);
                cc.apply_move(m);
                let v = cc.get_ori_coord(PieceKind::Corner);
                row.push(v);
                c += 1;
            }
            corner_ori.push(row);
            mi += 1;
        }
        let mut edge_ori: Vec<Vec<u16>> = Vec::new();
        let mut mi2: usize = 0;
        while mi2 < 18
            invariant
                mi2 <= 18,
                moves@.len() == 18,
                forall|i: int| 0 <= i < 18 ==> (#[trigger] moves@[i]).idx() == i,
                edge_ori@.len() == mi2,
                forall|i: int| 0 <= i < mi2 ==> (#[trigger] edge_ori@[i])@.len() == 2048,
                forall|i: int, c: int|
                    0 <= i < mi2 && 0 <= c < 2048 ==> (#[trigger] edge_ori@[i]@[c]) as int
                        == edge_ori_step(move_of_idx(i), c) && edge_ori@[i]@[c] < 2048,
            decreases 18 - mi2,
        {
            let m = moves[mi2];
            proof {
                assert(moves@[mi2 as int].idx() == mi2);
                assert(move_of_idx(mi2 as int) == m);
            }
            let mut row: Vec<u16> = Vec::new();
            let mut c: u16 = 0;
            while c < 2048
                invariant
                    c <= 2048,
                    move_of_idx(mi2 as int) == m,
                    row@.len() == c,
                    forall|t: int|
                        0 <= t < c ==> (#[trigger] row@[t]) as int == edge_ori_step(m, t)
                            && row@[t] < 2048,
                decreases 2048 - c,
            {
                let mut cc = CubieCube::solved();
                cc.set_ori_coord(PieceKind::Edge, c);
                cc.apply_move(m);
                let v = cc.get_ori_coord(PieceKind::Edge);
                row.push(v);
                c += 1;
            }
            edge_ori.push(row);
            mi2 += 1;
        }
        let mut udslice: Vec<Vec<u16>> = Vec::new();
        let mut mi3: usize = 0;
        while mi3 < 18
            invariant
                mi3 <= 18,
                moves@.len() == 18,
                forall|i: int| 0 <= i < 18 ==> (#[trigger] moves@[i]).idx() == i,
                udslice@.len() == mi3,
                forall|i: int| 0 <= i < mi3 ==> (#[trigger] udslice@[i])@.len() == 495,
                forall|i: int, c: int|
                    0 <= i < mi3 && 0 <= c < 495 ==> (#[trigger] udslice@[i]@[c]) as int
                        == udslice_step(move_of_idx(i), c) && udslice@[i]@[c] < 495,
            decreases 18 - mi3,
        {
            let m = moves[mi3];
            proof {
                assert(moves@[mi3 as int].idx() == mi3);
                assert(move_of_idx(mi3 as int) == m);
            }
            let mut row: Vec<u16> = Vec::new();
            let mut c: u16 = 0;
            while c < 495
                invariant
                    c <= 495,
                    move_of_idx(mi3 as int) == m,
                    row@.len() == c,
                    forall|t: int|
                        0 <= t < c ==> (#[trigger] row@[t]) as int == udslice_step(m, t)
                            && row@[t] < 495,
                decreases 495 - c,
            {
                let mut cc = CubieCube::solved();
                cc.set_udslice_coord(c);
                let ghost pre = cc.edge_states();
                cc.apply_move(m);
                let v = cc.get_udslice_coord();
                proof {
                    lemma_mask_of_coord(c as int);
                    crate::coords::lemma_slice_rank_injective(
                        udslice_mask(pre),
                        mask_of_coord(c as int),
                    );
                    lemma_move_states_wf(m);
                    lemma_udslice_mask_moved(pre, move_edge_states(m));
                }
                row.push(v);
                c += 1;
            }
            udslice.push(row);
            mi3 += 1;
        }
        MoveTables { corner_ori, edge_ori, udslice }
    }
}

/// A cube reduced to its three coordinates.
#[derive(Debug, Copy, Clone, Eq, PartialEq, Structural)]
pub struct CoordCube {
    /// Corner orientation ("twist"), below 2187.
    pub corner_ori: u16,
    /// Edge orientation ("flip"), below 2048.
    pub edge_ori: u16,
    /// Positions of the 4 equatorial edges, below 495.
    pub udslice: u16,
}

impl CoordCube {
    /// All three coordinates lie in their ranges.
    pub open spec fn wf(self) -> bool {
        &&& self.corner_ori < 2187
        &&& self.edge_ori < 2048
        &&& self.udslice < 495
    }

    /// Reads the three coordinates of a cube.
    pub fn from_cubie_cube(cubie_cube: &CubieCube) -> (r: Self)
        requires
            cubie_cube.wf(),
        ensures
            r.wf(),
            r.corner_ori as int == ori_coord(cubie_cube.corner_states(), 3),
            r.edge_ori as int == ori_coord(cubie_cube.edge_states(), 2),
            r.udslice as int == cnt_below(udslice_mask(cubie_cube.edge_states()), 4),
    {
        CoordCube {
            corner_ori: cubie_cube.get_ori_coord(PieceKind::Corner),
            edge_ori: cubie_cube.get_ori_coord(PieceKind::Edge),
            udslice: cubie_cube.get_udslice_coord(),
        }
    }

    /// Materializes the three coordinates into a full (possible) cube:
    /// the coordinates of the result read back as `self`.
    pub fn to_cubie_cube(&self) -> (r: CubieCube)
        requires
            self.wf(),
        ensures
            r.possible(),
            ori_coord(r.corner_states(), 3) == self.corner_ori,
            ori_coord(r.edge_states(), 2) == self.edge_ori,
            cnt_below(udslice_mask(r.edge_states()), 4) == self.udslice,
    {
        let mut ret = CubieCube::solved();
        ret.set_udslice_coord(self.udslice);
        let ghost after_slice = ret.edge_states();
        ret.set_ori_coord(PieceKind::Edge, self.edge_ori);
        ret.set_ori_coord(PieceKind::Corner, self.corner_ori);
        proof {
            assert(crate::coords::udslice_mask_rec(ret.edge_states(), 4)
                == crate::coords::udslice_mask_rec(
                with_ori_coord(after_slice, 2, self.edge_ori as int),
                4,
            ));
            assert forall|t: int| 0 <= t < 4 implies #[trigger] ret.edge_states()[4 + t].0
                == after_slice[4 + t].0 by {
                assert(ret.edge_states()[4 + t] == with_ori_coord(
                    after_slice,
                    2,
                    self.edge_ori as int,
                )[4 + t]);
            }
            lemma_udslice_rec_eq(after_slice, ret.edge_states(), 4);
        }
        ret
    }

    /// Applies a move in pure coordinate space: one table lookup per
    /// coordinate.
    pub fn apply_move(&mut self, moov: Move, tables: &MoveTables)
        requires
            old(self).wf(),
            tables.wf(),
        ensures
            final(self).wf(),
            final(self).corner_ori as int == corner_ori_step(moov, old(self).corner_ori as int),
            final(self).edge_ori as int == edge_ori_step(moov, old(self).edge_ori as int),
            final(self).udslice as int == udslice_step(moov, old(self).udslice as int),
    {
        let mi = moov.index();
        proof {
            assert(move_of_idx(mi as int) == moov);
        }
        let co = tables.corner_ori[mi][self.corner_ori as usize];
        let eo = tables.edge_ori[mi][self.edge_ori as usize];
        let ud = tables.udslice[mi][self.udslice as usize];
        self.corner_ori = co;
        self.edge_ori = eo;
        self.udslice = ud;
    }
}

/// The table transitions are faithful for every physically reachable
/// cube, not just for the cubes the build materialized: applying a move
/// to any possible cube sends each of its three coordinates to exactly
/// the table's entry for that coordinate.
pub proof fn lemma_coord_step_matches_cube(cube: CubieCube, m: Move)
    requires
        cube.possible(),
    ensures
        ori_coord(compose_states(cube.corner_states(), move_corner_states(m), 3), 3)
            == corner_ori_step(m, ori_coord(cube.corner_states(), 3)),
        ori_coord(compose_states(cube.edge_states(), move_edge_states(m), 2), 2) == edge_ori_step(
            m,
            ori_coord(cube.edge_states(), 2),
        ),
        cnt_below(udslice_mask(compose_states(cube.edge_states(), move_edge_states(m), 2)), 4)
            as int == udslice_step(m, cnt_below(udslice_mask(cube.edge_states()), 4) as int),
{
    lemma_move_states_wf(m);
    lemma_pow2_values();
    lemma_ori_step_congruent(cube.corner_states(), move_corner_states(m), 3, 8, 2187);
    lemma_ori_step_congruent(cube.edge_states(), move_edge_states(m), 2, 12, 2048);
    // udslice: the mask determines the coordinate and moves as a mask
    let s = cube.edge_states();
    let g = move_edge_states(m);
    lemma_udslice_mask_digits(s);
    let coord = cnt_below(udslice_mask(s), 4) as int;
    assert(0 <= coord < 495) by {
        crate::radix::lemma_total_slice_masks();
        crate::radix::lemma_cnt_strict(udslice_mask(s), 4096, 4);
    }
    lemma_mask_of_coord(coord);
    crate::coords::lemma_slice_rank_injective(udslice_mask(s), mask_of_coord(coord));
    lemma_udslice_mask_moved(s, g);
}

/// The orientation-coordinate transition depends only on the coordinate:
/// any zero-sum bank with coordinate `c` lands on the same coordinate
/// after composing with `g` as the canonical home-ordered bank does.
proof fn lemma_ori_step_congruent(s: Seq<(int, int)>, g: Seq<(int, int)>, m: int, n: int, bound: int)
    requires
        wf_states(s, m),
        wf_states(g, m),
        s.len() == n,
        g.len() == n,
        n >= 2,
        m >= 2,
        crate::permutation::seq_sum(crate::algebra::oris_of(s)) % m == 0,
        bound == pow(m, (n - 1) as nat),
    ensures
        ori_coord(compose_states(s, g, m), m) == ori_coord(
            compose_states(with_ori_coord(identity_states(n), m, ori_coord(s, m)), g, m),
            m,
        ),
{
    let coord = ori_coord(s, m);
    crate::coords::lemma_pos_ori_in_range(s, m);
    crate::coords::lemma_ori_coord_rec_bound(s, m, (n - 1) as nat);
    assert(0 <= coord < bound);
    crate::algebra::lemma_identity_wf(n, m);
    let sp = with_ori_coord(identity_states(n), m, coord);
    crate::coords::lemma_with_ori_coord_props(identity_states(n), m, coord, n);
    crate::coords::lemma_ori_coord_determines(s, m);
    crate::coords::lemma_ori_coord_determines(sp, m);
    assert(sp.len() == n);
    assert forall|q: int| 0 <= q < n implies #[trigger] crate::coords::pos_ori(s, q)
        == crate::coords::pos_ori(sp, q) by {
        if q < n - 1 {
            assert(crate::coords::pos_ori(s, q) == crate::radix::digit(coord, m, q as nat));
            assert(crate::coords::pos_ori(sp, q) == crate::radix::digit(coord, m, q as nat));
        } else {
            assert(crate::coords::pos_ori(s, q) == crate::coords::last_ori_fix(m, coord, n));
            assert(crate::coords::pos_ori(sp, q) == crate::coords::last_ori_fix(m, coord, n));
        }
    }
    crate::coords::lemma_compose_pos_ori(s, g, m);
    crate::coords::lemma_compose_pos_ori(sp, g, m);
    let comp = compose_states(s, g, m);
    let compp = compose_states(sp, g, m);
    assert forall|q: int| 0 <= q < n implies #[trigger] crate::coords::pos_ori(comp, q)
        == crate::coords::pos_ori(compp, q) by {
        let pg = crate::algebra::perm_of(g);
        crate::permutation::lemma_permutation_covers(pg);
        assert(pg.contains(q));
        let p = choose|p: int| 0 <= p < pg.len() && pg[p] == q;
        assert(g[p].0 == q);
        assert(crate::coords::pos_ori(comp, g[p].0) == (crate::coords::pos_ori(s, p) + g[p].1)
            % m);
        assert(crate::coords::pos_ori(compp, g[p].0) == (crate::coords::pos_ori(sp, p) + g[p].1)
            % m);
    }
    crate::coords::lemma_ori_coord_rec_congruent(comp, compp, m, (n - 1) as nat);
}

/// Masks built over entries with equal positions are equal.
proof fn lemma_udslice_rec_eq(s1: Seq<(int, int)>, s2: Seq<(int, int)>, j: nat)
    requires
        forall|t: int| 0 <= t < j ==> (#[trigger] s2[4 + t]).0 == s1[4 + t].0,
    ensures
        crate::coords::udslice_mask_rec(s1, j) == crate::coords::udslice_mask_rec(s2, j),
    decreases j,
{
    if j > 0 {
        lemma_udslice_rec_eq(s1, s2, (j - 1) as nat);
    }
}

} // verus!
