//! Mixed-radix digits, bit counting, and the rank of a 4-bit mask.
//!
//! The orientation coordinates are mixed-radix numbers: digit `c` (in
//! base 3 for corners, 2 for edges) is the orientation of the piece
//! currently in cubicle `c`. This module proves the reconstruction law:
//! the weighted digit sum of `x` rebuilds `x` itself.
//!
//! The UD-slice coordinate ranks 12-bit masks with exactly 4 set bits by
//! counting, in ascending numeric order, how many such masks lie below.
//! This module defines the bit count [`pc`] and the counting function
//! [`cnt_below`], and proves that there are exactly `C(12,4) == 495`
//! such masks, by the Pascal recurrence on bit width.

use vstd::prelude::*;
use vstd::arithmetic::power::{lemma_pow_positive, pow};
use vstd::arithmetic::div_mod::{
    lemma_breakdown, lemma_div_denominator, lemma_div_pos_is_pos, lemma_mod_bound,
    lemma_small_mod,
};

verus! {

/// Digit `c` of `x` in base `m`.
pub open spec fn digit(x: int, m: int, c: nat) -> int {
    (x / pow(m, c)) % m
}

/// The weighted sum of the first `k` digits of `x` in base `m`.
pub open spec fn digit_weighted_sum(x: int, m: int, k: nat) -> int
    decreases k,
{
    if k == 0 {
        0
    } else {
        digit_weighted_sum(x, m, (k - 1) as nat) + pow(m, (k - 1) as nat) * digit(
            x,
            m,
            (k - 1) as nat,
        )
    }
}

/// The plain (unweighted) sum of the first `k` digits of `x` in base `m`.
pub open spec fn digit_sum(x: int, m: int, k: nat) -> int
    decreases k,
{
    if k == 0 {
        0
    } else {
        digit_sum(x, m, (k - 1) as nat) + digit(x, m, (k - 1) as nat)
    }
}

/// Each digit lies below the base.
pub proof fn lemma_digit_bound(x: int, m: int, c: nat)
    requires
        x >= 0,
        m >= 2,
    ensures
        0 <= digit(x, m, c) < m,
{
    lemma_pow_positive(m, c);
    lemma_div_pos_is_pos(x, pow(m, c));
    lemma_mod_bound(x / pow(m, c), m);
}

/// Reconstruction: the weighted sum of the first `k` digits of `x` is
/// exactly `x` modulo `m^k`. In particular, for `x < m^k` it is `x`.
pub proof fn lemma_digit_reconstruction(x: int, m: int, k: nat)
    requires
        x >= 0,
        m >= 2,
    ensures
        digit_weighted_sum(x, m, k) == x % pow(m, k),
    decreases k,
{
    reveal(vstd::arithmetic::power::pow);
    if k == 0 {
        assert(pow(m, 0) == 1);
        assert(x % 1 == 0) by {
            lemma_small_mod(0, 1);
            assert(x % 1 >= 0 && x % 1 < 1) by {
                lemma_mod_bound(x, 1);
            }
        }
    } else {
        let km = (k - 1) as nat;
        lemma_digit_reconstruction(x, m, km);
        lemma_pow_positive(m, km);
        lemma_breakdown(x, pow(m, km), m);
        assert(x % (pow(m, km) * m) == pow(m, km) * ((x / pow(m, km)) % m) + x % pow(m, km));
        assert(pow(m, k) == m * pow(m, km));
        assert(pow(m, km) * m == m * pow(m, km)) by {
            vstd::arithmetic::mul::lemma_mul_is_commutative(pow(m, km), m);
        }
    }
}

/// The number of set bits of `x` (zero for negative `x`).
pub open spec fn pc(x: int) -> nat
    decreases x, 0nat when x >= 0
{
    if x <= 0 {
        0
    } else {
        (x % 2) as nat + pc(x / 2)
    }
}

/// Bit `c` of `y` is bit `c - 1` of `y / 2`.
pub proof fn lemma_digit_halve(y: int, c: nat)
    requires
        y >= 0,
        c >= 1,
    ensures
        digit(y, 2, c) == digit(y / 2, 2, (c - 1) as nat),
{
    reveal(vstd::arithmetic::power::pow);
    lemma_pow_positive(2, (c - 1) as nat);
    lemma_div_denominator(y, 2, pow(2, (c - 1) as nat));
    assert(pow(2, c) == 2 * pow(2, (c - 1) as nat));
}

/// Adding `2^e` to a number whose bit `e` is clear sets exactly that
/// bit: the bit count grows by one and every other bit is unchanged.
pub proof fn lemma_add_pow2(x: int, e: nat)
    requires
        x >= 0,
        digit(x, 2, e) == 0,
    ensures
        pc(x + pow(2, e)) == pc(x) + 1,
        digit(x + pow(2, e), 2, e) == 1,
        forall|c: nat| c != e ==> digit(x + pow(2, e), 2, c) == digit(x, 2, c),
    decreases e,
{
    reveal(vstd::arithmetic::power::pow);
    lemma_pow_positive(2, e);
    let y = x + pow(2, e);
    if e == 0 {
        assert(pow(2, 0) == 1);
        assert(digit(x, 2, 0) == x % 2);
        assert(x % 2 == 0);
        assert(y == x + 1);
        assert(y % 2 == 1);
        assert(y / 2 == x / 2);
        assert(pc(y) == 1 + pc(y / 2));
        assert(pc(x) == 0 + pc(x / 2));
        assert forall|c: nat| c != 0 implies digit(y, 2, c) == digit(x, 2, c) by {
            lemma_digit_halve(y, c);
            lemma_digit_halve(x, c);
        }
    } else {
        let em = (e - 1) as nat;
        assert(pow(2, e) == 2 * pow(2, em));
        assert(y % 2 == x % 2);
        assert(y / 2 == x / 2 + pow(2, em));
        lemma_digit_halve(x, e);
        assert(digit(x / 2, 2, em) == 0);
        lemma_add_pow2(x / 2, em);
        assert(pc(y) == (y % 2) as nat + pc(y / 2));
        assert(pc(x) == (x % 2) as nat + pc(x / 2));
        lemma_digit_halve(y, e);
        assert(digit(y, 2, e) == 1);
        assert forall|c: nat| c != e implies digit(y, 2, c) == digit(x, 2, c) by {
            if c == 0 {
                assert(digit(y, 2, 0) == y % 2);
                assert(digit(x, 2, 0) == x % 2);
            } else {
                lemma_digit_halve(y, c);
                lemma_digit_halve(x, c);
                assert(digit(y / 2, 2, (c - 1) as nat) == digit(x / 2, 2, (c - 1) as nat));
            }
        }
    }
}

/// The bit count never exceeds the number itself.
pub proof fn lemma_pc_le_self(x: int)
    requires
        x >= 0,
    ensures
        pc(x) <= x,
    decreases x,
{
    if x > 0 {
        lemma_pc_le_self(x / 2);
    }
}

/// Splitting off the lowest digit of a base-2 digit sum.
pub proof fn lemma_digit_sum_halve(x: int, k: nat)
    requires
        x >= 0,
        k >= 1,
    ensures
        digit_sum(x, 2, k) == (x % 2) + digit_sum(x / 2, 2, (k - 1) as nat),
    decreases k,
{
    reveal(vstd::arithmetic::power::pow);
    if k == 1 {
        assert(pow(2, 0nat) == 1);
        assert(digit(x, 2, 0) == (x / 1) % 2);
        assert(x / 1 == x) by {
            vstd::arithmetic::div_mod::lemma_div_basics(x);
        }
    } else {
        lemma_digit_sum_halve(x, (k - 1) as nat);
        lemma_digit_halve(x, (k - 1) as nat);
        assert(digit_sum(x, 2, k) == digit_sum(x, 2, (k - 1) as nat) + digit(
            x,
            2,
            (k - 1) as nat,
        ));
        assert(digit_sum(x / 2, 2, (k - 1) as nat) == digit_sum(x / 2, 2, (k - 2) as nat) + digit(
            x / 2,
            2,
            (k - 2) as nat,
        ));
    }
}

/// For `x` below `2^k`, the bit count is the sum of the first `k` bits.
pub proof fn lemma_pc_digit_sum(x: int, k: nat)
    requires
        0 <= x < pow(2, k),
    ensures
        pc(x) == digit_sum(x, 2, k),
    decreases k,
{
    reveal(vstd::arithmetic::power::pow);
    if k == 0 {
        assert(x == 0);
    } else {
        assert(pow(2, k) == 2 * pow(2, (k - 1) as nat));
        assert(0 <= x / 2 < pow(2, (k - 1) as nat));
        lemma_pc_digit_sum(x / 2, (k - 1) as nat);
        lemma_digit_sum_halve(x, k);
        if x == 0 {
            assert(pc(0) == 0);
        } else {
            assert(pc(x) == (x % 2) as nat + pc(x / 2));
        }
    }
}

/// Base-2 digit sums grow by at most one per digit.
pub proof fn lemma_digit_sum_range(x: int, c: nat, k: nat)
    requires
        x >= 0,
        c <= k,
    ensures
        digit_sum(x, 2, c) <= digit_sum(x, 2, k) <= digit_sum(x, 2, c) + (k - c),
    decreases k,
{
    if k > c {
        lemma_digit_sum_range(x, c, (k - 1) as nat);
        lemma_digit_bound(x, 2, (k - 1) as nat);
    }
}

/// How many numbers below `x` have exactly `k` set bits.
pub open spec fn cnt_below(x: int, k: nat) -> nat
    decreases x, 0nat when x >= 0
{
    if x <= 0 {
        0
    } else {
        cnt_below(x - 1, k) + (if pc(x - 1) == k {
            1nat
        } else {
            0nat
        })
    }
}

/// Binomial coefficients by the Pascal recurrence.
pub open spec fn nck(n: nat, k: int) -> nat
    decreases n,
{
    if k < 0 {
        0
    } else if n == 0 {
        if k == 0 {
            1
        } else {
            0
        }
    } else {
        nck((n - 1) as nat, k) + nck((n - 1) as nat, k - 1)
    }
}

/// A number in `[2^n, 2^(n+1))` has one more set bit than its low part.
proof fn lemma_pc_high(n: nat, y: int)
    requires
        0 <= y < pow(2, n),
    ensures
        pc(pow(2, n) + y) == 1 + pc(y),
    decreases n,
{
    reveal(vstd::arithmetic::power::pow);
    lemma_pow_positive(2, n);
    let v = pow(2, n) + y;
    if n == 0 {
        assert(pow(2, 0) == 1);
        assert(y == 0);
        assert(pc(1) == 1 + pc(0));
        assert(pc(0) == 0);
    } else {
        let nm = (n - 1) as nat;
        assert(pow(2, n) == 2 * pow(2, nm));
        assert(v % 2 == y % 2);
        assert(v / 2 == pow(2, nm) + y / 2);
        assert(y / 2 < pow(2, nm));
        lemma_pc_high(nm, y / 2);
        assert(pc(v) == (v % 2) as nat + pc(v / 2));
        assert(pc(y) == (y % 2) as nat + pc(y / 2));
    }
}

/// Counting with the high bit set: the count over `[2^n, 2^n + t)` of
/// numbers with `k` set bits equals the count over `[0, t)` with `k - 1`.
proof fn lemma_cnt_shift(n: nat, t: int, k: nat)
    requires
        0 <= t <= pow(2, n),
    ensures
        k >= 1 ==> cnt_below(pow(2, n) + t, k) == cnt_below(pow(2, n), k) + cnt_below(
            t,
            (k - 1) as nat,
        ),
        k == 0 ==> cnt_below(pow(2, n) + t, k) == cnt_below(pow(2, n), k),
    decreases t,
{
    lemma_pow_positive(2, n);
    if t > 0 {
        lemma_cnt_shift(n, t - 1, k);
        lemma_pc_high(n, t - 1);
        assert(pc(pow(2, n) + t - 1) == 1 + pc(t - 1));
    }
}

/// The count of `k`-bit-set numbers below `2^n` is `C(n, k)`.
pub proof fn lemma_cnt_pow2(n: nat, k: nat)
    ensures
        cnt_below(pow(2, n), k) == nck(n, k as int),
    decreases n,
{
    reveal(vstd::arithmetic::power::pow);
    if n == 0 {
        assert(pow(2, 0) == 1);
        assert(cnt_below(1, k) == cnt_below(0, k) + (if pc(0) == k {
            1nat
        } else {
            0nat
        }));
        assert(pc(0) == 0);
    } else {
        let nm = (n - 1) as nat;
        lemma_cnt_pow2(nm, k);
        lemma_pow_positive(2, nm);
        assert(pow(2, n) == 2 * pow(2, nm));
        lemma_cnt_shift(nm, pow(2, nm), k);
        if k >= 1 {
            lemma_cnt_pow2(nm, (k - 1) as nat);
            assert(nck(n, k as int) == nck(nm, k as int) + nck(nm, k as int - 1));
        } else {
            assert(nck(nm, -1) == 0);
        }
    }
}

/// Counting is monotone in the bound.
pub proof fn lemma_cnt_monotone(a: int, b: int, k: nat)
    requires
        0 <= a <= b,
    ensures
        cnt_below(a, k) <= cnt_below(b, k),
    decreases b,
{
    if b > 0 && a < b {
        lemma_cnt_monotone(a, b - 1, k);
    }
}

/// The rank of a mask with `k` set bits is strictly below the rank of
/// any larger bound: ranking is injective on such masks.
pub proof fn lemma_cnt_strict(a: int, b: int, k: nat)
    requires
        0 <= a < b,
        pc(a) == k,
    ensures
        cnt_below(a, k) < cnt_below(b, k),
{
    assert(cnt_below(a + 1, k) == cnt_below(a, k) + 1);
    lemma_cnt_monotone(a + 1, b, k);
}

/// There are exactly 495 (that is, `C(12, 4)`) 12-bit masks with 4 set
/// bits.
pub proof fn lemma_total_slice_masks()
    ensures
        cnt_below(4096, 4) == 495,
        pow(2, 12) == 4096,
        pow(2, 13) == 8192,
        pow(2, 14) == 16384,
{
    lemma_pow2_values();
    lemma_cnt_pow2(12, 4);
    lemma_nck_values();
}

/// The values of `2^e` for `e` up to 12.
pub proof fn lemma_pow2_values()
    ensures
        pow(2, 0) == 1,
        pow(2, 1) == 2,
        pow(2, 2) == 4,
        pow(2, 3) == 8,
        pow(2, 4) == 16,
        pow(2, 5) == 32,
        pow(2, 6) == 64,
        pow(2, 7) == 128,
        pow(2, 8) == 256,
        pow(2, 9) == 512,
        pow(2, 10) == 1024,
        pow(2, 11) == 2048,
        pow(2, 12) == 4096,
        pow(2, 13) == 8192,
        pow(2, 14) == 16384,
        pow(3, 0) == 1,
        pow(3, 1) == 3,
        pow(3, 2) == 9,
        pow(3, 3) == 27,
        pow(3, 4) == 81,
        pow(3, 5) == 243,
        pow(3, 6) == 729,
        pow(3, 7) == 2187,
{
    reveal_with_fuel(vstd::arithmetic::power::pow, 16);
}

/// Binomial values up the Pascal triangle, as far as the UD-slice rank
/// needs them.
proof fn lemma_nck_values()
    ensures
        nck(12, 4) == 495,
{
    assert(nck(0, -1) == 0);
    assert(nck(0, 0) == 1);
    assert(nck(0, 1) == 0);
    assert(nck(0, 2) == 0);
    assert(nck(0, 3) == 0);
    assert(nck(0, 4) == 0);
    assert(nck(1, -1) == 0);
    assert(nck(1, 0) == 1);
    assert(nck(1, 1) == 1);
    assert(nck(1, 2) == 0);
    assert(nck(1, 3) == 0);
    assert(nck(1, 4) == 0);
    assert(nck(2, -1) == 0);
    assert(nck(2, 0) == 1);
    assert(nck(2, 1) == 2);
    assert(nck(2, 2) == 1);
    assert(nck(2, 3) == 0);
    assert(nck(2, 4) == 0);
    assert(nck(3, -1) == 0);
    assert(nck(3, 0) == 1);
    assert(nck(3, 1) == 3);
    assert(nck(3, 2) == 3);
    assert(nck(3, 3) == 1);
    assert(nck(3, 4) == 0);
    assert(nck(4, -1) == 0);
    assert(nck(4, 0) == 1);
    assert(nck(4, 1) == 4);
    assert(nck(4, 2) == 6);
    assert(nck(4, 3) == 4);
    assert(nck(4, 4) == 1);
    assert(nck(5, -1) == 0);
    assert(nck(5, 0) == 1);
    assert(nck(5, 1) == 5);
    assert(nck(5, 2) == 10);
    assert(nck(5, 3) == 10);
    assert(nck(5, 4) == 5);
    assert(nck(6, -1) == 0);
    assert(nck(6, 0) == 1);
    assert(nck(6, 1) == 6);
    assert(nck(6, 2) == 15);
    assert(nck(6, 3) == 20);
    assert(nck(6, 4) == 15);
    assert(nck(7, -1) == 0);
    assert(nck(7, 0) == 1);
    assert(nck(7, 1) == 7);
    assert(nck(7, 2) == 21);
    assert(nck(7, 3) == 35);
    assert(nck(7, 4) == 35);
    assert(nck(8, -1) == 0);
    assert(nck(8, 0) == 1);
    assert(nck(8, 1) == 8);
    assert(nck(8, 2) == 28);
    assert(nck(8, 3) == 56);
    assert(nck(8, 4) == 70);
    assert(nck(9, -1) == 0);
    assert(nck(9, 0) == 1);
    assert(nck(9, 1) == 9);
    assert(nck(9, 2) == 36);
    assert(nck(9, 3) == 84);
    assert(nck(9, 4) == 126);
    assert(nck(10, -1) == 0);
    assert(nck(10, 0) == 1);
    assert(nck(10, 1) == 10);
    assert(nck(10, 2) == 45);
    assert(nck(10, 3) == 120);
    assert(nck(10, 4) == 210);
    assert(nck(11, -1) == 0);
    assert(nck(11, 0) == 1);
    assert(nck(11, 1) == 11);
    assert(nck(11, 2) == 55);
    assert(nck(11, 3) == 165);
    assert(nck(11, 4) == 330);
    assert(nck(12, -1) == 0);
    assert(nck(12, 0) == 1);
    assert(nck(12, 1) == 12);
    assert(nck(12, 2) == 66);
    assert(nck(12, 3) == 220);
    assert(nck(12, 4) == 495);
}

} // verus!
