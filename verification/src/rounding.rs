//! Exact decimal scaling: powers of ten, rounding half away from zero, and
//! collapsing an out-of-range count to the nearest representable one.

use vstd::prelude::*;

verus! {

/// `10^k`.
pub open spec fn pow10(k: nat) -> int
    decreases k,
{
    if k == 0 {
        1
    } else {
        10 * pow10((k - 1) as nat)
    }
}

pub proof fn lemma_pow10_pos(k: nat)
    ensures
        pow10(k) >= 1,
    decreases k,
{
    if k > 0 {
        lemma_pow10_pos((k - 1) as nat);
    }
}

pub proof fn lemma_pow10_increases(j: nat, k: nat)
    requires
        j <= k,
    ensures
        pow10(j) <= pow10(k),
    decreases k,
{
    if j < k {
        lemma_pow10_increases(j, (k - 1) as nat);
        lemma_pow10_pos((k - 1) as nat);
    }
}

proof fn lemma_pow10_18()
    ensures
        pow10(18) == 1_000_000_000_000_000_000,
{
    reveal_with_fuel(pow10, 19);
}

/// The integer nearest to `n / d` for a positive divisor `d`, with halves
/// rounded away from zero.
pub open spec fn round_half_away(n: int, d: int) -> int {
    if n >= 0 {
        (2 * n + d) / (2 * d)
    } else {
        -((2 * (-n) + d) / (2 * d))
    }
}

/// The value itself when it fits an `i64`, and the nearest representable
/// count otherwise.
pub open spec fn clamp_to_i64(n: int) -> int {
    if n > i64::MAX {
        i64::MAX as int
    } else if n < i64::MIN {
        i64::MIN as int
    } else {
        n
    }
}

/// `10^k` as a machine integer.
pub(crate) fn pow10_u128(k: u32) -> (r: u128)
    requires
        k <= 18,
    ensures
        r == pow10(k as nat),
        1 <= r <= 1_000_000_000_000_000_000,
{
    let mut i: u32 = 0;
    let mut p: u128 = 1;
    while i < k
        invariant
            i <= k <= 18,
            p == pow10(i as nat),
        decreases k - i,
    {
        proof {
            lemma_pow10_increases(i as nat, 17);
            assert(pow10(17) == 100_000_000_000_000_000) by {
                reveal_with_fuel(pow10, 18);
            }
        }
        p = p * 10;
        i = i + 1;
    }
    proof {
        lemma_pow10_increases(k as nat, 18);
        lemma_pow10_18();
        lemma_pow10_pos(k as nat);
    }
    p
}

proof fn lemma_round_half_away_error_nonneg(n: int, d: int)
    requires
        d > 0,
        n >= 0,
    ensures
        2 * vstd::math::abs(round_half_away(n, d) * d - n) <= d,
{
    let q = round_half_away(n, d);
    let x = 2 * n + d;
    let m = 2 * d;
    vstd::arithmetic::div_mod::lemma_fundamental_div_mod(x, m);
    vstd::arithmetic::div_mod::lemma_mod_bound(x, m);
    let r = x % m;
    assert(q == x / m);
    assert(x == m * q + r);
    assert(2 * (q * d) == (2 * d) * q) by (nonlinear_arith);
    assert(2 * (q * d - n) == d - r);
}

/// Law: the rounded quotient differs from the exact ratio by at most one
/// half, that is `|round_half_away(n, d) * d - n| <= d / 2`.
pub proof fn lemma_round_half_away_error(n: int, d: int)
    requires
        d > 0,
    ensures
        2 * vstd::math::abs(round_half_away(n, d) * d - n) <= d,
{
    if n >= 0 {
        lemma_round_half_away_error_nonneg(n, d);
    } else {
        lemma_round_half_away_error_nonneg(-n, d);
        let qm = round_half_away(-n, d);
        assert(round_half_away(n, d) == -qm);
        assert((-qm) * d - n == -(qm * d - (-n))) by (nonlinear_arith);
    }
}

} // verus!
