//! The reward model: a pure pricing function mapping (coin value, multiplier,
//! streak length) to the cash paid out for a head.
//!
//! The multiplier is a rational `m_num / m_den`. The reward for the `n`-th
//! consecutive head is `ceil((m_num / m_den)^(n - 1)) * coin`, so the first
//! head of a streak pays the bare coin value. The ceiling is taken of the
//! multiplier power alone, before scaling by the coin value.
//!
//! Results saturate at `u64::MAX`: a reward that does not fit a `u64`, or
//! whose multiplier powers do not fit the `u128` working width, is reported
//! as `u64::MAX`. That cap is part of the stated contract, not a loose edge.
use vstd::prelude::*;

verus! {

use vstd::arithmetic::power::pow;
use vstd::arithmetic::power::lemma_pow_positive;
use vstd::arithmetic::power::lemma_pow_increases;
use vstd::arithmetic::power::lemma1_pow;

/// `b^e` over the naturals.
pub open spec fn pow_n(b: nat, e: nat) -> nat {
    pow(b as int, e) as nat
}

/// The ceiling of `a / b` over the naturals.
pub open spec fn ceil_div(a: nat, b: nat) -> nat
    recommends
        b >= 1,
{
    if a % b == 0 {
        a / b
    } else {
        a / b + 1
    }
}

/// The ceiling of the rational power `(num / den)^e`.
pub open spec fn ceil_pow(num: nat, den: nat, e: nat) -> nat
    recommends
        den >= 1,
{
    ceil_div(pow_n(num, e), pow_n(den, e))
}

/// The mathematically exact reward: `ceil((num / den)^(streak - 1)) * coin`.
pub open spec fn reward_ideal(coin: nat, m_num: nat, m_den: nat, streak: nat) -> nat
    recommends
        m_den >= 1,
        streak >= 1,
{
    ceil_pow(m_num, m_den, (streak - 1) as nat) * coin
}

/// Whether both multiplier powers at exponent `e` fit the `u128` working
/// width that the executable reward computation uses.
pub open spec fn pows_fit(m_num: nat, m_den: nat, e: nat) -> bool {
    pow_n(m_num, e) <= u128::MAX && pow_n(m_den, e) <= u128::MAX
}

/// What `calc_reward` returns: the exact reward where it is representable,
/// and `u64::MAX` where the reward overflows a `u64` or the multiplier
/// powers overflow the `u128` working width.
pub open spec fn reward_value(coin: nat, m_num: nat, m_den: nat, streak: nat) -> nat
    recommends
        m_den >= 1,
        streak >= 1,
{
    if pows_fit(m_num, m_den, (streak - 1) as nat)
        && reward_ideal(coin, m_num, m_den, streak) <= u64::MAX {
        reward_ideal(coin, m_num, m_den, streak)
    } else {
        u64::MAX as nat
    }
}

/// `ceil_div(a, b)` rounds up: `b` copies of it cover `a`, and it overshoots
/// by less than one copy of `b`.
proof fn lemma_ceil_div_bounds(a: nat, b: nat)
    requires
        b >= 1,
    ensures
        ceil_div(a, b) * b >= a,
        ceil_div(a, b) * b < a + b,
{
    let q = a / b;
    let r = a % b;
    vstd::arithmetic::div_mod::lemma_fundamental_div_mod(a as int, b as int);
    assert(a == b * q + r);
    if r == 0 {
        assert(ceil_div(a, b) * b == q * b);
        assert(q * b == b * q) by (nonlinear_arith);
    } else {
        assert(ceil_div(a, b) * b == (q + 1) * b);
        assert((q + 1) * b == b * q + b) by (nonlinear_arith);
    }
}

/// `ceil_div(a, b)` is the least `k` with `k * b >= a`.
proof fn lemma_ceil_div_least(a: nat, b: nat, k: nat)
    requires
        b >= 1,
        k * b >= a,
    ensures
        ceil_div(a, b) <= k,
{
    lemma_ceil_div_bounds(a, b);
    let c = ceil_div(a, b);
    if c > k {
        assert(k * b <= (c - 1) * b) by (nonlinear_arith)
            requires
                k <= c - 1,
                b >= 1,
        ;
        assert((c - 1) * b == c * b - b) by (nonlinear_arith);
        assert(c * b < a + b);
        assert(k * b < a);
    }
}

/// Multiplying numerator and denominator by `n >= d` (with `n` on top) can
/// only raise the ceiling of the fraction.
proof fn lemma_ceil_frac_step(a: nat, b: nat, n: nat, d: nat)
    requires
        b >= 1,
        d >= 1,
        n >= d,
    ensures
        ceil_div(a, b) <= ceil_div(a * n, b * d),
{
    assert(b * d >= 1) by (nonlinear_arith)
        requires
            b >= 1,
            d >= 1,
    ;
    let k = ceil_div(a * n, b * d);
    lemma_ceil_div_bounds(a * n, b * d);
    assert(k * (b * d) >= a * n);
    assert(a * n >= a * d) by (nonlinear_arith)
        requires
            n >= d,
    ;
    assert(k * b >= a) by (nonlinear_arith)
        requires
            k * (b * d) >= a * d,
            d >= 1,
            b >= 1,
    ;
    lemma_ceil_div_least(a, b, k);
}

/// One step of streak growth never lowers `ceil((num/den)^e)` when the
/// multiplier is at least one.
proof fn lemma_ceil_pow_step(num: nat, den: nat, e: nat)
    requires
        den >= 1,
        num >= den,
    ensures
        ceil_pow(num, den, e) <= ceil_pow(num, den, e + 1),
{
    lemma_pow_positive(den as int, e);
    lemma_pow_positive(num as int, e);
    assert(pow(num as int, (e + 1) as nat) == num * pow(num as int, e)) by {
        reveal(pow);
    }
    assert(pow(den as int, (e + 1) as nat) == den * pow(den as int, e)) by {
        reveal(pow);
    }
    let a = pow_n(num, e);
    let b = pow_n(den, e);
    assert(pow_n(num, e + 1) == a * num) by (nonlinear_arith)
        requires
            pow(num as int, (e + 1) as nat) == num * pow(num as int, e),
            a == pow_n(num, e),
            pow(num as int, e) >= 0,
            pow_n(num, e + 1) == pow(num as int, (e + 1) as nat),
    ;
    assert(pow_n(den, e + 1) == b * den) by (nonlinear_arith)
        requires
            pow(den as int, (e + 1) as nat) == den * pow(den as int, e),
            b == pow_n(den, e),
            pow(den as int, e) >= 0,
            pow_n(den, e + 1) == pow(den as int, (e + 1) as nat),
    ;
    lemma_ceil_frac_step(a, b, num, den);
}

/// `ceil((num/den)^e)` is non-decreasing in the exponent when the
/// multiplier is at least one.
proof fn lemma_ceil_pow_mono(num: nat, den: nat, e1: nat, e2: nat)
    requires
        den >= 1,
        num >= den,
        e1 <= e2,
    ensures
        ceil_pow(num, den, e1) <= ceil_pow(num, den, e2),
    decreases e2 - e1,
{
    if e1 < e2 {
        lemma_ceil_pow_mono(num, den, e1, (e2 - 1) as nat);
        lemma_ceil_pow_step(num, den, (e2 - 1) as nat);
    }
}

/// The reward never exceeds the saturation cap.
pub proof fn lemma_reward_value_le_max(coin: nat, m_num: nat, m_den: nat, streak: nat)
    ensures
        reward_value(coin, m_num, m_den, streak) <= u64::MAX,
{
}

/// The first head of a streak pays exactly the base coin value.
pub proof fn lemma_reward_first_head(coin: u64, m_num: u64, m_den: u64)
    requires
        m_den >= 1,
    ensures
        reward_value(coin as nat, m_num as nat, m_den as nat, 1) == coin,
{
    assert(pow(m_num as int, 0) == 1) by {
        reveal(pow);
    }
    assert(pow(m_den as int, 0) == 1) by {
        reveal(pow);
    }
    assert(ceil_div(1, 1) == 1);
    assert(ceil_pow(m_num as nat, m_den as nat, 0) == 1);
    assert(reward_ideal(coin as nat, m_num as nat, m_den as nat, 1) == 1 * (coin as nat));
    assert(1 * (coin as nat) == coin as nat) by (nonlinear_arith);
}

/// Where the multiplier powers fit the working width and the product fits a
/// `u64`, the reward is exactly `ceil((m_num/m_den)^(streak-1)) * coin`.
pub proof fn lemma_reward_formula(coin: u64, m_num: u64, m_den: u64, streak: u64)
    requires
        m_den >= 1,
        streak >= 1,
        pows_fit(m_num as nat, m_den as nat, (streak - 1) as nat),
        reward_ideal(coin as nat, m_num as nat, m_den as nat, streak as nat) <= u64::MAX,
    ensures
        reward_value(coin as nat, m_num as nat, m_den as nat, streak as nat)
            == ceil_pow(m_num as nat, m_den as nat, (streak - 1) as nat) * coin,
{
}

/// With the multiplier at least one, the reward is non-decreasing in the
/// streak length.
pub proof fn lemma_reward_monotonic(coin: u64, m_num: u64, m_den: u64, s1: u64, s2: u64)
    requires
        m_den >= 1,
        m_num >= m_den,
        1 <= s1,
        s1 <= s2,
    ensures
        reward_value(coin as nat, m_num as nat, m_den as nat, s1 as nat)
            <= reward_value(coin as nat, m_num as nat, m_den as nat, s2 as nat),
{
    let e1 = (s1 - 1) as nat;
    let e2 = (s2 - 1) as nat;
    let cn = coin as nat;
    let num = m_num as nat;
    let den = m_den as nat;
    lemma_reward_value_le_max(cn, num, den, s1 as nat);
    if pows_fit(num, den, e2) {
        lemma_pow_increases(num, e1, e2);
        lemma_pow_increases(den, e1, e2);
        lemma_pow_nonneg(num, e1);
        lemma_pow_nonneg(den, e1);
        lemma_pow_nonneg(num, e2);
        lemma_pow_nonneg(den, e2);
        assert(pows_fit(num, den, e1));
        lemma_ceil_pow_mono(num, den, e1, e2);
        assert(ceil_pow(num, den, e1) * cn <= ceil_pow(num, den, e2) * cn)
            by (nonlinear_arith)
            requires
                ceil_pow(num, den, e1) <= ceil_pow(num, den, e2),
        ;
        assert(reward_ideal(cn, num, den, s1 as nat) <= reward_ideal(cn, num, den, s2 as nat));
    }
}

/// Computes the reward for the `n_heads_in_a_row`-th consecutive head, in
/// cents, saturating at `u64::MAX`.
pub fn calc_reward(coin_val: u64, m_num: u64, m_den: u64, n_heads_in_a_row: u64) -> (r: u64)
    requires
        m_den >= 1,
        n_heads_in_a_row >= 1,
    ensures
        r == reward_value(
            coin_val as nat,
            m_num as nat,
            m_den as nat,
            n_heads_in_a_row as nat,
        ),
{
    let e: u64 = n_heads_in_a_row - 1;
    let mut np: u128 = 1;
    let mut dp: u128 = 1;
    let mut k: u64 = 0;
    proof {
        reveal(pow);
    }
    while k < e
        invariant
            k <= e,
            m_den >= 1,
            n_heads_in_a_row >= 1,
            e == n_heads_in_a_row - 1,
            np == pow_n(m_num as nat, k as nat),
            dp == pow_n(m_den as nat, k as nat),
        decreases e - k,
    {
        let np2 = np.checked_mul(m_num as u128);
        let dp2 = dp.checked_mul(m_den as u128);
        if let (Some(a), Some(b)) = (np2, dp2) {
            proof {
                lemma_pow_next(m_num as nat, k as nat);
                lemma_pow_next(m_den as nat, k as nat);
            }
            np = a;
            dp = b;
            k = k + 1;
        } else {
            proof {
                if np2.is_none() {
                    lemma_pow_overflow(m_num as nat, k as nat, e as nat, np as nat);
                } else {
                    lemma_pow_overflow(m_den as nat, k as nat, e as nat, dp as nat);
                }
            }
            return u64::MAX;
        }
    }
    proof {
        lemma_pow_positive(m_den as int, e as nat);
    }
    let q: u128 = np / dp;
    let rem: u128 = np % dp;
    proof {
        vstd::arithmetic::div_mod::lemma_fundamental_div_mod(np as int, dp as int);
        if rem != 0 {
            assert(q * 2 <= q * dp) by (nonlinear_arith)
                requires
                    dp >= 2,
                    q >= 0,
            ;
            assert(dp * q == q * dp) by (nonlinear_arith);
        }
    }
    let c: u128 = if rem == 0 {
        q
    } else {
        q + 1
    };
    assert(c == ceil_div(np as nat, dp as nat));
    match c.checked_mul(coin_val as u128) {
        Some(p) => {
            if p > u64::MAX as u128 {
                u64::MAX
            } else {
                p as u64
            }
        },
        None => u64::MAX,
    }
}

/// Peeling one factor off a natural-number power.
proof fn lemma_pow_next(b: nat, k: nat)
    ensures
        pow_n(b, k + 1) == pow_n(b, k) * b,
{
    assert(pow(b as int, (k + 1) as nat) == b * pow(b as int, k)) by {
        reveal(pow);
    }
    lemma_pow_nonneg(b, k);
    assert((b as int) * pow(b as int, k) == pow(b as int, k) * (b as int)) by (nonlinear_arith);
}

/// A natural-number power is non-negative.
proof fn lemma_pow_nonneg(b: nat, k: nat)
    ensures
        pow(b as int, k) >= 0,
    decreases k,
{
    reveal(pow);
    if k > 0 {
        lemma_pow_nonneg(b, (k - 1) as nat);
        assert((b as int) * pow(b as int, (k - 1) as nat) >= 0) by (nonlinear_arith)
            requires
                b as int >= 0,
                pow(b as int, (k - 1) as nat) >= 0,
        ;
    }
}

/// If one more factor of `b` overflows the working width at exponent
/// `k + 1 <= e`, the power at exponent `e` overflows it too.
proof fn lemma_pow_overflow(b: nat, k: nat, e: nat, p: nat)
    requires
        k < e,
        p == pow_n(b, k),
        p * b > u128::MAX,
    ensures
        pow_n(b, e) > u128::MAX,
{
    lemma_pow_next(b, k);
    assert(pow_n(b, k + 1) > u128::MAX);
    if b == 0 {
        assert(p * 0 == 0) by (nonlinear_arith);
        assert(false);
    }
    if b == 1 {
        lemma1_pow(k);
        lemma1_pow((k + 1) as nat);
        assert(false);
    }
    lemma_pow_increases(b, k + 1, e);
    lemma_pow_nonneg(b, k + 1);
    lemma_pow_nonneg(b, e);
}

} // verus!
