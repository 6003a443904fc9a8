//! Tests for the reward model: exact values, saturation, monotonicity, and
//! determinism.
use streak_game::rewards::calc_reward;

// Each case gives the coin value in cents, the multiplier as num/den, the
// streak length, and the expected payout in cents, which is
// ceil((num/den)^(streak-1)) * coin.

#[test]
fn reward_whole_multiplier_unit_coin() {
    assert_eq!(calc_reward(100, 3, 1, 1), 100);
    assert_eq!(calc_reward(100, 3, 1, 2), 300);
    assert_eq!(calc_reward(100, 3, 1, 3), 900);
    assert_eq!(calc_reward(100, 3, 1, 4), 2700);
    assert_eq!(calc_reward(100, 3, 1, 5), 8100);
}

#[test]
fn reward_whole_multiplier_small_coin() {
    assert_eq!(calc_reward(10, 3, 1, 1), 10);
    assert_eq!(calc_reward(10, 3, 1, 2), 30);
    assert_eq!(calc_reward(10, 3, 1, 3), 90);
    assert_eq!(calc_reward(10, 3, 1, 4), 270);
    assert_eq!(calc_reward(10, 3, 1, 5), 810);
}

#[test]
fn reward_fractional_multiplier_unit_coin() {
    // 2.5^0 = 1, ceil(2.5) = 3, ceil(6.25) = 7, ceil(15.625) = 16,
    // ceil(39.0625) = 40.
    assert_eq!(calc_reward(100, 5, 2, 1), 100);
    assert_eq!(calc_reward(100, 5, 2, 2), 300);
    assert_eq!(calc_reward(100, 5, 2, 3), 700);
    assert_eq!(calc_reward(100, 5, 2, 4), 1600);
    assert_eq!(calc_reward(100, 5, 2, 5), 4000);
}

#[test]
fn reward_fractional_multiplier_quarter_coin() {
    assert_eq!(calc_reward(25, 5, 2, 1), 25);
    assert_eq!(calc_reward(25, 5, 2, 2), 75);
    assert_eq!(calc_reward(25, 5, 2, 3), 175);
    assert_eq!(calc_reward(25, 5, 2, 4), 400);
    assert_eq!(calc_reward(25, 5, 2, 5), 1000);
}

#[test]
fn reward_unit_multiplier_stays_flat() {
    assert_eq!(calc_reward(100, 1, 1, 1), 100);
    assert_eq!(calc_reward(100, 1, 1, 2), 100);
    assert_eq!(calc_reward(100, 1, 1, 3), 100);
    assert_eq!(calc_reward(100, 1, 1, 4), 100);
    assert_eq!(calc_reward(100, 1, 1, 5), 100);
}

#[test]
fn reward_default_game_multiplier() {
    // The default game: one-cent coin, 3/2 multiplier.
    // ceil(1.5^k) for k = 0..4: 1, 2, 3, 4, 6.
    assert_eq!(calc_reward(1, 3, 2, 1), 1);
    assert_eq!(calc_reward(1, 3, 2, 2), 2);
    assert_eq!(calc_reward(1, 3, 2, 3), 3);
    assert_eq!(calc_reward(1, 3, 2, 4), 4);
    assert_eq!(calc_reward(1, 3, 2, 5), 6);
}

#[test]
fn reward_first_head_pays_the_coin() {
    assert_eq!(calc_reward(1, 7, 4, 1), 1);
    assert_eq!(calc_reward(u64::MAX, 1000, 3, 1), u64::MAX);
    assert_eq!(calc_reward(0, 3, 2, 1), 0);
}

#[test]
fn reward_saturates_at_u64_max() {
    // ceil(10^2) * u64::MAX does not fit a u64.
    assert_eq!(calc_reward(u64::MAX, 10, 1, 3), u64::MAX);
    // 2^199 overflows even the u128 working width.
    assert_eq!(calc_reward(1, 2, 1, 200), u64::MAX);
}

#[test]
fn reward_huge_streak_with_unit_multiplier() {
    // 1^e never overflows, whatever the exponent.
    assert_eq!(calc_reward(42, 1, 1, 1_000_000), 42);
}

#[test]
fn reward_caps_when_powers_leave_the_working_width() {
    // 5/5 is worth one, but 5^99 overflows the u128 working width, so the
    // result is the saturation cap rather than the ideal 42.
    assert_eq!(calc_reward(42, 5, 5, 100), u64::MAX);
}

#[test]
fn reward_non_decreasing_in_streak() {
    let mut prev: u64 = 0;
    let mut n: u64 = 1;
    while n <= 30 {
        let r = calc_reward(3, 7, 4, n);
        assert!(r >= prev);
        prev = r;
        n += 1;
    }
}

#[test]
fn reward_is_deterministic() {
    let a = calc_reward(123, 17, 5, 9);
    let b = calc_reward(123, 17, 5, 9);
    assert_eq!(a, b);
}
