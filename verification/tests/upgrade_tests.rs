//! Tests for the upgrade table and the upgrade state.
use streak_game::upgrades::NUM_PHEADS_UPGRADES;
use streak_game::upgrades::PHeadsUpgradeState;
use streak_game::upgrades::pheads_upgrade;

#[test]
fn test_upgrade_p_heads() {
    // Every index but the last can still upgrade.
    for idx in 0..8usize {
        let up = PHeadsUpgradeState { p_heads_idx: idx };
        assert!(up.can_upgrade());
    }
    let last = PHeadsUpgradeState { p_heads_idx: 8 };
    assert!(!last.can_upgrade());
}

#[test]
fn upgrade_state_starts_at_the_lowest_tier() {
    let up = PHeadsUpgradeState::new();
    assert_eq!(up.p_heads_idx, 0);
    assert!(up.can_upgrade());
}

#[test]
fn upgrade_table_values() {
    let probs: [u64; 9] = [20, 25, 30, 35, 40, 45, 50, 55, 60];
    let costs: [u64; 9] = [0, 1, 10, 100, 1000, 10000, 100000, 1000000, 10000000];
    for i in 0..NUM_PHEADS_UPGRADES {
        let t = pheads_upgrade(i);
        assert_eq!(t.prob, probs[i]);
        assert_eq!(t.cost, costs[i]);
    }
}

#[test]
fn upgrade_table_is_strictly_increasing() {
    for i in 1..NUM_PHEADS_UPGRADES {
        let lo = pheads_upgrade(i - 1);
        let hi = pheads_upgrade(i);
        assert!(lo.prob < hi.prob);
        assert!(lo.cost < hi.cost);
    }
}
