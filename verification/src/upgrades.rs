//! The upgrade table and the state that points into it.
//!
//! The table is a fixed, ordered sequence of tiers, each pairing a
//! heads-probability (in hundredths) with its purchase cost (in cents),
//! both strictly increasing with the index. The upgrade state holds the
//! index of the tier that is currently active.
use vstd::prelude::*;

verus! {

/// How many tiers the upgrade table holds.
pub const NUM_PHEADS_UPGRADES: usize = 9;

/// One entry of the upgrade table: a heads-probability in hundredths,
/// paired with its purchase cost in cents.
#[derive(Debug, Clone, Copy, PartialEq, Eq, Structural)]
pub struct PHeadsUpgrade {
    pub prob: u64,
    pub cost: u64,
}

/// The heads-probability of tier `i`, in hundredths.
pub open spec fn tier_prob(i: int) -> u64
    recommends
        0 <= i < NUM_PHEADS_UPGRADES,
{
    if i == 0 {
        20
    } else if i == 1 {
        25
    } else if i == 2 {
        30
    } else if i == 3 {
        35
    } else if i == 4 {
        40
    } else if i == 5 {
        45
    } else if i == 6 {
        50
    } else if i == 7 {
        55
    } else {
        60
    }
}

/// The purchase cost of tier `i`, in cents.
pub open spec fn tier_cost(i: int) -> u64
    recommends
        0 <= i < NUM_PHEADS_UPGRADES,
{
    if i == 0 {
        0
    } else if i == 1 {
        1
    } else if i == 2 {
        10
    } else if i == 3 {
        100
    } else if i == 4 {
        1000
    } else if i == 5 {
        10000
    } else if i == 6 {
        100000
    } else if i == 7 {
        1000000
    } else {
        10000000
    }
}

/// Looks a tier up in the fixed upgrade table.
pub fn pheads_upgrade(i: usize) -> (t: PHeadsUpgrade)
    requires
        i < NUM_PHEADS_UPGRADES,
    ensures
        t.prob == tier_prob(i as int),
        t.cost == tier_cost(i as int),
{
    if i == 0 {
        PHeadsUpgrade { prob: 20, cost: 0 }
    } else if i == 1 {
        PHeadsUpgrade { prob: 25, cost: 1 }
    } else if i == 2 {
        PHeadsUpgrade { prob: 30, cost: 10 }
    } else if i == 3 {
        PHeadsUpgrade { prob: 35, cost: 100 }
    } else if i == 4 {
        PHeadsUpgrade { prob: 40, cost: 1000 }
    } else if i == 5 {
        PHeadsUpgrade { prob: 45, cost: 10000 }
    } else if i == 6 {
        PHeadsUpgrade { prob: 50, cost: 100000 }
    } else if i == 7 {
        PHeadsUpgrade { prob: 55, cost: 1000000 }
    } else {
        PHeadsUpgrade { prob: 60, cost: 10000000 }
    }
}

/// The table is sorted: probability and cost both rise strictly with the
/// index.
pub proof fn lemma_tiers_sorted(i: int, j: int)
    requires
        0 <= i,
        i < j,
        j < NUM_PHEADS_UPGRADES,
    ensures
        tier_prob(i) < tier_prob(j),
        tier_cost(i) < tier_cost(j),
{
}

/// Tracks which upgrades are active: an index into the fixed tier table.
#[derive(Debug, Clone, Copy, PartialEq, Eq, Structural)]
pub struct PHeadsUpgradeState {
    pub p_heads_idx: usize,
}

impl PHeadsUpgradeState {
    /// The active index points inside the table.
    pub open spec fn wf(self) -> bool {
        self.p_heads_idx < NUM_PHEADS_UPGRADES
    }

    /// Starting state: the lowest tier is active.
    pub fn new() -> (s: Self)
        ensures
            s.p_heads_idx == 0,
            s.wf(),
    {
        PHeadsUpgradeState { p_heads_idx: 0 }
    }

    /// Whether a further tier exists above the active one.
    pub fn can_upgrade(&self) -> (r: bool)
        ensures
            r == (self.p_heads_idx < NUM_PHEADS_UPGRADES - 1),
    {
        self.p_heads_idx < NUM_PHEADS_UPGRADES - 1
    }
}

} // verus!
