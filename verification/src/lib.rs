//! A verified simulator for a "streak" coin-flip game: flip a biased coin
//! until a run of consecutive heads reaches a target length, accruing an
//! escalating cash reward on every head.
//!
//! Quantities are held as plain integers so that every rule of the game can
//! be stated and proved exactly:
//!   - probabilities in hundredths (`0 ..= PROB_SCALE`),
//!   - money in cents,
//!   - the reward multiplier as a rational `m_num / m_den`,
//!   - in-game time in abstract ticks.
use vstd::prelude::*;

pub mod batch;
pub mod game;
pub mod rewards;
mod rng;
pub mod upgrades;

verus! {

/// Probabilities are measured in hundredths: `PROB_SCALE` stands for
/// certainty (probability 1), `0` for impossibility.
pub const PROB_SCALE: u64 = 100;

} // verus!
