//! The single-game state machine: the per-flip transition and the
//! run-to-completion driver.
//!
//! A game flips a biased coin until a run of consecutive heads reaches a
//! target length. Each head pays a reward that escalates with the length of
//! the current streak; a tails outcome resets the streak and pays nothing.
//! The driver stops with `Won` once the streak reaches the target, or with
//! `Abandoned` once an iteration cap is exhausted, so a caller can always
//! tell the two apart.
use vstd::prelude::*;

verus! {

use crate::PROB_SCALE;
use crate::rewards::calc_reward;
use crate::rewards::reward_value;
use crate::rng::draw_below;
use crate::upgrades::PHeadsUpgradeState;

/// Addition on cash amounts, saturating at `u64::MAX`.
pub open spec fn sat_add_u64(a: nat, b: nat) -> nat {
    if a + b > u64::MAX {
        u64::MAX as nat
    } else {
        a + b
    }
}

/// Holds the state for a game.
///
/// Probabilities are in hundredths, money in cents, time in abstract ticks;
/// the reward multiplier is the rational `m_num / m_den`.
#[derive(Debug, Clone, Copy, PartialEq, Eq, Structural)]
pub struct Game {
    /// The probability of flipping heads, in hundredths.
    pub p_heads: u64,
    /// How many ticks of game time one flip takes.
    pub flip_time: u64,
    /// How long this game has been running, in ticks.
    pub total_time: u128,
    /// How many times the coin was flipped this game.
    pub n_flips: u64,
    /// How many heads in a row; the game is won on reaching the target.
    pub n_heads_in_a_row: u64,
    /// Base value of the coin, in cents.
    pub coin_val: u64,
    /// Numerator of the reward multiplier.
    pub m_num: u64,
    /// Denominator of the reward multiplier.
    pub m_den: u64,
    /// Cash earned so far, in cents, saturating at `u64::MAX`.
    pub cash: u64,
    /// Current status of upgrades.
    pub upgrades: PHeadsUpgradeState,
}

/// The parameters a game can be built from: a probability within scale, at
/// least one tick per flip, a coin worth at least a cent, and a multiplier
/// of at least one.
pub open spec fn valid_params(
    p_heads: u64,
    flip_time: u64,
    coin_val: u64,
    m_num: u64,
    m_den: u64,
) -> bool {
    &&& p_heads <= PROB_SCALE
    &&& flip_time >= 1
    &&& coin_val >= 1
    &&& m_den >= 1
    &&& m_num >= m_den
}

/// The starting state of the default game: a 30% heads probability, two
/// ticks per flip, a one-cent coin, a 3/2 multiplier, and no upgrades.
pub open spec fn initial_game() -> Game {
    Game {
        p_heads: 30,
        flip_time: 2,
        total_time: 0,
        n_flips: 0,
        n_heads_in_a_row: 0,
        coin_val: 1,
        m_num: 3,
        m_den: 2,
        cash: 0,
        upgrades: PHeadsUpgradeState { p_heads_idx: 0 },
    }
}

/// Two states agree on everything a flip never touches: the configuration
/// parameters and the upgrade state.
pub open spec fn same_config(a: Game, b: Game) -> bool {
    &&& a.p_heads == b.p_heads
    &&& a.flip_time == b.flip_time
    &&& a.coin_val == b.coin_val
    &&& a.m_num == b.m_num
    &&& a.m_den == b.m_den
    &&& a.upgrades == b.upgrades
}

/// A heads outcome: the streak grows by one and the reward for its new
/// length is added to the cash, saturating at `u64::MAX`.
pub open spec fn heads_outcome(pre: Game, post: Game) -> bool {
    &&& post.n_heads_in_a_row == pre.n_heads_in_a_row + 1
    &&& post.cash == sat_add_u64(
        pre.cash as nat,
        reward_value(
            pre.coin_val as nat,
            pre.m_num as nat,
            pre.m_den as nat,
            (pre.n_heads_in_a_row + 1) as nat,
        ),
    )
}

/// A tails outcome: the streak resets and the cash is untouched.
pub open spec fn tails_outcome(pre: Game, post: Game) -> bool {
    &&& post.n_heads_in_a_row == 0
    &&& post.cash == pre.cash
}

/// The terminal outcome of a driven game: either the target streak was
/// reached, or the iteration cap ran out first. Both carry a snapshot of
/// the terminal state.
#[derive(Debug, Clone, Copy, PartialEq, Eq, Structural)]
pub enum PlayOutcome {
    /// The streak reached the target.
    Won(Game),
    /// The iteration cap was exhausted without the win check passing.
    Abandoned(Game),
}

impl PlayOutcome {
    /// The terminal snapshot carried by either outcome.
    pub open spec fn state(self) -> Game {
        match self {
            PlayOutcome::Won(g) => g,
            PlayOutcome::Abandoned(g) => g,
        }
    }

    /// Whether the game was won.
    pub open spec fn is_won(self) -> bool {
        self matches PlayOutcome::Won(_)
    }

    /// The terminal snapshot, for callers outside the library.
    pub fn into_state(self) -> (g: Game)
        ensures
            g == self.state(),
    {
        match self {
            PlayOutcome::Won(g) => g,
            PlayOutcome::Abandoned(g) => g,
        }
    }

    /// Whether the game was won, for callers outside the library.
    pub fn won(&self) -> (r: bool)
        ensures
            r == self.is_won(),
    {
        match self {
            PlayOutcome::Won(_) => true,
            PlayOutcome::Abandoned(_) => false,
        }
    }
}

impl Game {
    /// The state invariant: the configuration is valid, the upgrade index
    /// points inside the table, and the elapsed time is exactly the flip
    /// count times the duration of one flip.
    pub open spec fn wf(self) -> bool {
        &&& valid_params(self.p_heads, self.flip_time, self.coin_val, self.m_num, self.m_den)
        &&& self.upgrades.wf()
        &&& self.total_time == self.n_flips * self.flip_time
    }

    /// Start a new game with the default parameters.
    pub fn new() -> (g: Game)
        ensures
            g == initial_game(),
            g.wf(),
    {
        Game {
            p_heads: 30,
            flip_time: 2,
            total_time: 0,
            n_flips: 0,
            n_heads_in_a_row: 0,
            coin_val: 1,
            m_num: 3,
            m_den: 2,
            cash: 0,
            upgrades: PHeadsUpgradeState::new(),
        }
    }

    /// Build a game from explicit parameters, rejecting an invalid
    /// configuration: a probability beyond `PROB_SCALE`, a zero flip
    /// duration or coin value, or a multiplier below one.
    pub fn with_params(
        p_heads: u64,
        flip_time: u64,
        coin_val: u64,
        m_num: u64,
        m_den: u64,
    ) -> (r: Option<Game>)
        ensures
            r is Some <==> valid_params(p_heads, flip_time, coin_val, m_num, m_den),
            r matches Some(g) ==> g == (Game {
                p_heads,
                flip_time,
                total_time: 0,
                n_flips: 0,
                n_heads_in_a_row: 0,
                coin_val,
                m_num,
                m_den,
                cash: 0,
                upgrades: PHeadsUpgradeState { p_heads_idx: 0 },
            }) && g.wf(),
    {
        if p_heads <= PROB_SCALE && flip_time >= 1 && coin_val >= 1 && m_den >= 1
            && m_num >= m_den {
            Some(
                Game {
                    p_heads,
                    flip_time,
                    total_time: 0,
                    n_flips: 0,
                    n_heads_in_a_row: 0,
                    coin_val,
                    m_num,
                    m_den,
                    cash: 0,
                    upgrades: PHeadsUpgradeState::new(),
                },
            )
        } else {
            None
        }
    }

    /// Flip the coin once, properly managing state: time and the flip count
    /// always advance; a heads outcome grows the streak and pays its
    /// reward, a tails outcome resets the streak. Certainty is honoured:
    /// with the probability at full scale every flip is heads, with it at
    /// zero every flip is tails. Cash never shrinks.
    pub fn flip(&mut self)
        requires
            old(self).wf(),
            old(self).n_flips < u64::MAX,
            old(self).n_heads_in_a_row < u64::MAX,
        ensures
            final(self).wf(),
            same_config(*old(self), *final(self)),
            final(self).n_flips == old(self).n_flips + 1,
            final(self).total_time == old(self).total_time + old(self).flip_time,
            heads_outcome(*old(self), *final(self)) || tails_outcome(*old(self), *final(self)),
            old(self).p_heads == PROB_SCALE ==> heads_outcome(*old(self), *final(self)),
            old(self).p_heads == 0 ==> tails_outcome(*old(self), *final(self)),
            final(self).cash >= old(self).cash,
    {
        proof {
            let n = old(self).n_flips as int;
            let ft = old(self).flip_time as int;
            assert((n + 1) * ft == n * ft + ft) by (nonlinear_arith);
            assert((n + 1) * ft <= 0x1_0000_0000_0000_0000 * 0xffff_ffff_ffff_ffff)
                by (nonlinear_arith)
                requires
                    0 <= n + 1 <= 0x1_0000_0000_0000_0000,
                    0 <= ft <= 0xffff_ffff_ffff_ffff,
            ;
        }
        self.total_time = self.total_time + (self.flip_time as u128);
        self.n_flips = self.n_flips + 1;

        let rand_val = draw_below(PROB_SCALE);
        if rand_val < self.p_heads {
            // Heads: extend the streak and pay the reward for its new length.
            self.n_heads_in_a_row = self.n_heads_in_a_row + 1;
            let reward = calc_reward(self.coin_val, self.m_num, self.m_den, self.n_heads_in_a_row);
            self.cash = self.cash.saturating_add(reward);
        } else {
            // Tails: the streak is over.
            self.n_heads_in_a_row = 0;
        }
    }

    /// Flip the coin until `n_win` heads in a row are reached, but at most
    /// `max_iters` times. The win check runs before each flip, so a game
    /// that starts at or above the target is won unflipped. The result
    /// distinguishes a win from an abandoned run and carries the terminal
    /// snapshot; with certain heads a fresh enough game wins in exactly
    /// `n_win` flips, with certain tails it never wins and stops at the cap
    /// with an empty streak and untouched cash.
    pub fn play(&mut self, n_win: u64, max_iters: u64) -> (r: PlayOutcome)
        requires
            old(self).wf(),
            old(self).n_flips + max_iters <= u64::MAX,
        ensures
            final(self).wf(),
            same_config(*old(self), *final(self)),
            r.state() == *final(self),
            final(self).cash >= old(self).cash,
            final(self).n_flips >= old(self).n_flips,
            r.is_won() ==> final(self).n_heads_in_a_row >= n_win
                && final(self).n_flips < old(self).n_flips + max_iters,
            !r.is_won() ==> final(self).n_flips == old(self).n_flips + max_iters,
            max_iters >= 1 && old(self).n_heads_in_a_row >= n_win
                ==> r == PlayOutcome::Won(*old(self)) && *final(self) == *old(self),
            old(self).p_heads == PROB_SCALE && old(self).n_heads_in_a_row < n_win
                && n_win - old(self).n_heads_in_a_row < max_iters
                ==> r.is_won() && final(self).n_heads_in_a_row == n_win
                    && final(self).n_flips
                        == old(self).n_flips + (n_win - old(self).n_heads_in_a_row),
            old(self).p_heads == 0 && old(self).n_heads_in_a_row < n_win
                ==> !r.is_won() && final(self).cash == old(self).cash
                    && (max_iters >= 1 ==> final(self).n_heads_in_a_row == 0)
                    && (max_iters == 0 ==> *final(self) == *old(self)),
    {
        let mut i: u64 = 0;
        while i < max_iters
            invariant
                self.wf(),
                same_config(*old(self), *self),
                i <= max_iters,
                old(self).n_flips + max_iters <= u64::MAX,
                self.n_flips == old(self).n_flips + i,
                self.cash >= old(self).cash,
                i == 0 ==> *self == *old(self),
                old(self).n_heads_in_a_row >= n_win ==> i == 0,
                old(self).p_heads == PROB_SCALE && old(self).n_heads_in_a_row < n_win
                    ==> self.n_heads_in_a_row == old(self).n_heads_in_a_row + i
                        && old(self).n_heads_in_a_row + i <= n_win,
                old(self).p_heads == 0 ==> self.cash == old(self).cash
                    && (i >= 1 ==> self.n_heads_in_a_row == 0),
            decreases max_iters - i,
        {
            // Check for game completion before flipping.
            if self.n_heads_in_a_row >= n_win {
                return PlayOutcome::Won(*self);
            }

            // Flip the coin.
            self.flip();
            i = i + 1;
        }

        // The cap ran out before the win check ever passed.
        PlayOutcome::Abandoned(*self)
    }
}

/// In every well-formed game state, the elapsed in-game time is exactly the
/// number of flips times the duration of one flip.
pub proof fn lemma_time_invariant(g: Game)
    requires
        g.wf(),
    ensures
        g.total_time == g.n_flips * g.flip_time,
{
}

} // verus!
