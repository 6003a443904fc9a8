//! The batch driver: runs many independent games sequentially and collects
//! one terminal outcome per game, in completion order (which equals launch
//! order, as games run one at a time with no shared state).
use vstd::prelude::*;

verus! {

use crate::game::Game;
use crate::game::PlayOutcome;
use crate::game::initial_game;
use crate::game::same_config;

/// What holds of each collected outcome: a well-formed terminal snapshot of
/// a fresh default game, whose flip count tells a win (strictly under the
/// cap, with the target streak reached) from an abandoned run (exactly at
/// the cap).
pub open spec fn batch_outcome_ok(o: PlayOutcome, n_win: u64, max_iters: u64) -> bool {
    &&& o.state().wf()
    &&& same_config(initial_game(), o.state())
    &&& (o.is_won() ==> o.state().n_heads_in_a_row >= n_win && o.state().n_flips < max_iters)
    &&& (!o.is_won() ==> o.state().n_flips == max_iters)
}

/// Runs `n_games` independent games with the default starting parameters,
/// each driven to completion with target `n_win` and cap `max_iters`, and
/// collects the terminal outcomes in completion order.
pub fn run_batch(n_games: usize, n_win: u64, max_iters: u64) -> (r: Vec<PlayOutcome>)
    ensures
        r@.len() == n_games,
        forall|i: int| 0 <= i < n_games ==> batch_outcome_ok(#[trigger] r@[i], n_win, max_iters),
{
    let mut results: Vec<PlayOutcome> = Vec::new();
    let mut j: usize = 0;
    while j < n_games
        invariant
            j <= n_games,
            results@.len() == j,
            forall|i: int| 0 <= i < j ==> batch_outcome_ok(#[trigger] results@[i], n_win, max_iters),
        decreases n_games - j,
    {
        let mut game_state = Game::new();
        let end_game = game_state.play(n_win, max_iters);
        results.push(end_game);
        j = j + 1;
    }
    results
}

} // verus!
