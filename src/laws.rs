use crate::game::{
    advance_model, consistent, drain_model, game_over_model, initial_model, input_model,
    lemma_advance_consistent, lemma_game_over_well_formed, move_model, place_food_model,
    raise_game_over, well_formed, after_search, drain_outcome, first_pass, GameModel, Spawns,
};
use crate::grid::{opposite_of, Direction, Keys};
use vstd::prelude::*;

verus! {

/// After every tick and the handling of the signals it raised, the occupancy
/// holds exactly the snake's cells, tail first, so it is as long as the snake.
pub proof fn lemma_tick_keeps_occupancy(m: GameModel, spawns: Spawns)
    requires
        well_formed(m),
        drain_outcome(advance_model(m), spawns),
    ensures
        well_formed(drain_model(advance_model(m), spawns)),
        drain_model(advance_model(m), spawns).occupied == drain_model(
            advance_model(m),
            spawns,
        ).segments.reverse(),
        drain_model(advance_model(m), spawns).occupied.len() == drain_model(
            advance_model(m),
            spawns,
        ).segments.len(),
{
    let a = advance_model(m);
    lemma_advance_consistent(m);
    lemma_game_over_well_formed(a);
    let g = game_over_model(a);
    let placed = after_search(g, spawns.first);
    assert(consistent(placed));
    lemma_game_over_well_formed(placed);
    let f = first_pass(a, spawns);
    let again = after_search(f, spawns.retry);
    assert(consistent(again));
    lemma_game_over_well_formed(again);
}

/// Input never queues the reverse of the current direction, and neither does
/// a tick.
pub proof fn lemma_queue_never_reverses(m: GameModel, keys: Keys)
    requires
        well_formed(m),
    ensures
        input_model(m, keys).queued != opposite_of(input_model(m, keys).direction),
        advance_model(m).queued != opposite_of(advance_model(m).direction),
{
    lemma_advance_consistent(m);
}

/// However often a game over is raised before it is handled, it is handled
/// by one reset, and handling it leaves none pending.
pub proof fn lemma_game_over_resets_once(m: GameModel)
    ensures
        raise_game_over(raise_game_over(m)) == raise_game_over(m),
        game_over_model(raise_game_over(m)) == initial_model(m.width, m.height),
        !game_over_model(m).signals.game_over,
        game_over_model(game_over_model(m)) == game_over_model(m),
{
}

/// A head on the board's edge that steps off it ends the game, and the tick
/// leaves the board in its starting layout.
pub proof fn lemma_wall_ends_game(m: GameModel)
    requires
        well_formed(m),
        m.segments.len() > 0,
        ({
            let h = m.segments[0];
            ||| h.x == m.width - 1 && m.queued == Direction::Right
            ||| h.x == 0 && m.queued == Direction::Left
            ||| h.y == m.height - 1 && m.queued == Direction::Up
            ||| h.y == 0 && m.queued == Direction::Down
        }),
    ensures
        move_model(m).signals.game_over,
        advance_model(m).signals.game_over,
        game_over_model(advance_model(m)) == initial_model(m.width, m.height),
{
}

} // verus!
