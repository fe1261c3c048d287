use vstd::prelude::*;
use crate::actions::{actor_check, check_actor, entering, outcome_is};
use crate::rules::{next_night_phase, night_after_day};
use crate::strmap::StrMap;
use crate::types::{ActionError, ErrorKind, GameState, GameView, Phase, PhaseName, PlayerRole};

verus! {

/// The Mod ends the day without a lynching: night falls.
pub open spec fn sleep_outcome(s: GameView, actor: Seq<char>) -> Result<GameView, ErrorKind> {
    match actor_check(s, actor, PhaseName::Day, PlayerRole::Mod) {
        Some(e) => Err(e),
        None => Ok(entering(s, night_after_day(s.players))),
    }
}

pub fn handle_sleep(game_state: GameState, actor_id: &String) -> (r: Result<GameState, ActionError>)
    ensures
        outcome_is(r, sleep_outcome(game_state@, actor_id@)),
{
    let mut game_state = game_state;
    if let Err(e) = check_actor(&game_state, actor_id, PhaseName::Day, PlayerRole::Mod) {
        return Err(e);
    }
    let next = next_night_phase(&game_state.players);
    game_state.phase = Phase { name: next, data: StrMap::new() };
    Ok(game_state)
}

} // verus!
