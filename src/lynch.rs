use vstd::prelude::*;
use crate::actions::{
    actor_check, check_actor, kill_player, killed, lemma_the_one, named, outcome_is, the_one,
};
use crate::rules::{
    count, find_by_name, next_night_phase, night_after_day, phase_after_death, resolve_death,
    Criterion,
};
use crate::types::{ActionError, ErrorKind, GameState, GameView, PhaseName, PlayerRole};

verus! {

/// The Mod lynches the player called `target` by day: they die, and the game
/// ends if a side has won, else night falls.
pub open spec fn lynch_outcome(s: GameView, actor: Seq<char>, target: Seq<char>) -> Result<GameView, ErrorKind> {
    match actor_check(s, actor, PhaseName::Day, PlayerRole::Mod) {
        Some(e) => Err(e),
        None => {
            if count(s.players, Criterion::WithName(target)) != 1 {
                Err(ErrorKind::InvalidTarget)
            } else if !named(s, target).attributes.alive {
                Err(ErrorKind::AlreadyDead)
            } else {
                let ps = s.players.update(
                    the_one(s.players, Criterion::WithName(target)),
                    killed(named(s, target)),
                );
                Ok(GameView { players: ps, phase: phase_after_death(ps, night_after_day(ps)), ..s })
            }
        },
    }
}

pub fn handle_lynch(game_state: GameState, actor_id: &String, player: &String) -> (r: Result<GameState, ActionError>)
    ensures
        outcome_is(r, lynch_outcome(game_state@, actor_id@, player@)),
{
    let mut game_state = game_state;
    let ghost s = game_state@;
    if let Err(e) = check_actor(&game_state, actor_id, PhaseName::Day, PlayerRole::Mod) {
        return Err(e);
    }
    let t = match find_by_name(&game_state.players, player) {
        None => {
            return Err(ActionError::new(ErrorKind::InvalidTarget, "Invalid player to lynch!"));
        },
        Some(t) => t,
    };
    proof {
        lemma_the_one(s.players, Criterion::WithName(player@), t as int);
    }
    if !game_state.players[t].attributes.alive {
        return Err(ActionError::new(ErrorKind::AlreadyDead, "Player is already dead!"));
    }
    kill_player(&mut game_state.players, t);
    let next = next_night_phase(&game_state.players);
    game_state.phase = resolve_death(&game_state.players, next);
    Ok(game_state)
}

} // verus!
