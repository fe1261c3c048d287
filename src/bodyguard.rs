use vstd::prelude::*;
use crate::actions::{actor_check, actor_of, check_actor, lemma_the_one, named, outcome_is};
use crate::rules::{count, find_by_name, Criterion};
use crate::strmap::{value_or_empty, StrMap};
use crate::types::{ActionError, ErrorKind, GameState, GameView, Phase, PhaseName, PhaseView, PlayerRole};
use crate::visibility::last_guarded_key;

verus! {

/// The Bodyguard protects a living player other than themself and other
/// than the one they protected last; then the werewolves' phase.
pub open spec fn bodyguard_outcome(s: GameView, actor: Seq<char>, target: Seq<char>) -> Result<GameView, ErrorKind> {
    match actor_check(s, actor, PhaseName::Bodyguard, PlayerRole::Bodyguard) {
        Some(e) => Err(e),
        None => {
            if count(s.players, Criterion::WithName(target)) != 1 || !named(s, target).attributes.alive
                || target == actor_of(s, actor).name || value_or_empty(s.internal_state, last_guarded_key())
                == target {
                Err(ErrorKind::InvalidTarget)
            } else {
                Ok(
                    GameView {
                        internal_state: map![last_guarded_key() => target],
                        phase: PhaseView { name: PhaseName::Werewolf, data: Map::empty() },
                        ..s
                    },
                )
            }
        },
    }
}

pub fn handle_bodyguard(game_state: GameState, actor_id: &String, player: &String) -> (r: Result<GameState, ActionError>)
    ensures
        outcome_is(r, bodyguard_outcome(game_state@, actor_id@, player@)),
{
    let mut game_state = game_state;
    let ghost s = game_state@;
    let a = match check_actor(&game_state, actor_id, PhaseName::Bodyguard, PlayerRole::Bodyguard) {
        Err(e) => {
            return Err(e);
        },
        Ok(a) => a,
    };
    let t = match find_by_name(&game_state.players, player) {
        None => {
            return Err(ActionError::new(ErrorKind::InvalidTarget, "Invalid player to protect!"));
        },
        Some(t) => t,
    };
    proof {
        lemma_the_one(s.players, Criterion::WithName(player@), t as int);
    }
    if !game_state.players[t].attributes.alive {
        return Err(ActionError::new(ErrorKind::InvalidTarget, "Invalid player to protect!"));
    }
    let key = String::from_str("last_guarded");
    let last = game_state.internal_state.get_or_empty(&key);
    if *player == game_state.players[a].name || last == *player {
        return Err(ActionError::new(ErrorKind::InvalidTarget, "Invalid player to protect!"));
    }
    game_state.internal_state = StrMap::singleton(key, player.clone());
    game_state.phase = Phase { name: PhaseName::Werewolf, data: StrMap::new() };
    Ok(game_state)
}

} // verus!
