use vstd::prelude::*;
use crate::actions::{
    actor_check, actor_of, check_actor, entering, kill_player, killed, lemma_the_one, named,
    outcome_is, the_one,
};
use crate::rules::{
    count, find_by_name, living_players_with_role, phase_after_death, resolve_death, Criterion,
};
use crate::strmap::{value_or_empty, StrMap};
use crate::types::{
    ActionError, ErrorKind, GameState, GameView, Phase, PhaseName, PhaseView, PlayerRole,
    PlayerTeam,
};
use crate::visibility::last_guarded_key;

verus! {

/// The votes once the acting werewolf's vote for `target` is recorded; a
/// werewolf's later vote replaces their earlier one.
pub open spec fn votes_after(s: GameView, actor: Seq<char>, target: Seq<char>) -> Map<Seq<char>, Seq<char>> {
    s.phase.data.insert(actor_of(s, actor).name, target)
}

pub open spec fn unanimous(votes: Map<Seq<char>, Seq<char>>, target: Seq<char>) -> bool {
    forall|k: Seq<char>| #[trigger] votes.contains_key(k) ==> votes[k] == target
}

/// Whether a living Bodyguard last protected `target`.
pub open spec fn kill_prevented(s: GameView, target: Seq<char>) -> bool {
    value_or_empty(s.internal_state, last_guarded_key()) == target && count(
        s.players,
        Criterion::LivingWithRole(PlayerRole::Bodyguard),
    ) > 0
}

/// A werewolf votes to eat a living player of the Good team. Once every
/// living werewolf has voted: if all chose this target and no living
/// Bodyguard protected them, they die and the game ends or day breaks;
/// otherwise day breaks with no death. Until then the votes are kept.
pub open spec fn werewolf_outcome(s: GameView, actor: Seq<char>, target: Seq<char>) -> Result<GameView, ErrorKind> {
    match actor_check(s, actor, PhaseName::Werewolf, PlayerRole::Werewolf) {
        Some(e) => Err(e),
        None => {
            if count(s.players, Criterion::WithName(target)) != 1 || !named(s, target).attributes.alive
                || named(s, target).attributes.team != PlayerTeam::Good {
                Err(ErrorKind::InvalidTarget)
            } else {
                let votes = votes_after(s, actor, target);
                if votes.len() != count(s.players, Criterion::LivingWithRole(PlayerRole::Werewolf)) {
                    Ok(GameView { phase: PhaseView { name: PhaseName::Werewolf, data: votes }, ..s })
                } else if !unanimous(votes, target) || kill_prevented(s, target) {
                    Ok(entering(s, PhaseName::Day))
                } else {
                    let ps = s.players.update(
                        the_one(s.players, Criterion::WithName(target)),
                        killed(named(s, target)),
                    );
                    Ok(GameView { players: ps, phase: phase_after_death(ps, PhaseName::Day), ..s })
                }
            }
        },
    }
}

pub fn handle_werewolf(game_state: GameState, actor_id: &String, player: &String) -> (r: Result<GameState, ActionError>)
    ensures
        outcome_is(r, werewolf_outcome(game_state@, actor_id@, player@)),
{
    let mut game_state = game_state;
    let ghost s = game_state@;
    let a = match check_actor(&game_state, actor_id, PhaseName::Werewolf, PlayerRole::Werewolf) {
        Err(e) => {
            return Err(e);
        },
        Ok(a) => a,
    };
    let t = match find_by_name(&game_state.players, player) {
        None => {
            return Err(ActionError::new(ErrorKind::InvalidTarget, "Invalid player to eat!"));
        },
        Some(t) => t,
    };
    proof {
        lemma_the_one(s.players, Criterion::WithName(player@), t as int);
    }
    if !game_state.players[t].attributes.alive {
        return Err(ActionError::new(ErrorKind::InvalidTarget, "Invalid player to eat!"));
    }
    if game_state.players[t].attributes.team != PlayerTeam::Good {
        return Err(ActionError::new(ErrorKind::InvalidTarget, "Invalid player to eat!"));
    }
    let voter = game_state.players[a].name.clone();
    game_state.phase.data.insert(voter, player.clone());
    let wolves = living_players_with_role(PlayerRole::Werewolf, &game_state.players);
    if game_state.phase.data.len() != wolves {
        return Ok(game_state);
    }
    let all_agree = game_state.phase.data.all_values_equal(player);
    let guarded = game_state.internal_state.get_or_empty(&String::from_str("last_guarded"));
    let protected = guarded == *player && living_players_with_role(
        PlayerRole::Bodyguard,
        &game_state.players,
    ) > 0;
    if !all_agree || protected {
        game_state.phase = Phase { name: PhaseName::Day, data: StrMap::new() };
        return Ok(game_state);
    }
    kill_player(&mut game_state.players, t);
    game_state.phase = resolve_death(&game_state.players, PhaseName::Day);
    Ok(game_state)
}

/// A night on which the werewolves agree to eat the player a living
/// Bodyguard last protected ends with no death: every player keeps their
/// state, and day breaks.
pub proof fn lemma_guarded_target_survives(s: GameView, actor: Seq<char>, target: Seq<char>)
    requires
        werewolf_outcome(s, actor, target) is Ok,
        count(s.players, Criterion::LivingWithRole(PlayerRole::Bodyguard)) > 0,
        value_or_empty(s.internal_state, last_guarded_key()) == target,
        votes_after(s, actor, target).len() == count(
            s.players,
            Criterion::LivingWithRole(PlayerRole::Werewolf),
        ),
    ensures
        ({
            let r = werewolf_outcome(s, actor, target)->Ok_0;
            &&& r.players == s.players
            &&& forall|i: int| 0 <= i < s.players.len()
                ==> #[trigger] r.players[i].attributes.alive == s.players[i].attributes.alive
            &&& r.phase.name == PhaseName::Day
        }),
{
}

} // verus!
