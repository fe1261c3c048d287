use vstd::prelude::*;
use crate::actions::{actor_check, check_actor, lemma_the_one, outcome_is, the_one};
use crate::rules::{count, find_by_name, night_after_seer, phase_after_seer, Criterion};
use crate::strmap::StrMap;
use crate::types::{
    contains_string, players_view, role_name, strings_view, ActionError, AttributesView,
    ErrorKind, GameState, GameView, Phase, PhaseName, PhaseView, Player, PlayerRole, PlayerView,
};

verus! {

pub open spec fn opt_view(o: Option<String>) -> Option<Seq<char>> {
    match o {
        Some(s) => Some(s@),
        None => None,
    }
}

/// `p`, with the Seer allowed to see them.
pub open spec fn seen(p: PlayerView) -> PlayerView {
    PlayerView {
        id: p.id,
        name: p.name,
        secret: p.secret,
        attributes: AttributesView {
            role: p.attributes.role,
            team: p.attributes.team,
            alive: p.attributes.alive,
            visible_to: p.attributes.visible_to.push(role_name(PlayerRole::Seer)),
        },
    }
}

/// The players after the Seer looks at `target`, or passes.
pub open spec fn seer_target_outcome(ps: Seq<PlayerView>, target: Option<Seq<char>>) -> Result<Seq<PlayerView>, ErrorKind> {
    match target {
        None => Ok(ps),
        Some(t) => {
            if count(ps, Criterion::WithName(t)) != 1 {
                Err(ErrorKind::InvalidTarget)
            } else {
                let k = the_one(ps, Criterion::WithName(t));
                if !ps[k].attributes.alive {
                    Err(ErrorKind::InvalidTarget)
                } else if ps[k].attributes.visible_to.contains(role_name(PlayerRole::Seer)) {
                    Err(ErrorKind::AlreadySeen)
                } else {
                    Ok(ps.update(k, seen(ps[k])))
                }
            }
        },
    }
}

/// The Seer looks at a player, or passes; then the Bodyguard's phase, or
/// the werewolves'.
pub open spec fn seer_outcome(s: GameView, actor: Seq<char>, target: Option<Seq<char>>) -> Result<GameView, ErrorKind> {
    match actor_check(s, actor, PhaseName::Seer, PlayerRole::Seer) {
        Some(e) => Err(e),
        None => match seer_target_outcome(s.players, target) {
            Err(e) => Err(e),
            Ok(ps) => Ok(
                GameView {
                    players: ps,
                    phase: PhaseView { name: night_after_seer(ps), data: Map::empty() },
                    ..s
                },
            ),
        },
    }
}

/// Outside the Seer's phase, the Seer's action by a player of the game is
/// refused as out of turn, whatever its target.
pub proof fn lemma_seer_out_of_turn(s: GameView, actor: Seq<char>, target: Option<Seq<char>>)
    requires
        count(s.players, Criterion::WithId(actor)) == 1,
        s.phase.name != PhaseName::Seer,
    ensures
        seer_outcome(s, actor, target) == Err::<GameView, ErrorKind>(ErrorKind::NotYourTurn),
{
}

/// The players after the Seer looks at `see_player_name`, or passes.
pub fn get_new_players(see_player_name: Option<String>, game_state: GameState) -> (r: Result<Vec<Player>, ActionError>)
    ensures
        match r {
            Ok(v) => seer_target_outcome(game_state@.players, opt_view(see_player_name)) == Ok::<Seq<PlayerView>, ErrorKind>(players_view(v@)),
            Err(e) => seer_target_outcome(game_state@.players, opt_view(see_player_name)) == Err::<Seq<PlayerView>, ErrorKind>(e.kind),
        },
{
    let mut players = game_state.players;
    let ghost ps = players_view(players@);
    match see_player_name {
        None => Ok(players),
        Some(name) => {
            let k = match find_by_name(&players, &name) {
                None => {
                    return Err(ActionError::new(ErrorKind::InvalidTarget, "Invalid player to see!"));
                },
                Some(k) => k,
            };
            proof {
                lemma_the_one(ps, Criterion::WithName(name@), k as int);
            }
            if !players[k].attributes.alive {
                return Err(ActionError::new(ErrorKind::InvalidTarget, "Invalid player to see!"));
            }
            if contains_string(&players[k].attributes.visible_to, "Seer") {
                return Err(ActionError::new(ErrorKind::AlreadySeen, "Player is already seen!"));
            }
            let mut p = players[k].clone();
            p.attributes.visible_to.push(String::from_str("Seer"));
            proof {
                assert(strings_view(p.attributes.visible_to@) =~= ps[k as int].attributes.visible_to.push(
                    role_name(PlayerRole::Seer),
                ));
            }
            players.set(k, p);
            proof {
                assert(players_view(players@) =~= ps.update(k as int, seen(ps[k as int])));
            }
            Ok(players)
        },
    }
}

pub fn handle_seer(game_state: GameState, actor_id: &String, player: Option<String>) -> (r: Result<GameState, ActionError>)
    ensures
        outcome_is(r, seer_outcome(game_state@, actor_id@, opt_view(player))),
{
    let mut game_state = game_state;
    if let Err(e) = check_actor(&game_state, actor_id, PhaseName::Seer, PlayerRole::Seer) {
        return Err(e);
    }
    let players = match get_new_players(player, game_state.clone()) {
        Err(e) => {
            return Err(e);
        },
        Ok(v) => v,
    };
    let next = phase_after_seer(&players);
    game_state.players = players;
    game_state.phase = Phase { name: next, data: StrMap::new() };
    Ok(game_state)
}

} // verus!
