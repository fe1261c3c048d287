use vstd::prelude::*;
use crate::rules::{count, find_by_id, lemma_count_at_least_two, meets, Criterion};
use crate::types::{
    players_view, ActionError, AttributesView, ErrorKind, GameState, GameView, Player, PhaseName,
    PlayerRole, PlayerView,
};

verus! {

/// The index of the player meeting `c`, where exactly one does.
pub open spec fn the_one(ps: Seq<PlayerView>, c: Criterion) -> int {
    choose|i: int| 0 <= i < ps.len() && meets(ps[i], c)
}

pub proof fn lemma_the_one(ps: Seq<PlayerView>, c: Criterion, i: int)
    requires
        count(ps, c) == 1,
        0 <= i < ps.len(),
        meets(ps[i], c),
    ensures
        the_one(ps, c) == i,
{
    let j = the_one(ps, c);
    if j != i {
        lemma_count_at_least_two(ps, c, i, j);
    }
}

/// The player acting on connection `actor`, where exactly one does.
pub open spec fn actor_of(s: GameView, actor: Seq<char>) -> PlayerView {
    s.players[the_one(s.players, Criterion::WithId(actor))]
}

/// The player called `name`, where exactly one is.
pub open spec fn named(s: GameView, name: Seq<char>) -> PlayerView {
    s.players[the_one(s.players, Criterion::WithName(name))]
}

/// The guards common to actions of one role in one phase, in the order they
/// are checked: the actor is a single player of the game, it is the
/// action's phase, and the actor holds its role.
pub open spec fn actor_check(s: GameView, actor: Seq<char>, phase: PhaseName, role: PlayerRole) -> Option<ErrorKind> {
    if count(s.players, Criterion::WithId(actor)) != 1 {
        Some(ErrorKind::PlayerNotFound)
    } else if s.phase.name != phase {
        Some(ErrorKind::NotYourTurn)
    } else if actor_of(s, actor).attributes.role != role {
        Some(ErrorKind::WrongRole)
    } else {
        None
    }
}

/// Whether an executed action returned what its specification gives.
pub open spec fn outcome_is(r: Result<GameState, ActionError>, o: Result<GameView, ErrorKind>) -> bool {
    match r {
        Ok(s) => o == Ok::<GameView, ErrorKind>(s@),
        Err(e) => o == Err::<GameView, ErrorKind>(e.kind),
    }
}

/// `p`, dead.
pub open spec fn killed(p: PlayerView) -> PlayerView {
    PlayerView {
        id: p.id,
        name: p.name,
        secret: p.secret,
        attributes: AttributesView {
            role: p.attributes.role,
            team: p.attributes.team,
            alive: false,
            visible_to: p.attributes.visible_to,
        },
    }
}

/// `s` in phase `name` with empty phase data.
pub open spec fn entering(s: GameView, name: PhaseName) -> GameView {
    GameView { phase: crate::types::PhaseView { name, data: Map::empty() }, ..s }
}

/// Checks the guards of `actor_check`; on success, the index of the actor.
pub fn check_actor(s: &GameState, actor_id: &String, phase: PhaseName, role: PlayerRole) -> (r: Result<usize, ActionError>)
    ensures
        match r {
            Ok(i) => actor_check(s@, actor_id@, phase, role) is None && i < s.players@.len()
                && i == the_one(s@.players, Criterion::WithId(actor_id@)),
            Err(e) => actor_check(s@, actor_id@, phase, role) == Some(e.kind),
        },
{
    match find_by_id(&s.players, actor_id) {
        None => Err(ActionError::new(ErrorKind::PlayerNotFound, "Could not find player with connection ID")),
        Some(i) => {
            proof {
                lemma_the_one(s@.players, Criterion::WithId(actor_id@), i as int);
            }
            if s.phase.name != phase {
                Err(ActionError::new(ErrorKind::NotYourTurn, "Not a valid transition!"))
            } else if s.players[i].attributes.role != role {
                Err(ActionError::new(ErrorKind::WrongRole, "You do not hold the role for this action!"))
            } else {
                Ok(i)
            }
        },
    }
}

/// `players` with the player at `i` dead.
pub fn kill_player(players: &mut Vec<Player>, i: usize)
    requires
        i < old(players)@.len(),
    ensures
        players_view(final(players)@) == players_view(old(players)@).update(i as int, killed(players_view(old(players)@)[i as int])),
{
    let mut p = players[i].clone();
    p.attributes.alive = false;
    players.set(i, p);
    proof {
        assert(players_view(players@) =~= players_view(old(players)@).update(
            i as int,
            killed(players_view(old(players)@)[i as int]),
        ));
    }
}

} // verus!
