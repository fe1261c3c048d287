use vstd::prelude::*;
use crate::actions::{lemma_the_one, outcome_is, the_one};
use crate::draw::{create_random_code, is_lobby_code};
use crate::rules::{count, find_by_name, lemma_count_at_least_one, lemma_one_witness, lemma_two_witnesses, Criterion};
use crate::strmap::StrMap;
use crate::types::{
    all_marker, players_view, ActionError, AttributesView, ErrorKind, GameState, GameView, Phase,
    PhaseName, PhaseView, Player, PlayerAttributes, PlayerRole, PlayerTeam, PlayerView,
};

verus! {

/// How long a lobby lives: 48 hours.
pub const LOBBY_TTL_SECONDS: u64 = 172800;

/// A player who has just joined: no role yet, alive.
pub open spec fn joining_player(conn: Seq<char>, name: Seq<char>, secret: Seq<char>) -> PlayerView {
    PlayerView {
        id: conn,
        name,
        secret,
        attributes: AttributesView {
            role: PlayerRole::Unknown,
            team: PlayerTeam::Unknown,
            alive: true,
            visible_to: seq![all_marker()],
        },
    }
}

/// A new lobby holding only its creator, at version 1.
pub open spec fn new_game_view(code: Seq<char>, conn: Seq<char>, name: Seq<char>, secret: Seq<char>, now: u64) -> GameView {
    GameView {
        lobby_id: code,
        phase: PhaseView { name: PhaseName::Lobby, data: Map::empty() },
        players: seq![joining_player(conn, name, secret)],
        internal_state: Map::empty(),
        ttl: (now + LOBBY_TTL_SECONDS) as u64,
        version: 1,
    }
}

/// Joining an existing lobby: a player who gives a known name and its secret
/// comes back on a new connection, keeping their role; in the lobby, a new
/// name adds a player; once the game has started, it is refused.
pub open spec fn join_outcome(s: GameView, conn: Seq<char>, name: Seq<char>, secret: Seq<char>) -> Result<GameView, ErrorKind> {
    if name.len() == 0 || secret.len() == 0 {
        Err(ErrorKind::Validation)
    } else if count(s.players, Criterion::WithName(name)) == 1 {
        let k = the_one(s.players, Criterion::WithName(name));
        let p = s.players[k];
        if p.secret != secret {
            Err(ErrorKind::Validation)
        } else {
            Ok(GameView { players: s.players.update(k, PlayerView { id: conn, ..p }), ..s })
        }
    } else if s.phase.name == PhaseName::Lobby {
        Ok(GameView { players: s.players.push(joining_player(conn, name, secret)), ..s })
    } else {
        Err(ErrorKind::GameInProgress)
    }
}

/// Whether no two players share a name.
pub open spec fn names_distinct(ps: Seq<PlayerView>) -> bool {
    forall|i: int, j: int| 0 <= i < ps.len() && 0 <= j < ps.len() && i != j ==> ps[i].name != ps[j].name
}

/// Joining, or rejoining, keeps the players' names distinct.
pub proof fn lemma_join_keeps_names_distinct(s: GameView, conn: Seq<char>, name: Seq<char>, secret: Seq<char>)
    requires
        names_distinct(s.players),
        join_outcome(s, conn, name, secret) is Ok,
    ensures
        names_distinct(join_outcome(s, conn, name, secret)->Ok_0.players),
{
    let c = Criterion::WithName(name);
    let t = join_outcome(s, conn, name, secret)->Ok_0.players;
    if count(s.players, c) == 1 {
        lemma_one_witness(s.players, c);
        let k = the_one(s.players, c);
        assert(0 <= k < s.players.len());
        assert(t.len() == s.players.len());
        assert forall|i: int| 0 <= i < t.len() implies #[trigger] t[i].name == s.players[i].name by {
            if i == k {
                assert(s.players[k].name == name);
            }
        }
    } else {
        if count(s.players, c) >= 2 {
            lemma_two_witnesses(s.players, c);
        }
        assert forall|i: int| 0 <= i < s.players.len() implies #[trigger] s.players[i].name != name by {
            if s.players[i].name == name {
                lemma_count_at_least_one(s.players, c, i);
            }
        }
        assert forall|i: int, j: int| 0 <= i < t.len() && 0 <= j < t.len() && i != j
            implies t[i].name != t[j].name by {
            if i < s.players.len() && j < s.players.len() {
                assert(t[i] == s.players[i] && t[j] == s.players[j]);
            } else if i < s.players.len() {
                assert(t[i] == s.players[i]);
            } else {
                assert(t[j] == s.players[j]);
            }
        }
    }
}

fn joining(connection_id: &String, name: String, secret: String) -> (r: Player)
    ensures
        r@ == joining_player(connection_id@, name@, secret@),
{
    let mut visible_to: Vec<String> = Vec::new();
    visible_to.push(String::from_str("All"));
    let r = Player {
        id: connection_id.clone(),
        name,
        secret,
        attributes: PlayerAttributes {
            role: PlayerRole::Unknown,
            team: PlayerTeam::Unknown,
            alive: true,
            visible_to,
        },
    };
    assert(r@.attributes.visible_to =~= seq![all_marker()]);
    r
}

/// A new lobby under a fresh random code, created by the player on
/// `connection_id` at `now` (seconds since the Unix epoch).
pub fn new_game(connection_id: &String, name: String, secret: String, now: u64) -> (r: GameState)
    requires
        now <= u64::MAX - LOBBY_TTL_SECONDS,
    ensures
        is_lobby_code(r@.lobby_id),
        r@ == new_game_view(r@.lobby_id, connection_id@, name@, secret@, now),
{
    let code = create_random_code();
    let mut players: Vec<Player> = Vec::new();
    players.push(joining(connection_id, name, secret));
    let r = GameState {
        lobby_id: code,
        phase: Phase { name: PhaseName::Lobby, data: StrMap::new() },
        players,
        internal_state: StrMap::new(),
        ttl: now + LOBBY_TTL_SECONDS,
        version: 1,
    };
    assert(r@.players =~= seq![joining_player(connection_id@, name@, secret@)]);
    r
}

/// The player called `name` joins or rejoins the lobby on `connection_id`.
pub fn join_game(game_state: GameState, connection_id: &String, name: String, secret: String) -> (r: Result<GameState, ActionError>)
    ensures
        outcome_is(r, join_outcome(game_state@, connection_id@, name@, secret@)),
{
    let mut game_state = game_state;
    let ghost s = game_state@;
    if name.as_str().is_empty() {
        return Err(ActionError::new(ErrorKind::Validation, "Empty first name"));
    }
    if secret.as_str().is_empty() {
        return Err(ActionError::new(ErrorKind::Validation, "Empty secret"));
    }
    match find_by_name(&game_state.players, &name) {
        Some(k) => {
            proof {
                lemma_the_one(s.players, Criterion::WithName(name@), k as int);
            }
            if game_state.players[k].secret != secret {
                return Err(ActionError::new(ErrorKind::Validation, "Non-matching secret"));
            }
            let mut p = game_state.players[k].clone();
            p.id = connection_id.clone();
            game_state.players.set(k, p);
            proof {
                assert(players_view(game_state.players@) =~= s.players.update(
                    k as int,
                    PlayerView { id: connection_id@, ..s.players[k as int] },
                ));
            }
            Ok(game_state)
        },
        None => {
            if game_state.phase.name != PhaseName::Lobby {
                return Err(ActionError::new(ErrorKind::GameInProgress, "Error cannot join an in-progress game"));
            }
            let p = joining(connection_id, name, secret);
            game_state.players.push(p);
            proof {
                assert(players_view(game_state.players@) =~= s.players.push(
                    joining_player(connection_id@, name@, secret@),
                ));
            }
            Ok(game_state)
        },
    }
}

/// Joins a lobby. Without a code, a new lobby is created; with one,
/// `game_state` is the record stored under it, if any.
pub fn handle_join(game_state: Option<GameState>, connection_id: &String, name: String, secret: String, code: Option<String>, now: u64) -> (r: Result<GameState, ActionError>)
    requires
        now <= u64::MAX - LOBBY_TTL_SECONDS,
    ensures
        name@.len() == 0 || secret@.len() == 0 ==> (r matches Err(e) && e.kind == ErrorKind::Validation),
        name@.len() > 0 && secret@.len() > 0 ==> match code {
            None => (r matches Ok(t) && is_lobby_code(t@.lobby_id) && t@ == new_game_view(
                t@.lobby_id,
                connection_id@,
                name@,
                secret@,
                now,
            )),
            Some(c) => match game_state {
                None => (r matches Err(e) && e.kind == ErrorKind::NotFound),
                Some(s) => if s.lobby_id@ != c@ {
                    (r matches Err(e) && e.kind == ErrorKind::NotFound)
                } else {
                    outcome_is(r, join_outcome(s@, connection_id@, name@, secret@))
                },
            },
        },
{
    if name.as_str().is_empty() {
        return Err(ActionError::new(ErrorKind::Validation, "Empty first name"));
    }
    if secret.as_str().is_empty() {
        return Err(ActionError::new(ErrorKind::Validation, "Empty secret"));
    }
    match code {
        None => Ok(new_game(connection_id, name, secret, now)),
        Some(c) => match game_state {
            None => Err(ActionError::new(ErrorKind::NotFound, "Game not found")),
            Some(s) => {
                if s.lobby_id != c {
                    return Err(ActionError::new(ErrorKind::NotFound, "Game not found"));
                }
                join_game(s, connection_id, name, secret)
            },
        },
    }
}

} // verus!
