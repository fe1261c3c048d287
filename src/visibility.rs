use vstd::prelude::*;
use crate::strmap::{value_or_empty, StrMap};
use crate::types::{
    all_marker, contains_string, copy_players, players_view, role_name, AttributesView, GameState,
    GameView, Phase, PhaseName, PhaseView, Player, PlayerAttributes, PlayerRole, PlayerTeam,
    PlayerView,
};

verus! {

/// The key under which the last player the Bodyguard protected is kept.
pub open spec fn last_guarded_key() -> Seq<char> {
    "last_guarded"@
}

/// Whether a holder of `role` may see `p`'s true role and team.
pub open spec fn may_see(p: PlayerView, role: PlayerRole) -> bool {
    p.attributes.visible_to.contains(role_name(role)) || p.attributes.visible_to.contains(all_marker())
}

/// The attributes of `p` as `viewer` sees them before the game is over.
pub open spec fn masked_attributes(viewer: PlayerView, p: PlayerView) -> AttributesView {
    let a = p.attributes;
    if p.name != viewer.name && a.alive && a.role != PlayerRole::Mod {
        if !may_see(p, viewer.attributes.role) {
            AttributesView { role: PlayerRole::Unknown, team: PlayerTeam::Unknown, alive: a.alive, visible_to: a.visible_to }
        } else if viewer.attributes.role == PlayerRole::Seer {
            AttributesView {
                role: PlayerRole::Unknown,
                team: if a.role == PlayerRole::Lycan { PlayerTeam::Evil } else { a.team },
                alive: a.alive,
                visible_to: a.visible_to,
            }
        } else {
            a
        }
    } else {
        a
    }
}

/// `p` as `viewer` sees it: never its connection or secret; before the End,
/// no role or team the viewer may not see, and no `visible_to`.
pub open spec fn filter_player(viewer: PlayerView, p: PlayerView, phase: PhaseName) -> PlayerView {
    let attributes = if phase == PhaseName::End {
        p.attributes
    } else {
        let m = masked_attributes(viewer, p);
        AttributesView { role: m.role, team: m.team, alive: m.alive, visible_to: Seq::empty() }
    };
    PlayerView { id: Seq::empty(), name: p.name, secret: Seq::empty(), attributes }
}

/// The phase data `viewer` sees: no werewolf votes unless they are the Mod or
/// a werewolf; to the Bodyguard in their phase, only whom they last protected.
pub open spec fn filter_phase_data(viewer: PlayerView, s: GameView) -> Map<Seq<char>, Seq<char>> {
    let role = viewer.attributes.role;
    if s.phase.name == PhaseName::Bodyguard && role == PlayerRole::Bodyguard {
        map![last_guarded_key() => value_or_empty(s.internal_state, last_guarded_key())]
    } else if s.phase.name == PhaseName::Werewolf && role != PlayerRole::Mod && role != PlayerRole::Werewolf {
        Map::empty()
    } else {
        s.phase.data
    }
}

/// The record as `viewer` may see it.
pub open spec fn filtered_view(viewer: PlayerView, s: GameView) -> GameView {
    GameView {
        lobby_id: s.lobby_id,
        phase: PhaseView { name: s.phase.name, data: filter_phase_data(viewer, s) },
        players: s.players.map_values(|p: PlayerView| filter_player(viewer, p, s.phase.name)),
        internal_state: Map::empty(),
        ttl: s.ttl,
        version: s.version,
    }
}

fn filter_one(viewer: &Player, p: &Player, phase: PhaseName) -> (r: Player)
    ensures
        r@ == filter_player(viewer@, p@, phase),
{
    let a = &p.attributes;
    if phase == PhaseName::End {
        return Player {
            id: String::new(),
            name: p.name.clone(),
            secret: String::new(),
            attributes: a.clone(),
        };
    }
    let mut role = a.role;
    let mut team = a.team;
    if p.name != viewer.name && a.alive && a.role != PlayerRole::Mod {
        let vrole = viewer.attributes.role;
        let visible = contains_string(&a.visible_to, vrole.as_str()) || contains_string(
            &a.visible_to,
            "All",
        );
        if !visible {
            role = PlayerRole::Unknown;
            team = PlayerTeam::Unknown;
        } else if vrole == PlayerRole::Seer {
            role = PlayerRole::Unknown;
            if a.role == PlayerRole::Lycan {
                team = PlayerTeam::Evil;
            }
        }
    }
    let r = Player {
        id: String::new(),
        name: p.name.clone(),
        secret: String::new(),
        attributes: PlayerAttributes { role, team, alive: a.alive, visible_to: Vec::new() },
    };
    assert(r@.attributes.visible_to =~= Seq::<Seq<char>>::empty());
    r
}

/// The record as `player` may see it, to be sent to their connection.
pub fn filter_state(player: &Player, game_state: GameState) -> (r: GameState)
    ensures
        r@ == filtered_view(player@, game_state@),
{
    let phase = game_state.phase.name;
    let role = player.attributes.role;
    let data = if phase == PhaseName::Bodyguard && role == PlayerRole::Bodyguard {
        let key = String::from_str("last_guarded");
        let guarded = game_state.internal_state.get_or_empty(&key);
        StrMap::singleton(key, guarded)
    } else if phase == PhaseName::Werewolf && role != PlayerRole::Mod && role != PlayerRole::Werewolf {
        StrMap::new()
    } else {
        game_state.phase.data.clone()
    };
    let mut players: Vec<Player> = Vec::new();
    let mut i: usize = 0;
    while i < game_state.players.len()
        invariant
            i <= game_state.players@.len(),
            players@.len() == i,
            forall|j: int| 0 <= j < i ==> #[trigger] players@[j]@ == filter_player(
                player@,
                game_state.players@[j]@,
                phase,
            ),
        decreases game_state.players@.len() - i,
    {
        players.push(filter_one(player, &game_state.players[i], phase));
        i = i + 1;
    }
    let ghost s = game_state@;
    let r = GameState {
        lobby_id: game_state.lobby_id,
        phase: Phase { name: phase, data },
        players,
        internal_state: StrMap::new(),
        ttl: game_state.ttl,
        version: game_state.version,
    };
    assert(r@.players =~= filtered_view(player@, s).players);
    r
}

/// For each player, their connection and the record as they may see it.
pub fn broadcast_views(game_state: &GameState) -> (r: Vec<(String, GameState)>)
    ensures
        r@.len() == game_state.players@.len(),
        forall|i: int| 0 <= i < r@.len() ==> {
            &&& #[trigger] r@[i].0@ == game_state.players@[i].id@
            &&& r@[i].1@ == filtered_view(game_state.players@[i]@, game_state@)
        },
{
    let mut r: Vec<(String, GameState)> = Vec::new();
    let mut i: usize = 0;
    while i < game_state.players.len()
        invariant
            i <= game_state.players@.len(),
            r@.len() == i,
            forall|j: int| 0 <= j < i ==> {
                &&& #[trigger] r@[j].0@ == game_state.players@[j].id@
                &&& r@[j].1@ == filtered_view(game_state.players@[j]@, game_state@)
            },
        decreases game_state.players@.len() - i,
    {
        let p = &game_state.players[i];
        let view = filter_state(p, game_state.clone());
        r.push((p.id.clone(), view));
        i = i + 1;
    }
    r
}

/// No viewer, in any phase, is shown a player's secret or connection.
pub proof fn lemma_filter_hides_credentials(viewer: PlayerView, s: GameView)
    ensures
        forall|i: int| 0 <= i < s.players.len() ==> {
            &&& (#[trigger] filtered_view(viewer, s).players[i]).secret.len() == 0
            &&& filtered_view(viewer, s).players[i].id.len() == 0
        },
        filtered_view(viewer, s).internal_state.dom().len() == 0,
        filtered_view(viewer, s).players.len() == s.players.len(),
{
    assert(filtered_view(viewer, s).internal_state.dom() =~= Set::<Seq<char>>::empty());
}

/// Whether the Mod may see every other player's role and team, as role
/// assignment arranges.
pub open spec fn visible_to_mod(ps: Seq<PlayerView>) -> bool {
    forall|i: int| 0 <= i < ps.len() && ps[i].attributes.role != PlayerRole::Mod
        ==> #[trigger] may_see(ps[i], PlayerRole::Mod)
}

/// The Mod's view keeps every player's true role and team.
pub proof fn lemma_mod_sees_true_roles(viewer: PlayerView, s: GameView)
    requires
        viewer.attributes.role == PlayerRole::Mod,
        visible_to_mod(s.players),
    ensures
        forall|i: int| 0 <= i < s.players.len() ==> {
            &&& (#[trigger] filtered_view(viewer, s).players[i]).attributes.role == s.players[i].attributes.role
            &&& filtered_view(viewer, s).players[i].attributes.team == s.players[i].attributes.team
        },
{
    assert forall|i: int| 0 <= i < s.players.len() implies {
        &&& (#[trigger] filtered_view(viewer, s).players[i]).attributes.role == s.players[i].attributes.role
        &&& filtered_view(viewer, s).players[i].attributes.team == s.players[i].attributes.team
    } by {
        if s.players[i].attributes.role != PlayerRole::Mod {
            assert(may_see(s.players[i], PlayerRole::Mod));
        }
    }
}

} // verus!
