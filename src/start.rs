use vstd::prelude::*;
use vstd::seq_lib::group_to_multiset_ensures;
use crate::actions::outcome_is;
use crate::draw::random_draws;
use crate::rules::{count, find_by_id, lemma_count_pointwise, lemma_count_remove_first, meets, Criterion};
use crate::strmap::StrMap;
use crate::visibility::{may_see, visible_to_mod};
use crate::types::{
    players_view, role_name, all_marker, ActionError, AttributesView, ErrorKind, GameState,
    GameView, Phase, PhaseName, PhaseView, Player, PlayerAttributes, PlayerRole, PlayerTeam,
    PlayerView,
};

verus! {

/// The attributes of the Mod: no team, public.
pub open spec fn mod_attributes() -> AttributesView {
    AttributesView { role: PlayerRole::Mod, team: PlayerTeam::Unknown, alive: true, visible_to: seq![all_marker()] }
}

/// The attributes a dealt role starts with: werewolves are Evil and see one
/// another; every other role is Good. The Mod sees all of them.
pub open spec fn role_attributes(role: PlayerRole) -> AttributesView {
    if role == PlayerRole::Werewolf {
        AttributesView {
            role,
            team: PlayerTeam::Evil,
            alive: true,
            visible_to: seq![role_name(PlayerRole::Mod), role_name(PlayerRole::Werewolf)],
        }
    } else {
        AttributesView { role, team: PlayerTeam::Good, alive: true, visible_to: seq![role_name(PlayerRole::Mod)] }
    }
}

pub open spec fn optional_role(enabled: bool, role: PlayerRole) -> Seq<AttributesView> {
    if enabled {
        seq![role_attributes(role)]
    } else {
        Seq::empty()
    }
}

/// The roles to deal: the enabled special roles, the werewolves, then the
/// villagers.
pub open spec fn role_pool(werewolves: nat, bodyguard: bool, seer: bool, lycan: bool, tanner: bool, villagers: nat) -> Seq<AttributesView> {
    optional_role(seer, PlayerRole::Seer) + optional_role(bodyguard, PlayerRole::Bodyguard)
        + optional_role(lycan, PlayerRole::Lycan) + optional_role(tanner, PlayerRole::Tanner)
        + repeat_role(werewolves, PlayerRole::Werewolf) + repeat_role(villagers, PlayerRole::Villager)
}

pub open spec fn repeat_role(n: nat, role: PlayerRole) -> Seq<AttributesView> {
    Seq::new(n, |i: int| role_attributes(role))
}

/// Role slots needed: the werewolves, the Mod and each enabled special role.
pub open spec fn slots(werewolves: u32, bodyguard: bool, seer: bool, lycan: bool, tanner: bool) -> nat {
    werewolves as nat + 1 + (if bodyguard { 1nat } else { 0nat }) + (if seer { 1nat } else { 0nat })
        + (if lycan { 1nat } else { 0nat }) + (if tanner { 1nat } else { 0nat })
}

pub open spec fn attributes_view(v: Seq<PlayerAttributes>) -> Seq<AttributesView> {
    v.map_values(|a: PlayerAttributes| a@)
}

pub open spec fn with_attributes(p: PlayerView, a: AttributesView) -> PlayerView {
    PlayerView { id: p.id, name: p.name, secret: p.secret, attributes: a }
}

/// Which of the `n` roles left a draw picks.
pub open spec fn pick(n: nat, draws: Seq<usize>) -> int {
    if draws.len() > 0 {
        (draws[0] as int) % (n as int)
    } else {
        0
    }
}

pub open spec fn rest(draws: Seq<usize>) -> Seq<usize> {
    if draws.len() > 0 {
        draws.drop_first()
    } else {
        draws
    }
}

/// The players, in order, after the player on connection `conn` becomes the
/// Mod and each other player in turn takes the role that the next draw picks
/// from those left, which then leaves the pool.
pub open spec fn deal(ps: Seq<PlayerView>, pool: Seq<AttributesView>, conn: Seq<char>, draws: Seq<usize>) -> Seq<PlayerView>
    decreases ps.len(),
{
    if ps.len() == 0 {
        Seq::empty()
    } else if ps[0].id == conn {
        seq![with_attributes(ps[0], mod_attributes())] + deal(ps.drop_first(), pool, conn, draws)
    } else if pool.len() == 0 {
        seq![ps[0]] + deal(ps.drop_first(), pool, conn, draws)
    } else {
        let i = pick(pool.len(), draws);
        seq![with_attributes(ps[0], pool[i])] + deal(ps.drop_first(), pool.remove(i), conn, rest(draws))
    }
}

/// The roles the players other than the one on `conn` hold, in order.
pub open spec fn dealt_attributes(ps: Seq<PlayerView>, conn: Seq<char>) -> Seq<AttributesView>
    decreases ps.len(),
{
    if ps.len() == 0 {
        Seq::empty()
    } else if ps[0].id == conn {
        dealt_attributes(ps.drop_first(), conn)
    } else {
        seq![ps[0].attributes] + dealt_attributes(ps.drop_first(), conn)
    }
}

/// The guards of `start`, in the order they are checked.
pub open spec fn start_check(s: GameView, actor: Seq<char>, werewolves: u32, bodyguard: bool, seer: bool, lycan: bool, tanner: bool) -> Option<ErrorKind> {
    if count(s.players, Criterion::WithId(actor)) != 1 {
        Some(ErrorKind::PlayerNotFound)
    } else if s.phase.name != PhaseName::Lobby {
        Some(ErrorKind::NotYourTurn)
    } else if slots(werewolves, bodyguard, seer, lycan, tanner) > s.players.len() {
        Some(ErrorKind::TooManyRoles)
    } else {
        None
    }
}

/// The game starts with the roles dealt by `draws`, and day breaks.
pub open spec fn start_outcome(s: GameView, actor: Seq<char>, werewolves: u32, bodyguard: bool, seer: bool, lycan: bool, tanner: bool, draws: Seq<usize>) -> Result<GameView, ErrorKind> {
    match start_check(s, actor, werewolves, bodyguard, seer, lycan, tanner) {
        Some(e) => Err(e),
        None => {
            let pool = role_pool(
                werewolves as nat,
                bodyguard,
                seer,
                lycan,
                tanner,
                (s.players.len() - slots(werewolves, bodyguard, seer, lycan, tanner)) as nat,
            );
            Ok(
                GameView {
                    players: deal(s.players, pool, actor, draws),
                    phase: PhaseView { name: PhaseName::Day, data: Map::empty() },
                    ..s
                },
            )
        },
    }
}

proof fn lemma_prepend_multiset<A>(x: A, t: Seq<A>)
    ensures
        (seq![x] + t).to_multiset() =~= t.to_multiset().insert(x),
{
    broadcast use group_to_multiset_ensures;

    let s = seq![x] + t;
    assert(s.remove(0) =~= t);
    assert(s.contains(x)) by {
        assert(s[0] == x);
    }
}

proof fn lemma_count_le_len(ps: Seq<PlayerView>, c: Criterion)
    ensures
        count(ps, c) <= ps.len(),
    decreases ps.len(),
{
    if ps.len() > 0 {
        lemma_count_le_len(ps.drop_last(), c);
    }
}

/// Dealing keeps each player's identity and gives the player on `conn` the
/// Mod's attributes.
pub proof fn lemma_deal_keeps_players(ps: Seq<PlayerView>, pool: Seq<AttributesView>, conn: Seq<char>, draws: Seq<usize>)
    ensures
        deal(ps, pool, conn, draws).len() == ps.len(),
        forall|i: int| 0 <= i < ps.len() ==> {
            &&& (#[trigger] deal(ps, pool, conn, draws)[i]).id == ps[i].id
            &&& deal(ps, pool, conn, draws)[i].name == ps[i].name
            &&& deal(ps, pool, conn, draws)[i].secret == ps[i].secret
            &&& ps[i].id == conn ==> deal(ps, pool, conn, draws)[i].attributes == mod_attributes()
        },
    decreases ps.len(),
{
    if ps.len() > 0 {
        let i0 = pick(pool.len(), draws);
        lemma_deal_keeps_players(ps.drop_first(), pool, conn, draws);
        if pool.len() > 0 {
            lemma_deal_keeps_players(ps.drop_first(), pool.remove(i0), conn, rest(draws));
        }
        let d = deal(ps, pool, conn, draws);
        assert forall|i: int| 0 < i < ps.len() implies d[i] == if ps[0].id == conn || pool.len() == 0 {
            deal(ps.drop_first(), pool, conn, draws)[i - 1]
        } else {
            deal(ps.drop_first(), pool.remove(i0), conn, rest(draws))[i - 1]
        } by {}
    }
}

/// When there are as many roles as players other than the Mod, dealing hands
/// out exactly the roles of the pool, each once.
pub proof fn lemma_deal_hands_out_pool(ps: Seq<PlayerView>, pool: Seq<AttributesView>, conn: Seq<char>, draws: Seq<usize>)
    requires
        pool.len() + count(ps, Criterion::WithId(conn)) == ps.len(),
    ensures
        dealt_attributes(deal(ps, pool, conn, draws), conn).to_multiset() =~= pool.to_multiset(),
    decreases ps.len(),
{
    broadcast use group_to_multiset_ensures;

    let c = Criterion::WithId(conn);
    if ps.len() == 0 {
        assert(pool.len() == 0);
        assert(pool =~= Seq::<AttributesView>::empty());
        assert(pool.to_multiset().len() == 0);
    } else {
        lemma_count_remove_first(ps, c);
        lemma_count_le_len(ps.drop_first(), c);
        let d = deal(ps, pool, conn, draws);
        if ps[0].id == conn {
            let t = deal(ps.drop_first(), pool, conn, draws);
            assert(d.drop_first() =~= t);
            lemma_deal_hands_out_pool(ps.drop_first(), pool, conn, draws);
        } else {
            let i = pick(pool.len(), draws);
            let t = deal(ps.drop_first(), pool.remove(i), conn, rest(draws));
            assert(d.drop_first() =~= t);
            assert(d[0].id != conn);
            lemma_deal_hands_out_pool(ps.drop_first(), pool.remove(i), conn, rest(draws));
            lemma_prepend_multiset(pool[i], dealt_attributes(t, conn));
            assert(pool.to_multiset().count(pool[i]) > 0) by {
                assert(pool.contains(pool[i]));
            }
            assert(pool.remove(i).to_multiset() =~= pool.to_multiset().remove(pool[i]));
        }
    }
}

/// Whether every role of `pool` is one the Mod may see, and none is the Mod.
pub open spec fn pool_seen_by_mod(pool: Seq<AttributesView>) -> bool {
    forall|i: int| 0 <= i < pool.len() ==> {
        &&& (#[trigger] pool[i]).role != PlayerRole::Mod
        &&& pool[i].visible_to.contains(role_name(PlayerRole::Mod))
    }
}

proof fn lemma_role_pool_seen_by_mod(werewolves: nat, bodyguard: bool, seer: bool, lycan: bool, tanner: bool, villagers: nat)
    ensures
        pool_seen_by_mod(role_pool(werewolves, bodyguard, seer, lycan, tanner, villagers)),
{
    assert forall|r: PlayerRole| r != PlayerRole::Mod implies #[trigger] role_attributes(r).visible_to.contains(
        role_name(PlayerRole::Mod),
    ) by {
        assert(role_attributes(r).visible_to[0] == role_name(PlayerRole::Mod));
    }
}

/// Dealing a pool the Mod may see leaves every player visible to the Mod.
pub proof fn lemma_deal_visible_to_mod(ps: Seq<PlayerView>, pool: Seq<AttributesView>, conn: Seq<char>, draws: Seq<usize>)
    requires
        pool.len() + count(ps, Criterion::WithId(conn)) == ps.len(),
        pool_seen_by_mod(pool),
    ensures
        visible_to_mod(deal(ps, pool, conn, draws)),
    decreases ps.len(),
{
    let c = Criterion::WithId(conn);
    if ps.len() > 0 {
        lemma_count_remove_first(ps, c);
        lemma_count_le_len(ps.drop_first(), c);
        let d = deal(ps, pool, conn, draws);
        if ps[0].id == conn {
            let t = deal(ps.drop_first(), pool, conn, draws);
            lemma_deal_visible_to_mod(ps.drop_first(), pool, conn, draws);
            assert forall|k: int| 0 <= k < d.len() && d[k].attributes.role != PlayerRole::Mod
                implies #[trigger] may_see(d[k], PlayerRole::Mod) by {
                assert(k > 0);
                assert(d[k] == t[k - 1]);
            }
        } else {
            let i = pick(pool.len(), draws);
            let rest_pool = pool.remove(i);
            assert(pool_seen_by_mod(rest_pool)) by {
                assert forall|j: int| 0 <= j < rest_pool.len() implies {
                    &&& (#[trigger] rest_pool[j]).role != PlayerRole::Mod
                    &&& rest_pool[j].visible_to.contains(role_name(PlayerRole::Mod))
                } by {
                    if j < i {
                        assert(rest_pool[j] == pool[j]);
                    } else {
                        assert(rest_pool[j] == pool[j + 1]);
                    }
                }
            }
            let t = deal(ps.drop_first(), rest_pool, conn, rest(draws));
            lemma_deal_visible_to_mod(ps.drop_first(), rest_pool, conn, rest(draws));
            assert forall|k: int| 0 <= k < d.len() && d[k].attributes.role != PlayerRole::Mod
                implies #[trigger] may_see(d[k], PlayerRole::Mod) by {
                if k == 0 {
                    assert(d[0].attributes == pool[i]);
                } else {
                    assert(d[k] == t[k - 1]);
                }
            }
        }
    }
}

/// When there are as many roles as players other than the Mod, every such
/// player is dealt a role of the pool.
pub proof fn lemma_deal_draws_from_pool(ps: Seq<PlayerView>, pool: Seq<AttributesView>, conn: Seq<char>, draws: Seq<usize>)
    requires
        pool.len() + count(ps, Criterion::WithId(conn)) == ps.len(),
    ensures
        forall|k: int| 0 <= k < ps.len() && ps[k].id != conn
            ==> pool.contains(#[trigger] deal(ps, pool, conn, draws)[k].attributes),
    decreases ps.len(),
{
    let c = Criterion::WithId(conn);
    if ps.len() > 0 {
        lemma_count_remove_first(ps, c);
        lemma_count_le_len(ps.drop_first(), c);
        let d = deal(ps, pool, conn, draws);
        if ps[0].id == conn {
            let t = deal(ps.drop_first(), pool, conn, draws);
            lemma_deal_draws_from_pool(ps.drop_first(), pool, conn, draws);
            lemma_deal_keeps_players(ps.drop_first(), pool, conn, draws);
            assert forall|k: int| 0 <= k < ps.len() && ps[k].id != conn
                implies pool.contains(#[trigger] d[k].attributes) by {
                assert(k != 0);
                assert(d[k] == t[k - 1]);
                assert(ps.drop_first()[k - 1] == ps[k]);
            }
        } else {
            let i = pick(pool.len(), draws);
            let rest_pool = pool.remove(i);
            let t = deal(ps.drop_first(), rest_pool, conn, rest(draws));
            lemma_deal_draws_from_pool(ps.drop_first(), rest_pool, conn, rest(draws));
            lemma_deal_keeps_players(ps.drop_first(), rest_pool, conn, rest(draws));
            assert forall|k: int| 0 <= k < ps.len() && ps[k].id != conn
                implies pool.contains(#[trigger] d[k].attributes) by {
                if k == 0 {
                    assert(d[0].attributes == pool[i]);
                } else {
                    assert(d[k] == t[k - 1]);
                    assert(ps.drop_first()[k - 1] == ps[k]);
                    let j = choose|j: int| 0 <= j < rest_pool.len() && rest_pool[j] == t[k - 1].attributes;
                    if j < i {
                        assert(pool[j] == rest_pool[j]);
                    } else {
                        assert(pool[j + 1] == rest_pool[j]);
                    }
                }
            }
        }
    }
}

/// Dealing a pool without the Mod's role leaves exactly as many Mods as
/// players on `conn`.
pub proof fn lemma_deal_one_mod(ps: Seq<PlayerView>, pool: Seq<AttributesView>, conn: Seq<char>, draws: Seq<usize>)
    requires
        pool.len() + count(ps, Criterion::WithId(conn)) == ps.len(),
        pool_seen_by_mod(pool),
    ensures
        count(deal(ps, pool, conn, draws), Criterion::WithRole(PlayerRole::Mod)) == count(ps, Criterion::WithId(conn)),
{
    lemma_deal_keeps_players(ps, pool, conn, draws);
    lemma_deal_draws_from_pool(ps, pool, conn, draws);
    let t = deal(ps, pool, conn, draws);
    assert forall|i: int| 0 <= i < ps.len() implies meets(#[trigger] ps[i], Criterion::WithId(conn)) == meets(
        t[i],
        Criterion::WithRole(PlayerRole::Mod),
    ) by {
        if ps[i].id != conn {
            assert(pool.contains(t[i].attributes));
            let j = choose|j: int| 0 <= j < pool.len() && pool[j] == t[i].attributes;
            assert(pool[j].role != PlayerRole::Mod);
        }
    }
    lemma_count_pointwise(ps, t, Criterion::WithId(conn), Criterion::WithRole(PlayerRole::Mod));
}

fn attributes_for(role: PlayerRole) -> (r: PlayerAttributes)
    requires
        role != PlayerRole::Mod,
    ensures
        r@ == role_attributes(role),
{
    let mut visible_to: Vec<String> = Vec::new();
    visible_to.push(String::from_str(PlayerRole::Mod.as_str()));
    let team = if role == PlayerRole::Werewolf {
        visible_to.push(String::from_str(PlayerRole::Werewolf.as_str()));
        PlayerTeam::Evil
    } else {
        PlayerTeam::Good
    };
    let r = PlayerAttributes { role, team, alive: true, visible_to };
    assert(r@.visible_to =~= role_attributes(role).visible_to);
    r
}

fn mod_player_attributes() -> (r: PlayerAttributes)
    ensures
        r@ == mod_attributes(),
{
    let mut visible_to: Vec<String> = Vec::new();
    visible_to.push(String::from_str("All"));
    let r = PlayerAttributes { role: PlayerRole::Mod, team: PlayerTeam::Unknown, alive: true, visible_to };
    assert(r@.visible_to =~= mod_attributes().visible_to);
    r
}

/// The roles to deal for the given options, with `villagers` villagers.
pub fn build_role_pool(werewolves: u32, bodyguard: bool, seer: bool, lycan: bool, tanner: bool, villagers: usize) -> (r: Vec<PlayerAttributes>)
    ensures
        attributes_view(r@) == role_pool(werewolves as nat, bodyguard, seer, lycan, tanner, villagers as nat),
{
    let mut roles: Vec<PlayerAttributes> = Vec::new();
    if seer {
        roles.push(attributes_for(PlayerRole::Seer));
    }
    if bodyguard {
        roles.push(attributes_for(PlayerRole::Bodyguard));
    }
    if lycan {
        roles.push(attributes_for(PlayerRole::Lycan));
    }
    if tanner {
        roles.push(attributes_for(PlayerRole::Tanner));
    }
    let ghost special = attributes_view(roles@);
    assert(attributes_view(roles@) =~= special + repeat_role(0, PlayerRole::Werewolf));
    assert(special =~= optional_role(seer, PlayerRole::Seer) + optional_role(bodyguard, PlayerRole::Bodyguard)
        + optional_role(lycan, PlayerRole::Lycan) + optional_role(tanner, PlayerRole::Tanner));
    let mut k: u32 = 0;
    while k < werewolves
        invariant
            k <= werewolves,
            attributes_view(roles@) == special + repeat_role(k as nat, PlayerRole::Werewolf),
        decreases werewolves - k,
    {
        let ghost before = roles@;
        roles.push(attributes_for(PlayerRole::Werewolf));
        proof {
            assert(attributes_view(roles@) =~= attributes_view(before).push(role_attributes(PlayerRole::Werewolf)));
            assert(repeat_role((k + 1) as nat, PlayerRole::Werewolf) =~= repeat_role(k as nat, PlayerRole::Werewolf).push(
                role_attributes(PlayerRole::Werewolf),
            ));
            assert(attributes_view(roles@) =~= special + repeat_role((k + 1) as nat, PlayerRole::Werewolf));
        }
        k = k + 1;
    }
    let ghost with_wolves = attributes_view(roles@);
    assert(with_wolves =~= special + repeat_role(werewolves as nat, PlayerRole::Werewolf));
    let mut v: usize = 0;
    while v < villagers
        invariant
            v <= villagers,
            attributes_view(roles@) == with_wolves + repeat_role(v as nat, PlayerRole::Villager),
        decreases villagers - v,
    {
        let ghost before = roles@;
        roles.push(attributes_for(PlayerRole::Villager));
        proof {
            assert(attributes_view(roles@) =~= attributes_view(before).push(role_attributes(PlayerRole::Villager)));
            assert(repeat_role((v + 1) as nat, PlayerRole::Villager) =~= repeat_role(v as nat, PlayerRole::Villager).push(
                role_attributes(PlayerRole::Villager),
            ));
            assert(attributes_view(roles@) =~= with_wolves + repeat_role((v + 1) as nat, PlayerRole::Villager));
        }
        v = v + 1;
    }
    roles
}

/// The players once roles are dealt: the player on `connection_id` becomes
/// the Mod, and each other player in turn takes the role of `roles` that the
/// next of `draws` picks (modulo the roles left).
pub fn create_new_players(players: &Vec<Player>, roles: Vec<PlayerAttributes>, connection_id: &String, draws: &Vec<usize>) -> (r: Vec<Player>)
    ensures
        players_view(r@) == deal(players_view(players@), attributes_view(roles@), connection_id@, draws@),
{
    let ghost ps = players_view(players@);
    let ghost pool0 = attributes_view(roles@);
    let ghost conn = connection_id@;
    let mut roles = roles;
    let mut out: Vec<Player> = Vec::new();
    let mut k: usize = 0;
    let mut j: usize = 0;
    assert(ps.subrange(0, ps.len() as int) =~= ps);
    assert(draws@.subrange(0, draws@.len() as int) =~= draws@);
    assert(players_view(out@) + deal(ps, pool0, conn, draws@) =~= deal(ps, pool0, conn, draws@));
    while k < players.len()
        invariant
            k <= players@.len(),
            j <= draws@.len(),
            ps == players_view(players@),
            conn == connection_id@,
            players_view(out@) + deal(ps.subrange(k as int, ps.len() as int), attributes_view(roles@), conn, draws@.subrange(j as int, draws@.len() as int))
                == deal(ps, pool0, conn, draws@),
        decreases players@.len() - k,
    {
        let ghost tail = ps.subrange(k as int, ps.len() as int);
        let ghost ds = draws@.subrange(j as int, draws@.len() as int);
        let ghost pool = attributes_view(roles@);
        assert(tail.drop_first() =~= ps.subrange(k + 1, ps.len() as int));
        assert(tail[0] == players@[k as int]@);
        let mut p = players[k].clone();
        if players[k].id == *connection_id {
            p.attributes = mod_player_attributes();
            proof {
                assert(players_view(out@.push(p)) =~= players_view(out@) + seq![p@]);
            }
        } else if roles.len() == 0 {
            proof {
                assert(players_view(out@.push(p)) =~= players_view(out@) + seq![p@]);
            }
        } else {
            let i = if j < draws.len() {
                draws[j] % roles.len()
            } else {
                0
            };
            proof {
                assert(i == pick(pool.len(), ds));
            }
            p.attributes = roles.remove(i);
            proof {
                assert(attributes_view(roles@) =~= pool.remove(i as int));
                assert(players_view(out@.push(p)) =~= players_view(out@) + seq![p@]);
            }
            if j < draws.len() {
                proof {
                    assert(draws@.subrange(j + 1, draws@.len() as int) =~= rest(ds));
                }
                j = j + 1;
            } else {
                proof {
                    assert(ds =~= rest(ds));
                }
            }
        }
        out.push(p);
        k = k + 1;
    }
    assert(ps.subrange(k as int, ps.len() as int) =~= Seq::<PlayerView>::empty());
    assert(players_view(out@) =~= players_view(out@) + Seq::<PlayerView>::empty());
    out
}

/// Starts the game with the roles dealt by `draws`; day breaks.
pub fn move_to_day(game_state: GameState, actor_id: &String, werewolves: u32, bodyguard: bool, seer: bool, lycan: bool, tanner: bool, draws: &Vec<usize>) -> (r: Result<GameState, ActionError>)
    ensures
        outcome_is(r, start_outcome(game_state@, actor_id@, werewolves, bodyguard, seer, lycan, tanner, draws@)),
{
    let mut game_state = game_state;
    if find_by_id(&game_state.players, actor_id).is_none() {
        return Err(ActionError::new(ErrorKind::PlayerNotFound, "Could not find player with connection ID"));
    }
    if game_state.phase.name != PhaseName::Lobby {
        return Err(ActionError::new(ErrorKind::NotYourTurn, "Not a valid transition!"));
    }
    let mut roles_count: u64 = werewolves as u64 + 1;
    if bodyguard {
        roles_count = roles_count + 1;
    }
    if seer {
        roles_count = roles_count + 1;
    }
    if lycan {
        roles_count = roles_count + 1;
    }
    if tanner {
        roles_count = roles_count + 1;
    }
    let n = game_state.players.len();
    if roles_count > n as u64 {
        return Err(ActionError::new(ErrorKind::TooManyRoles, "More roles than players!"));
    }
    let villagers = n - roles_count as usize;
    let roles = build_role_pool(werewolves, bodyguard, seer, lycan, tanner, villagers);
    let players = create_new_players(&game_state.players, roles, actor_id, draws);
    game_state.players = players;
    game_state.phase = Phase { name: PhaseName::Day, data: StrMap::new() };
    Ok(game_state)
}

/// Starts the game, dealing roles at random: whatever is drawn, the actor
/// becomes the Mod, every other player holds one role of the pool and the
/// pool is dealt out whole, and day breaks. Options left out take their
/// defaults: a Seer, and no Bodyguard, Lycan or Tanner.
pub fn handle_start(game_state: GameState, actor_id: &String, werewolves: u32, bodyguard: Option<bool>, seer: Option<bool>, lycan: Option<bool>, tanner: Option<bool>) -> (r: Result<GameState, ActionError>)
    ensures
        ({
            let s = game_state@;
            let bg = bodyguard.unwrap_or(false);
            let se = seer.unwrap_or(true);
            let ly = lycan.unwrap_or(false);
            let ta = tanner.unwrap_or(false);
            match r {
                Err(e) => start_check(s, actor_id@, werewolves, bg, se, ly, ta) == Some(e.kind),
                Ok(t) => {
                    &&& start_check(s, actor_id@, werewolves, bg, se, ly, ta) is None
                    &&& t@.lobby_id == s.lobby_id && t@.internal_state == s.internal_state
                    &&& t@.ttl == s.ttl && t@.version == s.version
                    &&& t@.phase == PhaseView { name: PhaseName::Day, data: Map::empty() }
                    &&& t@.players.len() == s.players.len()
                    &&& forall|i: int| 0 <= i < s.players.len() ==> {
                        &&& (#[trigger] t@.players[i]).id == s.players[i].id
                        &&& t@.players[i].name == s.players[i].name
                        &&& t@.players[i].secret == s.players[i].secret
                        &&& s.players[i].id == actor_id@ ==> t@.players[i].attributes == mod_attributes()
                    }
                    &&& visible_to_mod(t@.players)
                    &&& count(t@.players, Criterion::WithRole(PlayerRole::Mod)) == 1
                    &&& dealt_attributes(t@.players, actor_id@).to_multiset() == role_pool(
                        werewolves as nat,
                        bg,
                        se,
                        ly,
                        ta,
                        (s.players.len() - slots(werewolves, bg, se, ly, ta)) as nat,
                    ).to_multiset()
                },
            }
        }),
{
    let bg = bodyguard.unwrap_or(false);
    let se = seer.unwrap_or(true);
    let ly = lycan.unwrap_or(false);
    let ta = tanner.unwrap_or(false);
    let n = game_state.players.len();
    let draws = if n > 0 {
        random_draws(n - 1)
    } else {
        Vec::new()
    };
    let ghost s = game_state@;
    let r = move_to_day(game_state, actor_id, werewolves, bg, se, ly, ta, &draws);
    proof {
        if r is Ok {
            let pool = role_pool(
                werewolves as nat,
                bg,
                se,
                ly,
                ta,
                (s.players.len() - slots(werewolves, bg, se, ly, ta)) as nat,
            );
            assert(pool.len() == s.players.len() - 1);
            lemma_deal_keeps_players(s.players, pool, actor_id@, draws@);
            lemma_deal_hands_out_pool(s.players, pool, actor_id@, draws@);
            lemma_role_pool_seen_by_mod(
                werewolves as nat,
                bg,
                se,
                ly,
                ta,
                (s.players.len() - slots(werewolves, bg, se, ly, ta)) as nat,
            );
            lemma_deal_visible_to_mod(s.players, pool, actor_id@, draws@);
            lemma_deal_one_mod(s.players, pool, actor_id@, draws@);
        }
    }
    r
}

} // verus!
