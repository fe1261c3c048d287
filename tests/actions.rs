use werewolf::bodyguard::handle_bodyguard;
use werewolf::connection::{endpoint, handle_unknown, https_endpoint, ActionKind, RequestContext};
use werewolf::join::{handle_join, join_game, new_game};
use werewolf::lynch::handle_lynch;
use werewolf::rules::{living_players_with_role, winner_label};
use werewolf::seer::{get_new_players, handle_seer};
use werewolf::sleep::handle_sleep;
use werewolf::start::{build_role_pool, create_new_players, handle_start};
use werewolf::store::{prepare_save, RecordSlot};
use werewolf::strmap::StrMap;
use werewolf::types::{
    ErrorKind, GameState, Phase, PhaseName, Player, PlayerAttributes, PlayerRole, PlayerTeam,
};
use werewolf::visibility::{broadcast_views, filter_state};
use werewolf::werewolf::handle_werewolf;

fn player(id: &str, name: &str, role: PlayerRole, team: PlayerTeam, alive: bool, visible: &[&str]) -> Player {
    Player {
        id: id.to_string(),
        name: name.to_string(),
        secret: format!("secret-{}", name),
        attributes: PlayerAttributes {
            role,
            team,
            alive,
            visible_to: visible.iter().map(|s| s.to_string()).collect(),
        },
    }
}

fn villager(id: &str, name: &str) -> Player {
    player(id, name, PlayerRole::Villager, PlayerTeam::Good, true, &["Mod"])
}

fn wolf(id: &str, name: &str) -> Player {
    player(id, name, PlayerRole::Werewolf, PlayerTeam::Evil, true, &["Mod", "Werewolf"])
}

fn moderator(id: &str, name: &str) -> Player {
    player(id, name, PlayerRole::Mod, PlayerTeam::Unknown, true, &["All"])
}

fn seer(id: &str, name: &str) -> Player {
    player(id, name, PlayerRole::Seer, PlayerTeam::Good, true, &["Mod"])
}

fn guard(id: &str, name: &str) -> Player {
    player(id, name, PlayerRole::Bodyguard, PlayerTeam::Good, true, &["Mod"])
}

fn game(phase: PhaseName, players: Vec<Player>) -> GameState {
    GameState {
        lobby_id: "ABCD".to_string(),
        phase: Phase { name: phase, data: StrMap::new() },
        players,
        internal_state: StrMap::new(),
        ttl: 1000,
        version: 7,
    }
}

fn table() -> Vec<Player> {
    vec![
        moderator("m", "Mia"),
        wolf("w1", "Walt"),
        wolf("w2", "Wes"),
        seer("s", "Sue"),
        guard("g", "Gus"),
        villager("b", "Bob"),
        villager("c", "Cid"),
        player("l", "Lou", PlayerRole::Lycan, PlayerTeam::Good, true, &["Mod"]),
        villager("d", "Dee"),
    ]
}

fn s(x: &str) -> String {
    x.to_string()
}

fn kind<T: std::fmt::Debug>(r: Result<T, werewolf::types::ActionError>) -> ErrorKind {
    r.unwrap_err().kind
}

#[test]
fn join_rejects_empty_fields() {
    assert_eq!(kind(handle_join(None, &s("c"), s(""), s("x"), None, 5)), ErrorKind::Validation);
    assert_eq!(kind(handle_join(None, &s("c"), s("Al"), s(""), None, 5)), ErrorKind::Validation);
}

#[test]
fn join_with_unknown_code_is_not_found() {
    assert_eq!(kind(handle_join(None, &s("c"), s("Al"), s("x"), Some(s("ZZZZ")), 5)), ErrorKind::NotFound);
    let other = game(PhaseName::Lobby, vec![villager("a", "Ann")]);
    assert_eq!(kind(handle_join(Some(other), &s("c"), s("Al"), s("x"), Some(s("ZZZZ")), 5)), ErrorKind::NotFound);
}

#[test]
fn join_adds_player_in_lobby() {
    let g = game(PhaseName::Lobby, vec![villager("a", "Ann")]);
    let g = handle_join(Some(g), &s("c2"), s("Bea"), s("pw"), Some(s("ABCD")), 5).unwrap();
    assert_eq!(g.players.len(), 2);
    assert_eq!(g.players[1].name, "Bea");
    assert_eq!(g.players[1].id, "c2");
    assert_eq!(g.players[1].attributes.visible_to, vec![s("All")]);
    assert_eq!(g.version, 7);
}

#[test]
fn rejoin_with_secret_takes_new_connection() {
    let g = game(PhaseName::Day, table());
    let g = join_game(g, &s("new-conn"), s("Walt"), s("secret-Walt")).unwrap();
    let walt = g.players.iter().find(|p| p.name == "Walt").unwrap();
    assert_eq!(walt.id, "new-conn");
    assert_eq!(walt.attributes.role, PlayerRole::Werewolf);
    assert_eq!(g.players.len(), 9);
}

#[test]
fn rejoin_with_wrong_secret_is_refused() {
    let g = game(PhaseName::Day, table());
    assert_eq!(kind(join_game(g, &s("x"), s("Walt"), s("guess"))), ErrorKind::Validation);
}

#[test]
fn new_name_cannot_join_started_game() {
    let g = game(PhaseName::Day, table());
    assert_eq!(kind(join_game(g, &s("x"), s("Newcomer"), s("pw"))), ErrorKind::GameInProgress);
}

#[test]
fn new_game_has_fresh_code() {
    let g = new_game(&s("conn"), s("Zed"), s("pw"), 100);
    assert_eq!(g.lobby_id.len(), 4);
    assert!(g.lobby_id.chars().all(|c| ('A'..='Z').contains(&c)));
    assert_eq!(g.ttl, 100 + 172800);
    assert_eq!(g.version, 1);
}

#[test]
fn start_refuses_too_many_roles() {
    let g = game(PhaseName::Lobby, vec![villager("a", "Ann"), villager("b", "Bob"), villager("c", "Cid")]);
    assert_eq!(kind(handle_start(g, &s("a"), 2, None, None, None, None)), ErrorKind::TooManyRoles);
}

#[test]
fn start_outside_lobby_is_refused() {
    let g = game(PhaseName::Day, table());
    assert_eq!(kind(handle_start(g, &s("m"), 1, None, None, None, None)), ErrorKind::NotYourTurn);
}

#[test]
fn start_by_stranger_is_refused() {
    let g = game(PhaseName::Lobby, vec![villager("a", "Ann"), villager("b", "Bob"), villager("c", "Cid")]);
    assert_eq!(kind(handle_start(g, &s("zz"), 1, None, None, None, None)), ErrorKind::PlayerNotFound);
}

#[test]
fn start_with_every_special_role() {
    let names = ["A", "B", "C", "D", "E", "F", "G", "H"];
    let players: Vec<Player> = names.iter().map(|n| player(n, n, PlayerRole::Unknown, PlayerTeam::Unknown, true, &["All"])).collect();
    let g = handle_start(game(PhaseName::Lobby, players), &s("A"), 2, Some(true), Some(false), Some(true), Some(true)).unwrap();
    let roles: Vec<PlayerRole> = g.players.iter().map(|p| p.attributes.role).collect();
    let count = |r: PlayerRole| roles.iter().filter(|x| **x == r).count();
    assert_eq!(count(PlayerRole::Mod), 1);
    assert_eq!(count(PlayerRole::Werewolf), 2);
    assert_eq!(count(PlayerRole::Seer), 0);
    assert_eq!(count(PlayerRole::Bodyguard), 1);
    assert_eq!(count(PlayerRole::Lycan), 1);
    assert_eq!(count(PlayerRole::Tanner), 1);
    assert_eq!(count(PlayerRole::Villager), 2);
}

#[test]
fn role_pool_order() {
    let pool = build_role_pool(2, true, true, false, true, 1);
    let roles: Vec<PlayerRole> = pool.iter().map(|a| a.role).collect();
    assert_eq!(roles, vec![PlayerRole::Seer, PlayerRole::Bodyguard, PlayerRole::Tanner, PlayerRole::Werewolf, PlayerRole::Werewolf, PlayerRole::Villager]);
    assert_eq!(pool[3].visible_to, vec![s("Mod"), s("Werewolf")]);
    assert_eq!(pool[0].visible_to, vec![s("Mod")]);
}

#[test]
fn dealing_skips_the_moderator() {
    let players = vec![villager("a", "Ann"), villager("b", "Bob"), villager("c", "Cid")];
    let pool = build_role_pool(1, false, true, false, false, 0);
    let dealt = create_new_players(&players, pool, &s("b"), &vec![0, 0]);
    assert_eq!(dealt[0].attributes.role, PlayerRole::Seer);
    assert_eq!(dealt[1].attributes.role, PlayerRole::Mod);
    assert_eq!(dealt[2].attributes.role, PlayerRole::Werewolf);
    assert_eq!(dealt[1].id, "b");
}

#[test]
fn lynch_needs_the_moderator() {
    let g = game(PhaseName::Day, table());
    assert_eq!(kind(handle_lynch(g, &s("b"), &s("Walt"))), ErrorKind::WrongRole);
}

#[test]
fn lynch_by_unknown_connection() {
    let g = game(PhaseName::Day, table());
    assert_eq!(kind(handle_lynch(g, &s("nobody"), &s("Walt"))), ErrorKind::PlayerNotFound);
}

#[test]
fn lynch_at_night_is_refused() {
    let g = game(PhaseName::Werewolf, table());
    assert_eq!(kind(handle_lynch(g, &s("m"), &s("Walt"))), ErrorKind::NotYourTurn);
}

#[test]
fn lynch_unknown_or_dead_target() {
    let g = game(PhaseName::Day, table());
    assert_eq!(kind(handle_lynch(g, &s("m"), &s("Ghost"))), ErrorKind::InvalidTarget);
    let mut players = table();
    players[5].attributes.alive = false;
    let g = game(PhaseName::Day, players);
    assert_eq!(kind(handle_lynch(g, &s("m"), &s("Bob"))), ErrorKind::AlreadyDead);
}

#[test]
fn lynch_then_night_starts_with_seer() {
    let g = handle_lynch(game(PhaseName::Day, table()), &s("m"), &s("Bob")).unwrap();
    assert_eq!(g.phase.name, PhaseName::Seer);
    assert!(!g.players[5].attributes.alive);
    assert_eq!(g.players.len(), 9);
}

#[test]
fn tanner_wins_when_lynched() {
    let players = vec![
        moderator("m", "Mia"),
        wolf("w", "Walt"),
        villager("b", "Bob"),
        player("t", "Tom", PlayerRole::Tanner, PlayerTeam::Good, true, &["Mod"]),
    ];
    let g = handle_lynch(game(PhaseName::Day, players), &s("m"), &s("Tom")).unwrap();
    assert_eq!(g.phase.name, PhaseName::End);
    assert_eq!(g.phase.data.get(&s("winner")), Some(&s("Tanner, Evil")));
}

#[test]
fn winner_label_joins_names() {
    assert_eq!(winner_label(&vec![PlayerTeam::Tanner, PlayerTeam::Good]), "Tanner, Good");
    assert_eq!(winner_label(&vec![PlayerTeam::Evil]), "Evil");
    assert_eq!(winner_label(&vec![]), "");
}

#[test]
fn sleep_goes_to_first_living_night_role() {
    let g = handle_sleep(game(PhaseName::Day, table()), &s("m")).unwrap();
    assert_eq!(g.phase.name, PhaseName::Seer);
    let mut players = table();
    players[3].attributes.alive = false;
    let g = handle_sleep(game(PhaseName::Day, players.clone()), &s("m")).unwrap();
    assert_eq!(g.phase.name, PhaseName::Bodyguard);
    players[4].attributes.alive = false;
    let g = handle_sleep(game(PhaseName::Day, players), &s("m")).unwrap();
    assert_eq!(g.phase.name, PhaseName::Werewolf);
    assert_eq!(kind(handle_sleep(game(PhaseName::Seer, table()), &s("m"))), ErrorKind::NotYourTurn);
}

#[test]
fn seer_marks_target_seen() {
    let g = handle_seer(game(PhaseName::Seer, table()), &s("s"), Some(s("Walt"))).unwrap();
    assert_eq!(g.phase.name, PhaseName::Bodyguard);
    assert_eq!(g.players[1].attributes.visible_to, vec![s("Mod"), s("Werewolf"), s("Seer")]);
    assert_eq!(kind(handle_seer(g, &s("s"), Some(s("Walt")))), ErrorKind::NotYourTurn);
    let mut again = game(PhaseName::Seer, table());
    again.players[1].attributes.visible_to.push(s("Seer"));
    assert_eq!(kind(handle_seer(again, &s("s"), Some(s("Walt")))), ErrorKind::AlreadySeen);
}

#[test]
fn seer_may_pass() {
    let mut players = table();
    players[4].attributes.alive = false;
    let g = handle_seer(game(PhaseName::Seer, players), &s("s"), None).unwrap();
    assert_eq!(g.phase.name, PhaseName::Werewolf);
    assert_eq!(get_new_players(None, game(PhaseName::Seer, table())).unwrap().len(), 9);
}

#[test]
fn seer_target_errors() {
    assert_eq!(kind(handle_seer(game(PhaseName::Seer, table()), &s("b"), Some(s("Walt")))), ErrorKind::WrongRole);
    assert_eq!(kind(get_new_players(Some(s("Nobody")), game(PhaseName::Seer, table()))), ErrorKind::InvalidTarget);
    let mut players = table();
    players[6].attributes.alive = false;
    assert_eq!(kind(get_new_players(Some(s("Cid")), game(PhaseName::Seer, players))), ErrorKind::InvalidTarget);
}

#[test]
fn bodyguard_cannot_guard_self_or_twice() {
    let g = game(PhaseName::Bodyguard, table());
    assert_eq!(kind(handle_bodyguard(g, &s("g"), &s("Gus"))), ErrorKind::InvalidTarget);
    let mut g = game(PhaseName::Bodyguard, table());
    g.internal_state.insert(s("last_guarded"), s("Bob"));
    assert_eq!(kind(handle_bodyguard(g, &s("g"), &s("Bob"))), ErrorKind::InvalidTarget);
    let mut g = game(PhaseName::Bodyguard, table());
    g.internal_state.insert(s("last_guarded"), s("Bob"));
    g.internal_state.insert(s("other"), s("x"));
    let g = handle_bodyguard(g, &s("g"), &s("Cid")).unwrap();
    assert_eq!(g.internal_state.len(), 1);
    assert_eq!(g.internal_state.get(&s("last_guarded")), Some(&s("Cid")));
    assert_eq!(g.phase.name, PhaseName::Werewolf);
}

#[test]
fn bodyguard_target_must_live() {
    let mut players = table();
    players[5].attributes.alive = false;
    assert_eq!(kind(handle_bodyguard(game(PhaseName::Bodyguard, players), &s("g"), &s("Bob"))), ErrorKind::InvalidTarget);
    assert_eq!(kind(handle_bodyguard(game(PhaseName::Bodyguard, table()), &s("g"), &s("Nobody"))), ErrorKind::InvalidTarget);
}

#[test]
fn wolves_disagreeing_kill_no_one() {
    let g = game(PhaseName::Werewolf, table());
    let g = handle_werewolf(g, &s("w1"), &s("Bob")).unwrap();
    assert_eq!(g.phase.name, PhaseName::Werewolf);
    let g = handle_werewolf(g, &s("w2"), &s("Cid")).unwrap();
    assert_eq!(g.phase.name, PhaseName::Day);
    assert_eq!(g.phase.data.len(), 0);
    assert!(g.players.iter().all(|p| p.attributes.alive));
}

#[test]
fn wolf_may_change_vote() {
    let g = game(PhaseName::Werewolf, table());
    let g = handle_werewolf(g, &s("w1"), &s("Bob")).unwrap();
    let g = handle_werewolf(g, &s("w1"), &s("Cid")).unwrap();
    assert_eq!(g.phase.data.len(), 1);
    assert_eq!(g.phase.data.get(&s("Walt")), Some(&s("Cid")));
    let g = handle_werewolf(g, &s("w2"), &s("Cid")).unwrap();
    assert!(!g.players[6].attributes.alive);
    assert_eq!(g.phase.name, PhaseName::Day);
}

#[test]
fn wolves_cannot_eat_evil_or_dead() {
    let g = game(PhaseName::Werewolf, table());
    assert_eq!(kind(handle_werewolf(g, &s("w1"), &s("Wes"))), ErrorKind::InvalidTarget);
    let mut players = table();
    players[5].attributes.alive = false;
    assert_eq!(kind(handle_werewolf(game(PhaseName::Werewolf, players), &s("w1"), &s("Bob"))), ErrorKind::InvalidTarget);
    assert_eq!(kind(handle_werewolf(game(PhaseName::Werewolf, table()), &s("b"), &s("Cid"))), ErrorKind::WrongRole);
}

#[test]
fn wolves_eating_last_good_win() {
    let players = vec![moderator("m", "Mia"), wolf("w", "Walt"), villager("b", "Bob"), villager("c", "Cid")];
    let g = handle_werewolf(game(PhaseName::Werewolf, players), &s("w"), &s("Bob")).unwrap();
    assert_eq!(g.phase.name, PhaseName::End);
    assert_eq!(g.phase.data.get(&s("winner")), Some(&s("Evil")));
}

#[test]
fn seer_sees_lycan_as_evil() {
    let mut players = table();
    players[7].attributes.visible_to.push(s("Seer"));
    players[5].attributes.visible_to.push(s("Seer"));
    let v = filter_state(&players[3].clone(), game(PhaseName::Day, players));
    assert_eq!(v.players[7].attributes.role, PlayerRole::Unknown);
    assert_eq!(v.players[7].attributes.team, PlayerTeam::Evil);
    assert_eq!(v.players[5].attributes.role, PlayerRole::Unknown);
    assert_eq!(v.players[5].attributes.team, PlayerTeam::Good);
    assert_eq!(v.players[6].attributes.team, PlayerTeam::Unknown);
    assert_eq!(v.players[3].attributes.role, PlayerRole::Seer);
    assert!(v.players.iter().all(|p| p.attributes.visible_to.is_empty()));
}

#[test]
fn villager_sees_only_self_and_moderator() {
    let players = table();
    let v = filter_state(&players[5].clone(), game(PhaseName::Day, players));
    assert_eq!(v.players[0].attributes.role, PlayerRole::Mod);
    assert_eq!(v.players[1].attributes.role, PlayerRole::Unknown);
    assert_eq!(v.players[1].attributes.team, PlayerTeam::Unknown);
    assert_eq!(v.players[5].attributes.role, PlayerRole::Villager);
}

#[test]
fn wolves_see_each_other_and_votes() {
    let mut g = game(PhaseName::Werewolf, table());
    g.phase.data.insert(s("Walt"), s("Bob"));
    let players = table();
    let v = filter_state(&players[1].clone(), g.clone());
    assert_eq!(v.players[2].attributes.role, PlayerRole::Werewolf);
    assert_eq!(v.phase.data.len(), 1);
    let v = filter_state(&players[5].clone(), g);
    assert_eq!(v.phase.data.len(), 0);
}

#[test]
fn bodyguard_sees_last_guarded_in_their_phase() {
    let mut g = game(PhaseName::Bodyguard, table());
    g.internal_state.insert(s("last_guarded"), s("Cid"));
    let players = table();
    let v = filter_state(&players[4].clone(), g.clone());
    assert_eq!(v.phase.data.get(&s("last_guarded")), Some(&s("Cid")));
    let v = filter_state(&players[4].clone(), game(PhaseName::Bodyguard, table()));
    assert_eq!(v.phase.data.get(&s("last_guarded")), Some(&s("")));
}

#[test]
fn end_reveals_everything() {
    let players = table();
    let v = filter_state(&players[5].clone(), game(PhaseName::End, players.clone()));
    for (a, b) in v.players.iter().zip(players.iter()) {
        assert_eq!(a.attributes.role, b.attributes.role);
        assert_eq!(a.attributes.visible_to, b.attributes.visible_to);
    }
}

#[test]
fn broadcast_addresses_each_connection() {
    let g = game(PhaseName::Day, table());
    let views = broadcast_views(&g);
    assert_eq!(views.len(), 9);
    assert_eq!(views[1].0, "w1");
    assert_eq!(views[1].1.players[2].attributes.role, PlayerRole::Werewolf);
    assert_eq!(views[5].1.players[2].attributes.role, PlayerRole::Unknown);
}

#[test]
fn store_refuses_duplicates_and_missing() {
    let mut slot = RecordSlot::new();
    assert_eq!(kind(slot.load()), ErrorKind::NotFound);
    assert_eq!(kind(slot.save(game(PhaseName::Day, table()))), ErrorKind::NotFound);
    slot.create(game(PhaseName::Lobby, table())).unwrap();
    assert_eq!(kind(slot.create(game(PhaseName::Lobby, table()))), ErrorKind::Conflict);
}

#[test]
fn version_at_limit_cannot_be_written() {
    let mut g = game(PhaseName::Day, table());
    g.version = u32::MAX;
    let mut slot = RecordSlot::new();
    slot.create(g.clone()).unwrap();
    assert_eq!(kind(slot.save(g.clone())), ErrorKind::StoreError);
    assert_eq!(kind(prepare_save(g)), ErrorKind::StoreError);
    let (w, expected) = prepare_save(game(PhaseName::Day, table())).unwrap();
    assert_eq!(w.version, 8);
    assert_eq!(expected, 7);
}

#[test]
fn unknown_action_is_named() {
    let e = handle_unknown(s("dance")).unwrap_err();
    assert_eq!(e.kind, ErrorKind::UnknownAction);
    assert_eq!(e.message(), "Unknown action \"dance\"!");
    assert_eq!(ActionKind::from_str("lynch"), Some(ActionKind::Lynch));
    assert_eq!(ActionKind::from_str("Lynch"), None);
}

#[test]
fn names_round_trip() {
    for r in [PlayerRole::Unknown, PlayerRole::Villager, PlayerRole::Seer, PlayerRole::Werewolf, PlayerRole::Mod, PlayerRole::Bodyguard, PlayerRole::Lycan, PlayerRole::Tanner] {
        assert_eq!(PlayerRole::from_str(r.as_str()), Some(r));
    }
    for t in [PlayerTeam::Unknown, PlayerTeam::Good, PlayerTeam::Evil, PlayerTeam::Tanner, PlayerTeam::Mod] {
        assert_eq!(PlayerTeam::from_str(t.as_str()), Some(t));
    }
    for p in [PhaseName::Lobby, PhaseName::Day, PhaseName::Seer, PhaseName::Bodyguard, PhaseName::Werewolf, PhaseName::End] {
        assert_eq!(PhaseName::from_str(p.as_str()), Some(p));
    }
    assert_eq!(PlayerRole::Mod.as_str(), "Mod");
    assert_eq!(PlayerRole::from_str("MOD"), None);
    assert_eq!(PhaseName::from_str(""), None);
}

#[test]
fn endpoints() {
    let ctx = RequestContext { connection_id: Some(s("c")), domain_name: Some(s("abc.example.com")), stage: Some(s("prod")) };
    assert_eq!(endpoint(&ctx), "https://abc.example.com/prod");
    assert_eq!(https_endpoint("wss://abc.example.com/prod"), "https://abc.example.com/prod");
    assert_eq!(https_endpoint("https://x"), "https://x");
}

#[test]
fn living_counts() {
    let mut players = table();
    assert_eq!(living_players_with_role(PlayerRole::Werewolf, &players), 2);
    players[1].attributes.alive = false;
    assert_eq!(living_players_with_role(PlayerRole::Werewolf, &players), 1);
}

#[test]
fn strmap_replaces_values() {
    let mut m = StrMap::new();
    m.insert(s("a"), s("1"));
    m.insert(s("b"), s("2"));
    m.insert(s("a"), s("3"));
    assert_eq!(m.len(), 2);
    assert_eq!(m.get(&s("a")), Some(&s("3")));
    assert_eq!(m.get_or_empty(&s("zz")), "");
    assert!(!m.all_values_equal(&s("3")));
    let c = m.clone();
    assert_eq!(c.pairs().len(), 2);
}

#[test]
fn random_draws_stay_in_range() {
    for _ in 0..50 {
        let d = werewolf::draw::random_draws(5);
        assert_eq!(d.len(), 5);
        for (k, x) in d.iter().enumerate() {
            assert!(*x < 5 - k);
        }
        let code = werewolf::draw::create_random_code();
        assert_eq!(code.len(), 4);
        assert!(code.chars().all(|c| c.is_ascii_uppercase()));
    }
}

#[test]
fn taken_name_in_lobby_needs_its_secret() {
    let g = game(PhaseName::Lobby, vec![villager("a", "Ann")]);
    assert_eq!(kind(join_game(g, &s("x"), s("Ann"), s("other"))), ErrorKind::Validation);
    let g = game(PhaseName::Lobby, vec![villager("a", "Ann")]);
    let g = join_game(g, &s("x"), s("Ann"), s("secret-Ann")).unwrap();
    assert_eq!(g.players.len(), 1);
    assert_eq!(g.players[0].id, "x");
}

#[test]
fn code_follows_the_draws() {
    assert_eq!(werewolf::draw::code_from_draws(&vec![0, 1, 25, 2]), "ABZC");
    assert_eq!(werewolf::draw::code_from_draws(&vec![7, 4, 11, 11]), "HELL");
}

#[test]
fn dead_targets_are_invalid_at_night() {
    let mut players = table();
    players[6].attributes.alive = false;
    assert_eq!(kind(handle_seer(game(PhaseName::Seer, players.clone()), &s("s"), Some(s("Cid")))), ErrorKind::InvalidTarget);
    assert_eq!(kind(handle_bodyguard(game(PhaseName::Bodyguard, players.clone()), &s("g"), &s("Cid"))), ErrorKind::InvalidTarget);
    assert_eq!(kind(handle_werewolf(game(PhaseName::Werewolf, players), &s("w1"), &s("Cid"))), ErrorKind::InvalidTarget);
}
