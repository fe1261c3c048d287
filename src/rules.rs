use vstd::prelude::*;
use vstd::seq_lib::group_to_multiset_ensures;
use crate::strmap::StrMap;
use crate::types::{team_name, players_view, Phase, PhaseName, PhaseView, Player, PlayerRole, PlayerTeam, PlayerView};

verus! {

/// A property of a single player, by which players are counted.
pub enum Criterion {
    LivingOnTeam(PlayerTeam),
    LivingWithRole(PlayerRole),
    WithRole(PlayerRole),
    WithId(Seq<char>),
    WithName(Seq<char>),
}

pub open spec fn meets(p: PlayerView, c: Criterion) -> bool {
    match c {
        Criterion::LivingOnTeam(t) => p.attributes.alive && p.attributes.team == t,
        Criterion::LivingWithRole(r) => p.attributes.alive && p.attributes.role == r,
        Criterion::WithRole(r) => p.attributes.role == r,
        Criterion::WithId(id) => p.id == id,
        Criterion::WithName(n) => p.name == n,
    }
}

/// How many of `ps` meet `c`.
pub open spec fn count(ps: Seq<PlayerView>, c: Criterion) -> nat
    decreases ps.len(),
{
    if ps.len() == 0 {
        0
    } else {
        count(ps.drop_last(), c) + if meets(ps.last(), c) { 1nat } else { 0nat }
    }
}

/// Who has won, if the game is over: Tanner first when a Tanner was dealt and
/// none is left alive, then Good when no Evil player lives, else Evil.
pub open spec fn winners(ps: Seq<PlayerView>) -> Option<Seq<PlayerTeam>> {
    let good = count(ps, Criterion::LivingOnTeam(PlayerTeam::Good));
    let evil = count(ps, Criterion::LivingOnTeam(PlayerTeam::Evil));
    if evil >= good || evil == 0 {
        let tanner: Seq<PlayerTeam> = if count(ps, Criterion::WithRole(PlayerRole::Tanner)) > 0
            && count(ps, Criterion::LivingWithRole(PlayerRole::Tanner)) == 0 {
            seq![PlayerTeam::Tanner]
        } else {
            Seq::empty()
        };
        Some(tanner.push(if evil == 0 { PlayerTeam::Good } else { PlayerTeam::Evil }))
    } else {
        None
    }
}

/// The names of `ts` joined by ", ".
pub open spec fn label_of(ts: Seq<PlayerTeam>) -> Seq<char>
    decreases ts.len(),
{
    if ts.len() == 0 {
        Seq::empty()
    } else if ts.len() == 1 {
        team_name(ts[0])
    } else {
        label_of(ts.drop_last()) + ", "@ + team_name(ts.last())
    }
}

/// The first night phase after a day: Seer, then Bodyguard, then Werewolf,
/// skipping a phase whose role has no living holder.
pub open spec fn night_after_day(ps: Seq<PlayerView>) -> PhaseName {
    if count(ps, Criterion::LivingWithRole(PlayerRole::Seer)) > 0 {
        PhaseName::Seer
    } else if count(ps, Criterion::LivingWithRole(PlayerRole::Bodyguard)) > 0 {
        PhaseName::Bodyguard
    } else {
        PhaseName::Werewolf
    }
}

/// The night phase after the Seer's.
pub open spec fn night_after_seer(ps: Seq<PlayerView>) -> PhaseName {
    if count(ps, Criterion::LivingWithRole(PlayerRole::Bodyguard)) > 0 {
        PhaseName::Bodyguard
    } else {
        PhaseName::Werewolf
    }
}

pub open spec fn winner_key() -> Seq<char> {
    "winner"@
}

/// The phase after a death: End, naming the winners, when the game is over;
/// else `next` with empty data.
pub open spec fn phase_after_death(ps: Seq<PlayerView>, next: PhaseName) -> PhaseView {
    match winners(ps) {
        Some(w) => PhaseView { name: PhaseName::End, data: map![winner_key() => label_of(w)] },
        None => PhaseView { name: next, data: Map::empty() },
    }
}

proof fn lemma_count_step(ps: Seq<PlayerView>, c: Criterion, i: int)
    requires
        0 <= i < ps.len(),
    ensures
        count(ps.take(i + 1), c) == count(ps.take(i), c) + if meets(ps[i], c) { 1nat } else { 0nat },
{
    assert(ps.take(i + 1).drop_last() =~= ps.take(i));
}

proof fn lemma_count_remove(ps: Seq<PlayerView>, c: Criterion, j: int)
    requires
        0 <= j < ps.len(),
    ensures
        count(ps, c) == count(ps.remove(j), c) + if meets(ps[j], c) { 1nat } else { 0nat },
    decreases ps.len(),
{
    if j == ps.len() - 1 {
        assert(ps.remove(j) =~= ps.drop_last());
    } else {
        lemma_count_remove(ps.drop_last(), c, j);
        assert(ps.remove(j).drop_last() =~= ps.drop_last().remove(j));
        assert(ps.remove(j).last() == ps.last());
    }
}

/// Counting the first player apart from the rest.
pub proof fn lemma_count_remove_first(ps: Seq<PlayerView>, c: Criterion)
    requires
        ps.len() > 0,
    ensures
        count(ps, c) == count(ps.drop_first(), c) + if meets(ps[0], c) { 1nat } else { 0nat },
{
    lemma_count_remove(ps, c, 0);
    assert(ps.remove(0) =~= ps.drop_first());
}

pub proof fn lemma_count_at_least_one(ps: Seq<PlayerView>, c: Criterion, i: int)
    requires
        0 <= i < ps.len(),
        meets(ps[i], c),
    ensures
        count(ps, c) >= 1,
{
    lemma_count_remove(ps, c, i);
}

/// Two distinct players that meet `c` make a count of at least two.
pub proof fn lemma_count_at_least_two(ps: Seq<PlayerView>, c: Criterion, i: int, j: int)
    requires
        0 <= i < ps.len(),
        0 <= j < ps.len(),
        i != j,
        meets(ps[i], c),
        meets(ps[j], c),
    ensures
        count(ps, c) >= 2,
{
    lemma_count_remove(ps, c, j);
    let k = if i < j { i } else { i - 1 };
    assert(ps.remove(j)[k] == ps[i]);
    lemma_count_at_least_one(ps.remove(j), c, k);
}

/// Two lists that agree, position by position, on whether a player meets
/// `c1` and `c2` give the same counts.
pub proof fn lemma_count_pointwise(a: Seq<PlayerView>, b: Seq<PlayerView>, c1: Criterion, c2: Criterion)
    requires
        a.len() == b.len(),
        forall|i: int| 0 <= i < a.len() ==> meets(#[trigger] a[i], c1) == meets(b[i], c2),
    ensures
        count(a, c1) == count(b, c2),
    decreases a.len(),
{
    if a.len() > 0 {
        assert forall|i: int| 0 <= i < a.drop_last().len() implies meets(#[trigger] a.drop_last()[i], c1) == meets(
            b.drop_last()[i],
            c2,
        ) by {
            assert(a.drop_last()[i] == a[i] && b.drop_last()[i] == b[i]);
        }
        lemma_count_pointwise(a.drop_last(), b.drop_last(), c1, c2);
        assert(meets(a[a.len() - 1], c1) == meets(b[b.len() - 1], c2));
    }
}

/// A count of two or more comes from two distinct players.
pub proof fn lemma_two_witnesses(ps: Seq<PlayerView>, c: Criterion)
    requires
        count(ps, c) >= 2,
    ensures
        exists|i: int, j: int| 0 <= i < ps.len() && 0 <= j < ps.len() && i != j && meets(ps[i], c) && meets(ps[j], c),
    decreases ps.len(),
{
    let n = ps.len() - 1;
    if meets(ps[n], c) {
        lemma_one_witness(ps.drop_last(), c);
        let i = choose|i: int| 0 <= i < ps.drop_last().len() && meets(ps.drop_last()[i], c);
        assert(meets(ps[i], c) && meets(ps[n], c));
    } else {
        lemma_two_witnesses(ps.drop_last(), c);
        let (i, j) = choose|i: int, j: int|
            0 <= i < ps.drop_last().len() && 0 <= j < ps.drop_last().len() && i != j && meets(ps.drop_last()[i], c)
                && meets(ps.drop_last()[j], c);
        assert(meets(ps[i], c) && meets(ps[j], c));
    }
}

/// A positive count comes from some player.
pub proof fn lemma_one_witness(ps: Seq<PlayerView>, c: Criterion)
    requires
        count(ps, c) >= 1,
    ensures
        exists|i: int| 0 <= i < ps.len() && meets(ps[i], c),
    decreases ps.len(),
{
    let n = ps.len() - 1;
    if meets(ps[n], c) {
        assert(meets(ps[n], c));
    } else {
        lemma_one_witness(ps.drop_last(), c);
        let i = choose|i: int| 0 <= i < ps.drop_last().len() && meets(ps.drop_last()[i], c);
        assert(meets(ps[i], c));
    }
}

/// Counting does not depend on the order of the players.
pub proof fn lemma_count_ignores_order(a: Seq<PlayerView>, b: Seq<PlayerView>, c: Criterion)
    requires
        a.to_multiset() == b.to_multiset(),
    ensures
        count(a, c) == count(b, c),
    decreases a.len(),
{
    broadcast use group_to_multiset_ensures;

    if a.len() == 0 {
        assert(a.to_multiset().len() == 0);
        assert(b.to_multiset().len() == 0);
        assert(b.len() == 0);
    } else {
        let x = a.last();
        assert(a.to_multiset().count(x) > 0) by {
            assert(a.contains(x)) by {
                assert(a[a.len() - 1] == x);
            }
        }
        assert(b.contains(x));
        let j = choose|j: int| 0 <= j < b.len() && b[j] == x;
        lemma_count_remove(b, c, j);
        lemma_count_remove(a, c, a.len() - 1);
        assert(a.remove(a.len() - 1) =~= a.drop_last());
        assert(a.drop_last().to_multiset() =~= b.remove(j).to_multiset());
        lemma_count_ignores_order(a.drop_last(), b.remove(j), c);
    }
}

/// Whether the game is over, and who won, depends on the players alone and
/// not on the order in which they are listed.
pub proof fn lemma_game_over_ignores_order(a: Seq<PlayerView>, b: Seq<PlayerView>)
    requires
        a.to_multiset() == b.to_multiset(),
    ensures
        winners(a) == winners(b),
{
    lemma_count_ignores_order(a, b, Criterion::LivingOnTeam(PlayerTeam::Good));
    lemma_count_ignores_order(a, b, Criterion::LivingOnTeam(PlayerTeam::Evil));
    lemma_count_ignores_order(a, b, Criterion::WithRole(PlayerRole::Tanner));
    lemma_count_ignores_order(a, b, Criterion::LivingWithRole(PlayerRole::Tanner));
}

/// How many living players are on `team`.
pub fn living_players_on_team(team: PlayerTeam, players: &Vec<Player>) -> (r: usize)
    ensures
        r == count(players_view(players@), Criterion::LivingOnTeam(team)),
{
    let ghost ps = players_view(players@);
    let mut n: usize = 0;
    let mut i: usize = 0;
    while i < players.len()
        invariant
            i <= players@.len(),
            ps == players_view(players@),
            n <= i,
            n == count(ps.take(i as int), Criterion::LivingOnTeam(team)),
        decreases players@.len() - i,
    {
        proof {
            lemma_count_step(ps, Criterion::LivingOnTeam(team), i as int);
        }
        if players[i].attributes.alive && players[i].attributes.team == team {
            n = n + 1;
        }
        i = i + 1;
    }
    assert(ps.take(i as int) =~= ps);
    n
}

/// How many living players hold `role`.
pub fn living_players_with_role(role: PlayerRole, players: &Vec<Player>) -> (r: usize)
    ensures
        r == count(players_view(players@), Criterion::LivingWithRole(role)),
{
    let ghost ps = players_view(players@);
    let mut n: usize = 0;
    let mut i: usize = 0;
    while i < players.len()
        invariant
            i <= players@.len(),
            ps == players_view(players@),
            n <= i,
            n == count(ps.take(i as int), Criterion::LivingWithRole(role)),
        decreases players@.len() - i,
    {
        proof {
            lemma_count_step(ps, Criterion::LivingWithRole(role), i as int);
        }
        if players[i].attributes.alive && players[i].attributes.role == role {
            n = n + 1;
        }
        i = i + 1;
    }
    assert(ps.take(i as int) =~= ps);
    n
}

/// How many players, living or dead, hold `role`.
pub fn players_with_role(role: PlayerRole, players: &Vec<Player>) -> (r: usize)
    ensures
        r == count(players_view(players@), Criterion::WithRole(role)),
{
    let ghost ps = players_view(players@);
    let mut n: usize = 0;
    let mut i: usize = 0;
    while i < players.len()
        invariant
            i <= players@.len(),
            ps == players_view(players@),
            n <= i,
            n == count(ps.take(i as int), Criterion::WithRole(role)),
        decreases players@.len() - i,
    {
        proof {
            lemma_count_step(ps, Criterion::WithRole(role), i as int);
        }
        if players[i].attributes.role == role {
            n = n + 1;
        }
        i = i + 1;
    }
    assert(ps.take(i as int) =~= ps);
    n
}

/// The index of the one player connected under `id`; `None` where no player
/// or more than one is.
pub fn find_by_id(players: &Vec<Player>, id: &String) -> (r: Option<usize>)
    ensures
        match r {
            Some(i) => i < players@.len() && players@[i as int].id@ == id@
                && count(players_view(players@), Criterion::WithId(id@)) == 1,
            None => count(players_view(players@), Criterion::WithId(id@)) != 1,
        },
{
    let ghost ps = players_view(players@);
    let ghost c = Criterion::WithId(id@);
    let mut n: usize = 0;
    let mut found: usize = 0;
    let mut i: usize = 0;
    while i < players.len()
        invariant
            i <= players@.len(),
            ps == players_view(players@),
            c == Criterion::WithId(id@),
            n <= i,
            n == count(ps.take(i as int), c),
            n > 0 ==> found < i && players@[found as int].id@ == id@,
        decreases players@.len() - i,
    {
        proof {
            lemma_count_step(ps, c, i as int);
        }
        if players[i].id == *id {
            n = n + 1;
            found = i;
        }
        i = i + 1;
    }
    assert(ps.take(i as int) =~= ps);
    if n == 1 {
        Some(found)
    } else {
        None
    }
}

/// The index of the one player called `name`; `None` where no player or more
/// than one is.
pub fn find_by_name(players: &Vec<Player>, name: &String) -> (r: Option<usize>)
    ensures
        match r {
            Some(i) => i < players@.len() && players@[i as int].name@ == name@
                && count(players_view(players@), Criterion::WithName(name@)) == 1,
            None => count(players_view(players@), Criterion::WithName(name@)) != 1,
        },
{
    let ghost ps = players_view(players@);
    let ghost c = Criterion::WithName(name@);
    let mut n: usize = 0;
    let mut found: usize = 0;
    let mut i: usize = 0;
    while i < players.len()
        invariant
            i <= players@.len(),
            ps == players_view(players@),
            c == Criterion::WithName(name@),
            n <= i,
            n == count(ps.take(i as int), c),
            n > 0 ==> found < i && players@[found as int].name@ == name@,
        decreases players@.len() - i,
    {
        proof {
            lemma_count_step(ps, c, i as int);
        }
        if players[i].name == *name {
            n = n + 1;
            found = i;
        }
        i = i + 1;
    }
    assert(ps.take(i as int) =~= ps);
    if n == 1 {
        Some(found)
    } else {
        None
    }
}

/// Whether the game has ended, and if so which teams won.
pub fn check_game_over(players: &Vec<Player>) -> (r: Option<Vec<PlayerTeam>>)
    ensures
        match r {
            Some(w) => winners(players_view(players@)) == Some(w@),
            None => winners(players_view(players@)) is None,
        },
{
    let good = living_players_on_team(PlayerTeam::Good, players);
    let evil = living_players_on_team(PlayerTeam::Evil, players);
    if evil >= good || evil == 0 {
        let mut teams: Vec<PlayerTeam> = Vec::new();
        if players_with_role(PlayerRole::Tanner, players) > 0 && living_players_with_role(
            PlayerRole::Tanner,
            players,
        ) < 1 {
            teams.push(PlayerTeam::Tanner);
        }
        if evil == 0 {
            teams.push(PlayerTeam::Good);
        } else {
            teams.push(PlayerTeam::Evil);
        }
        proof {
            let w = winners(players_view(players@)).unwrap();
            assert(teams@ =~= w);
        }
        Some(teams)
    } else {
        None
    }
}

/// The names of `teams` joined by ", ", as announced at the end of a game.
pub fn winner_label(teams: &Vec<PlayerTeam>) -> (r: String)
    ensures
        r@ == label_of(teams@),
{
    let mut r = String::new();
    let mut i: usize = 0;
    while i < teams.len()
        invariant
            i <= teams@.len(),
            r@ == label_of(teams@.take(i as int)),
        decreases teams@.len() - i,
    {
        proof {
            assert(teams@.take(i + 1).drop_last() =~= teams@.take(i as int));
            assert(teams@.take(i + 1).last() == teams@[i as int]);
        }
        if i > 0 {
            r.append(", ");
        }
        r.append(teams[i].as_str());
        proof {
            if i == 0 {
                assert(r@ =~= team_name(teams@[0]));
            }
        }
        i = i + 1;
    }
    assert(teams@.take(i as int) =~= teams@);
    r
}

/// The first night phase after a day.
pub fn next_night_phase(players: &Vec<Player>) -> (r: PhaseName)
    ensures
        r == night_after_day(players_view(players@)),
{
    if living_players_with_role(PlayerRole::Seer, players) > 0 {
        PhaseName::Seer
    } else if living_players_with_role(PlayerRole::Bodyguard, players) > 0 {
        PhaseName::Bodyguard
    } else {
        PhaseName::Werewolf
    }
}

/// The night phase after the Seer's.
pub fn phase_after_seer(players: &Vec<Player>) -> (r: PhaseName)
    ensures
        r == night_after_seer(players_view(players@)),
{
    if living_players_with_role(PlayerRole::Bodyguard, players) > 0 {
        PhaseName::Bodyguard
    } else {
        PhaseName::Werewolf
    }
}

/// The phase after a player has died: End with the winners when the game is
/// over, else `next`.
pub fn resolve_death(players: &Vec<Player>, next: PhaseName) -> (r: Phase)
    ensures
        r@ == phase_after_death(players_view(players@), next),
{
    match check_game_over(players) {
        Some(w) => {
            let data = StrMap::singleton(String::from_str("winner"), winner_label(&w));
            Phase { name: PhaseName::End, data }
        },
        None => Phase { name: next, data: StrMap::new() },
    }
}

} // verus!
