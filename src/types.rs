use vstd::prelude::*;
use crate::strmap::StrMap;

verus! {

/// The role a player holds in a game.
#[derive(Clone, Copy, Debug, PartialEq, Eq, Structural)]
pub enum PlayerRole {
    Unknown,
    Villager,
    Seer,
    Werewolf,
    Mod,
    Bodyguard,
    Lycan,
    Tanner,
}

/// The side a player wins with.
#[derive(Clone, Copy, Debug, PartialEq, Eq, Structural)]
pub enum PlayerTeam {
    Unknown,
    Good,
    Evil,
    Tanner,
    Mod,
}

/// The stage of play, which decides which actions are accepted.
#[derive(Clone, Copy, Debug, PartialEq, Eq, Structural)]
pub enum PhaseName {
    Lobby,
    Day,
    Seer,
    Bodyguard,
    Werewolf,
    End,
}

/// The name under which a role is stored and listed in `visible_to`.
pub open spec fn role_name(r: PlayerRole) -> Seq<char> {
    match r {
        PlayerRole::Unknown => "Unknown"@,
        PlayerRole::Villager => "Villager"@,
        PlayerRole::Seer => "Seer"@,
        PlayerRole::Werewolf => "Werewolf"@,
        PlayerRole::Mod => "Mod"@,
        PlayerRole::Bodyguard => "Bodyguard"@,
        PlayerRole::Lycan => "Lycan"@,
        PlayerRole::Tanner => "Tanner"@,
    }
}

pub open spec fn team_name(t: PlayerTeam) -> Seq<char> {
    match t {
        PlayerTeam::Unknown => "Unknown"@,
        PlayerTeam::Good => "Good"@,
        PlayerTeam::Evil => "Evil"@,
        PlayerTeam::Tanner => "Tanner"@,
        PlayerTeam::Mod => "Mod"@,
    }
}

pub open spec fn phase_name(p: PhaseName) -> Seq<char> {
    match p {
        PhaseName::Lobby => "Lobby"@,
        PhaseName::Day => "Day"@,
        PhaseName::Seer => "Seer"@,
        PhaseName::Bodyguard => "Bodyguard"@,
        PhaseName::Werewolf => "Werewolf"@,
        PhaseName::End => "End"@,
    }
}

/// The entry of `visible_to` that makes a player's role public to everyone.
pub open spec fn all_marker() -> Seq<char> {
    "All"@
}

/// Whether two strings hold the same characters.
pub fn str_equal(a: &str, b: &str) -> (r: bool)
    ensures
        r == (a@ == b@),
{
    String::from_str(a) == String::from_str(b)
}

impl PlayerRole {
    pub fn as_str(&self) -> (r: &'static str)
        ensures
            r@ == role_name(*self),
    {
        match self {
            PlayerRole::Unknown => "Unknown",
            PlayerRole::Villager => "Villager",
            PlayerRole::Seer => "Seer",
            PlayerRole::Werewolf => "Werewolf",
            PlayerRole::Mod => "Mod",
            PlayerRole::Bodyguard => "Bodyguard",
            PlayerRole::Lycan => "Lycan",
            PlayerRole::Tanner => "Tanner",
        }
    }

    pub fn from_str(s: &str) -> (r: Option<PlayerRole>)
        ensures
            match r {
                Some(x) => role_name(x) == s@,
                None => forall|x: PlayerRole| role_name(x) != s@,
            },
    {
        if str_equal(s, "Unknown") {
            Some(PlayerRole::Unknown)
        } else if str_equal(s, "Villager") {
            Some(PlayerRole::Villager)
        } else if str_equal(s, "Seer") {
            Some(PlayerRole::Seer)
        } else if str_equal(s, "Werewolf") {
            Some(PlayerRole::Werewolf)
        } else if str_equal(s, "Mod") {
            Some(PlayerRole::Mod)
        } else if str_equal(s, "Bodyguard") {
            Some(PlayerRole::Bodyguard)
        } else if str_equal(s, "Lycan") {
            Some(PlayerRole::Lycan)
        } else if str_equal(s, "Tanner") {
            Some(PlayerRole::Tanner)
        } else {
            None
        }
    }
}

impl PlayerTeam {
    pub fn as_str(&self) -> (r: &'static str)
        ensures
            r@ == team_name(*self),
    {
        match self {
            PlayerTeam::Unknown => "Unknown",
            PlayerTeam::Good => "Good",
            PlayerTeam::Evil => "Evil",
            PlayerTeam::Tanner => "Tanner",
            PlayerTeam::Mod => "Mod",
        }
    }

    pub fn from_str(s: &str) -> (r: Option<PlayerTeam>)
        ensures
            match r {
                Some(x) => team_name(x) == s@,
                None => forall|x: PlayerTeam| team_name(x) != s@,
            },
    {
        if str_equal(s, "Unknown") {
            Some(PlayerTeam::Unknown)
        } else if str_equal(s, "Good") {
            Some(PlayerTeam::Good)
        } else if str_equal(s, "Evil") {
            Some(PlayerTeam::Evil)
        } else if str_equal(s, "Tanner") {
            Some(PlayerTeam::Tanner)
        } else if str_equal(s, "Mod") {
            Some(PlayerTeam::Mod)
        } else {
            None
        }
    }
}

impl PhaseName {
    pub fn as_str(&self) -> (r: &'static str)
        ensures
            r@ == phase_name(*self),
    {
        match self {
            PhaseName::Lobby => "Lobby",
            PhaseName::Day => "Day",
            PhaseName::Seer => "Seer",
            PhaseName::Bodyguard => "Bodyguard",
            PhaseName::Werewolf => "Werewolf",
            PhaseName::End => "End",
        }
    }

    pub fn from_str(s: &str) -> (r: Option<PhaseName>)
        ensures
            match r {
                Some(x) => phase_name(x) == s@,
                None => forall|x: PhaseName| phase_name(x) != s@,
            },
    {
        if str_equal(s, "Lobby") {
            Some(PhaseName::Lobby)
        } else if str_equal(s, "Day") {
            Some(PhaseName::Day)
        } else if str_equal(s, "Seer") {
            Some(PhaseName::Seer)
        } else if str_equal(s, "Bodyguard") {
            Some(PhaseName::Bodyguard)
        } else if str_equal(s, "Werewolf") {
            Some(PhaseName::Werewolf)
        } else if str_equal(s, "End") {
            Some(PhaseName::End)
        } else {
            None
        }
    }
}

#[derive(Debug)]
pub struct PlayerAttributes {
    pub role: PlayerRole,
    pub team: PlayerTeam,
    pub alive: bool,
    /// Names of the roles that may see this player's true role and team;
    /// "All" makes them public.
    pub visible_to: Vec<String>,
}

#[derive(Debug)]
pub struct Player {
    /// The connection the player is reached on; replaced when they rejoin.
    pub id: String,
    pub name: String,
    pub secret: String,
    pub attributes: PlayerAttributes,
}

#[derive(Debug)]
pub struct Phase {
    pub name: PhaseName,
    pub data: StrMap,
}

/// The record of one lobby.
#[derive(Debug)]
pub struct GameState {
    pub lobby_id: String,
    pub phase: Phase,
    pub players: Vec<Player>,
    pub internal_state: StrMap,
    /// Expiry, in seconds since the Unix epoch.
    pub ttl: u64,
    pub version: u32,
}

pub struct AttributesView {
    pub role: PlayerRole,
    pub team: PlayerTeam,
    pub alive: bool,
    pub visible_to: Seq<Seq<char>>,
}

pub struct PlayerView {
    pub id: Seq<char>,
    pub name: Seq<char>,
    pub secret: Seq<char>,
    pub attributes: AttributesView,
}

pub struct PhaseView {
    pub name: PhaseName,
    pub data: Map<Seq<char>, Seq<char>>,
}

pub struct GameView {
    pub lobby_id: Seq<char>,
    pub phase: PhaseView,
    pub players: Seq<PlayerView>,
    pub internal_state: Map<Seq<char>, Seq<char>>,
    pub ttl: u64,
    pub version: u32,
}

pub open spec fn strings_view(v: Seq<String>) -> Seq<Seq<char>> {
    v.map_values(|s: String| s@)
}

pub open spec fn players_view(v: Seq<Player>) -> Seq<PlayerView> {
    v.map_values(|p: Player| p@)
}

impl View for PlayerAttributes {
    type V = AttributesView;

    open spec fn view(&self) -> AttributesView {
        AttributesView {
            role: self.role,
            team: self.team,
            alive: self.alive,
            visible_to: strings_view(self.visible_to@),
        }
    }
}

impl View for Player {
    type V = PlayerView;

    open spec fn view(&self) -> PlayerView {
        PlayerView {
            id: self.id@,
            name: self.name@,
            secret: self.secret@,
            attributes: self.attributes@,
        }
    }
}

impl View for Phase {
    type V = PhaseView;

    open spec fn view(&self) -> PhaseView {
        PhaseView { name: self.name, data: self.data@ }
    }
}

impl View for GameState {
    type V = GameView;

    open spec fn view(&self) -> GameView {
        GameView {
            lobby_id: self.lobby_id@,
            phase: self.phase@,
            players: players_view(self.players@),
            internal_state: self.internal_state@,
            ttl: self.ttl,
            version: self.version,
        }
    }
}

/// A copy of a list of strings.
pub fn copy_strings(v: &Vec<String>) -> (r: Vec<String>)
    ensures
        strings_view(r@) == strings_view(v@),
{
    let mut r: Vec<String> = Vec::new();
    let mut i: usize = 0;
    while i < v.len()
        invariant
            i <= v@.len(),
            r@.len() == i,
            forall|j: int| 0 <= j < i ==> #[trigger] r@[j]@ == v@[j]@,
        decreases v@.len() - i,
    {
        r.push(v[i].clone());
        i = i + 1;
    }
    assert(strings_view(r@) =~= strings_view(v@));
    r
}

/// Whether `v` holds an entry equal to `s`.
pub fn contains_string(v: &Vec<String>, s: &str) -> (r: bool)
    ensures
        r == strings_view(v@).contains(s@),
{
    let target = String::from_str(s);
    let mut i: usize = 0;
    while i < v.len()
        invariant
            i <= v@.len(),
            target@ == s@,
            forall|j: int| 0 <= j < i ==> v@[j]@ != s@,
        decreases v@.len() - i,
    {
        if v[i] == target {
            assert(strings_view(v@)[i as int] == s@);
            return true;
        }
        i = i + 1;
    }
    proof {
        if strings_view(v@).contains(s@) {
            let j = choose|j: int| 0 <= j < strings_view(v@).len() && strings_view(v@)[j] == s@;
            assert(v@[j]@ == s@);
        }
    }
    false
}

impl Clone for PlayerAttributes {
    fn clone(&self) -> (r: PlayerAttributes)
        ensures
            r@ == self@,
    {
        PlayerAttributes {
            role: self.role,
            team: self.team,
            alive: self.alive,
            visible_to: copy_strings(&self.visible_to),
        }
    }
}

impl Clone for Player {
    fn clone(&self) -> (r: Player)
        ensures
            r@ == self@,
    {
        Player {
            id: self.id.clone(),
            name: self.name.clone(),
            secret: self.secret.clone(),
            attributes: self.attributes.clone(),
        }
    }
}

impl Clone for Phase {
    fn clone(&self) -> (r: Phase)
        ensures
            r@ == self@,
    {
        Phase { name: self.name, data: self.data.clone() }
    }
}

/// A copy of a list of players.
pub fn copy_players(v: &Vec<Player>) -> (r: Vec<Player>)
    ensures
        players_view(r@) == players_view(v@),
{
    let mut r: Vec<Player> = Vec::new();
    let mut i: usize = 0;
    while i < v.len()
        invariant
            i <= v@.len(),
            r@.len() == i,
            forall|j: int| 0 <= j < i ==> #[trigger] r@[j]@ == v@[j]@,
        decreases v@.len() - i,
    {
        r.push(v[i].clone());
        i = i + 1;
    }
    assert(players_view(r@) =~= players_view(v@));
    r
}

impl Clone for GameState {
    fn clone(&self) -> (r: GameState)
        ensures
            r@ == self@,
    {
        GameState {
            lobby_id: self.lobby_id.clone(),
            phase: self.phase.clone(),
            players: copy_players(&self.players),
            internal_state: self.internal_state.clone(),
            ttl: self.ttl,
            version: self.version,
        }
    }
}

/// The kinds of failure an action can meet.
#[derive(Clone, Copy, Debug, PartialEq, Eq, Structural)]
pub enum ErrorKind {
    /// A required field is empty or malformed, or a secret does not match.
    Validation,
    /// The action does not belong to the current phase.
    NotYourTurn,
    /// The acting player lacks the role the action needs.
    WrongRole,
    /// The target is missing, dead or not eligible.
    InvalidTarget,
    /// No single player is connected under the acting connection.
    PlayerNotFound,
    /// The player to lynch is already dead.
    AlreadyDead,
    AlreadySeen,
    /// More role slots than players.
    TooManyRoles,
    /// A new player cannot join once the game has started.
    GameInProgress,
    /// No lobby under the code.
    NotFound,
    /// The record changed since it was read.
    Conflict,
    StoreError,
    UnknownAction,
}

#[derive(Debug)]
pub struct ActionError {
    pub kind: ErrorKind,
    pub details: String,
}

impl ActionError {
    pub fn new(kind: ErrorKind, msg: &str) -> (r: ActionError)
        ensures
            r.kind == kind,
            r.details@ == msg@,
    {
        ActionError { kind, details: String::from_str(msg) }
    }

    /// The message shown to the player whose action failed.
    pub fn message(&self) -> (r: String)
        ensures
            r@ == self.details@,
    {
        self.details.clone()
    }
}

} // verus!
