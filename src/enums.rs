use vstd::prelude::*;

use crate::text::str_eq;
use crate::chance::random_below;

verus! {

/// The action the drone may take in one tick.
#[derive(Debug, Clone, Copy, PartialEq, Eq, Structural)]
pub enum Action {
    FRONT,
    BACK,
    LEFT,
    RIGHT,
    GET,
    SHOOT,
    NOTHING,
}

impl Action {
    /// The upper-case name of the action.
    pub open spec fn spec_name(self) -> Seq<char> {
        match self {
            Action::FRONT => "FRONT"@,
            Action::BACK => "BACK"@,
            Action::LEFT => "LEFT"@,
            Action::RIGHT => "RIGHT"@,
            Action::GET => "GET"@,
            Action::SHOOT => "SHOOT"@,
            Action::NOTHING => "NOTHING"@,
        }
    }

    /// Converts the action into its name.
    pub fn to_str(&self) -> (r: &'static str)
        ensures
            r@ == self.spec_name(),
    {
        match self {
            Action::FRONT => "FRONT",
            Action::BACK => "BACK",
            Action::LEFT => "LEFT",
            Action::RIGHT => "RIGHT",
            Action::GET => "GET",
            Action::SHOOT => "SHOOT",
            Action::NOTHING => "NOTHING",
        }
    }

    /// The action that a draw `n` in `0..6` stands for.
    pub open spec fn spec_from_index(n: u32) -> Action {
        if n == 0 {
            Action::FRONT
        } else if n == 1 {
            Action::BACK
        } else if n == 2 {
            Action::LEFT
        } else if n == 3 {
            Action::RIGHT
        } else if n == 4 {
            Action::GET
        } else {
            Action::SHOOT
        }
    }

    /// Maps a number in `0..6` to one of the six active actions.
    pub fn from_index(n: u32) -> (r: Action)
        ensures
            r == Action::spec_from_index(n),
    {
        if n == 0 {
            Action::FRONT
        } else if n == 1 {
            Action::BACK
        } else if n == 2 {
            Action::LEFT
        } else if n == 3 {
            Action::RIGHT
        } else if n == 4 {
            Action::GET
        } else {
            Action::SHOOT
        }
    }

    /// A random action, never `NOTHING`.
    pub fn random() -> (r: Action)
        ensures
            r != Action::NOTHING,
    {
        let n = random_below(6);
        Action::from_index(n)
    }
}

/// The four cardinal directions.
#[derive(Debug, Clone, Copy, Hash, PartialEq, Eq, Structural, PartialOrd, Ord)]
pub enum PlayerDirection {
    NORTH,
    EAST,
    SOUTH,
    WEST,
}

impl PlayerDirection {
    /// The direction named by a lower-case word; anything else reads as north.
    pub open spec fn spec_from_str(s: Seq<char>) -> PlayerDirection {
        if s == "east"@ {
            PlayerDirection::EAST
        } else if s == "south"@ {
            PlayerDirection::SOUTH
        } else if s == "west"@ {
            PlayerDirection::WEST
        } else {
            PlayerDirection::NORTH
        }
    }

    /// Reads a direction from its lower-case name (`north`, `east`, `south`,
    /// `west`); any other text gives `NORTH`.
    pub fn from_str(dir: &str) -> (r: PlayerDirection)
        ensures
            r == PlayerDirection::spec_from_str(dir@),
    {
        if str_eq(dir, "east") {
            PlayerDirection::EAST
        } else if str_eq(dir, "south") {
            PlayerDirection::SOUTH
        } else if str_eq(dir, "west") {
            PlayerDirection::WEST
        } else {
            PlayerDirection::NORTH
        }
    }

    /// The upper-case name of the direction.
    pub open spec fn spec_name(self) -> Seq<char> {
        match self {
            PlayerDirection::NORTH => "NORTH"@,
            PlayerDirection::EAST => "EAST"@,
            PlayerDirection::SOUTH => "SOUTH"@,
            PlayerDirection::WEST => "WEST"@,
        }
    }

    /// Converts the direction into its upper-case name.
    pub fn to_string(&self) -> (r: String)
        ensures
            r@ == self.spec_name(),
    {
        match self {
            PlayerDirection::NORTH => String::from_str("NORTH"),
            PlayerDirection::EAST => String::from_str("EAST"),
            PlayerDirection::SOUTH => String::from_str("SOUTH"),
            PlayerDirection::WEST => String::from_str("WEST"),
        }
    }

    pub open spec fn spec_opposite(self) -> PlayerDirection {
        match self {
            PlayerDirection::NORTH => PlayerDirection::SOUTH,
            PlayerDirection::EAST => PlayerDirection::WEST,
            PlayerDirection::SOUTH => PlayerDirection::NORTH,
            PlayerDirection::WEST => PlayerDirection::EAST,
        }
    }

    pub open spec fn spec_right(self) -> PlayerDirection {
        match self {
            PlayerDirection::NORTH => PlayerDirection::EAST,
            PlayerDirection::EAST => PlayerDirection::SOUTH,
            PlayerDirection::SOUTH => PlayerDirection::WEST,
            PlayerDirection::WEST => PlayerDirection::NORTH,
        }
    }

    pub open spec fn spec_left(self) -> PlayerDirection {
        self.spec_right().spec_opposite()
    }

    /// The opposite cardinal direction.
    pub fn opposite(&self) -> (r: PlayerDirection)
        ensures
            r == self.spec_opposite(),
    {
        match self {
            PlayerDirection::NORTH => PlayerDirection::SOUTH,
            PlayerDirection::EAST => PlayerDirection::WEST,
            PlayerDirection::SOUTH => PlayerDirection::NORTH,
            PlayerDirection::WEST => PlayerDirection::EAST,
        }
    }

    /// The direction 90 degrees clockwise.
    pub fn right(&self) -> (r: PlayerDirection)
        ensures
            r == self.spec_right(),
    {
        match self {
            PlayerDirection::NORTH => PlayerDirection::EAST,
            PlayerDirection::EAST => PlayerDirection::SOUTH,
            PlayerDirection::SOUTH => PlayerDirection::WEST,
            PlayerDirection::WEST => PlayerDirection::NORTH,
        }
    }

    /// The direction 90 degrees counter-clockwise.
    pub fn left(&self) -> (r: PlayerDirection)
        ensures
            r == self.spec_left(),
    {
        self.right().opposite()
    }
}

/// The states of a game, as the server reports them.
#[derive(Debug, Clone, Copy, PartialEq, Eq, Structural)]
pub enum ServerState {
    /// The game is about to start.
    READY,
    /// The game is running.
    GAME,
    /// The drone is dead.
    DEAD,
    /// The game is over.
    GAMEOVER,
}

/// The lower-case form of a text, as `str::to_lowercase` computes it.
pub uninterp spec fn lower_of(s: Seq<char>) -> Seq<char>;

/// Relies on `str::to_lowercase`: the result depends on the characters alone.
#[verifier::external_body]
fn lowercase(s: &str) -> (r: String)
    ensures
        r@ == lower_of(s@),
{
    s.to_lowercase()
}

impl ServerState {
    /// The state named by an already lower-cased word; anything else is `READY`.
    pub open spec fn spec_from_lower(s: Seq<char>) -> ServerState {
        if s == "game"@ {
            ServerState::GAME
        } else if s == "dead"@ {
            ServerState::DEAD
        } else if s == "gameover"@ {
            ServerState::GAMEOVER
        } else {
            ServerState::READY
        }
    }

    /// Reads a state from a lower-case word (`ready`, `game`, `dead`,
    /// `gameover`); any other text gives `READY`.
    pub fn from_lowercase(st: &str) -> (r: ServerState)
        ensures
            r == ServerState::spec_from_lower(st@),
    {
        if str_eq(st, "game") {
            ServerState::GAME
        } else if str_eq(st, "dead") {
            ServerState::DEAD
        } else if str_eq(st, "gameover") {
            ServerState::GAMEOVER
        } else {
            ServerState::READY
        }
    }

    /// Reads a state from its name in any letter case.
    pub fn from_str(st: &str) -> (r: ServerState)
        ensures
            r == ServerState::spec_from_lower(lower_of(st@)),
    {
        let low = lowercase(st);
        ServerState::from_lowercase(low.as_str())
    }

    /// The display name of the state.
    pub open spec fn spec_name(self) -> Seq<char> {
        match self {
            ServerState::READY => "READY"@,
            ServerState::GAME => "GAME"@,
            ServerState::DEAD => "DEAD"@,
            ServerState::GAMEOVER => "GAME OVER"@,
        }
    }

    /// Converts the state into its display name.
    pub fn to_string(&self) -> (r: String)
        ensures
            r@ == self.spec_name(),
    {
        match self {
            ServerState::READY => String::from_str("READY"),
            ServerState::GAME => String::from_str("GAME"),
            ServerState::DEAD => String::from_str("DEAD"),
            ServerState::GAMEOVER => String::from_str("GAME OVER"),
        }
    }
}

} // verus!
