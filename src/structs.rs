use vstd::prelude::*;

use crate::enums::{PlayerDirection, ServerState};
use crate::text::{decimal, push_decimal};

verus! {

/// The latest observations of the drone.
#[derive(Debug, Clone, Copy, PartialEq, Eq, Structural)]
pub struct LastObservation {
    /// an enemy stands in front (1 to 10 cells away)
    pub is_enemy_front: bool,
    /// the drone faces a wall
    pub is_blocked: bool,
    /// an enemy is near
    pub is_steps: bool,
    /// a hole is near
    pub is_breeze: bool,
    /// a flash is near
    pub is_flash: bool,
    /// the drone stands on a treasure
    pub is_treasure: bool,
    /// the drone stands on a powerup
    pub is_powerup: bool,
    /// the drone took damage
    pub is_damage: bool,
    /// the drone hit another drone
    pub is_hit: bool,
    /// distance to the enemy in front, when `is_enemy_front` is set; -1 otherwise
    pub distance_enemy_front: i16,
    /// the `is_hit` observation was taken into account
    pub has_read_hit: bool,
    /// the `is_damage` observation was taken into account
    pub has_read_damage: bool,
}

impl LastObservation {
    /// Nothing observed, nothing pending.
    pub open spec fn spec_blank() -> LastObservation {
        LastObservation {
            is_enemy_front: false,
            is_blocked: false,
            is_steps: false,
            is_breeze: false,
            is_flash: false,
            is_treasure: false,
            is_powerup: false,
            is_damage: false,
            is_hit: false,
            distance_enemy_front: -1i16,
            has_read_hit: true,
            has_read_damage: true,
        }
    }

    /// A blank observation: every flag false, no enemy distance, nothing
    /// pending.
    pub fn new() -> (r: LastObservation)
        ensures
            r == LastObservation::spec_blank(),
    {
        LastObservation {
            is_enemy_front: false,
            is_blocked: false,
            is_steps: false,
            is_breeze: false,
            is_flash: false,
            is_treasure: false,
            is_powerup: false,
            is_damage: false,
            is_hit: false,
            distance_enemy_front: -1,
            has_read_hit: true,
            has_read_damage: true,
        }
    }

    /// Resets to a blank observation.
    pub fn reset(&mut self)
        ensures
            *final(self) == LastObservation::spec_blank(),
    {
        self.is_enemy_front = false;
        self.is_blocked = false;
        self.is_steps = false;
        self.is_breeze = false;
        self.is_flash = false;
        self.is_treasure = false;
        self.is_powerup = false;
        self.is_damage = false;
        self.is_hit = false;
        self.distance_enemy_front = -1;
        self.has_read_damage = true;
        self.has_read_hit = true;
    }

    /// The observation kept when `incoming` arrives after `self`: the
    /// incoming one, except that a hit or a damage not yet taken into
    /// account stays, still pending, until it is read.
    pub open spec fn spec_merge(self, incoming: LastObservation) -> LastObservation {
        LastObservation {
            is_hit: if !self.has_read_hit { self.is_hit } else { incoming.is_hit },
            has_read_hit: if !self.has_read_hit { false } else { incoming.has_read_hit },
            is_damage: if !self.has_read_damage { self.is_damage } else { incoming.is_damage },
            has_read_damage: if !self.has_read_damage { false } else { incoming.has_read_damage },
            ..incoming
        }
    }

    /// Takes in a new observation, keeping pending hit and damage events.
    pub fn merge(&mut self, incoming: LastObservation)
        ensures
            *final(self) == old(self).spec_merge(incoming),
    {
        let is_hit = self.is_hit;
        let is_damage = self.is_damage;
        let has_read_hit = self.has_read_hit;
        let has_read_damage = self.has_read_damage;
        *self = incoming;
        if !has_read_damage {
            self.is_damage = is_damage;
            self.has_read_damage = false;
        }
        if !has_read_hit {
            self.is_hit = is_hit;
            self.has_read_hit = false;
        }
    }

    /// `prefix` followed by the names of the flags set, each followed by `|`.
    pub open spec fn spec_flags(self, prefix: Seq<char>) -> Seq<char> {
        prefix + flag_text(self.is_enemy_front, "ENEMY|"@) + flag_text(self.is_breeze, "BREEZE|"@)
            + flag_text(self.is_flash, "FLASH|"@) + flag_text(self.is_powerup, "POWERUP|"@)
            + flag_text(self.is_blocked, "BLOCKED|"@) + flag_text(self.is_hit, "HIT|"@)
            + flag_text(self.is_damage, "DAMAGE|"@) + flag_text(self.is_steps, "STEPS|"@)
    }

    /// A one-line description, such as `Observation { BREEZE|STEPS| } `.
    pub fn to_string(&self) -> (r: String)
        ensures
            r@ == self.spec_flags("Observation { "@) + " } "@,
    {
        let mut s = String::from_str("Observation { ");
        push_flag(&mut s, self.is_enemy_front, "ENEMY|");
        push_flag(&mut s, self.is_breeze, "BREEZE|");
        push_flag(&mut s, self.is_flash, "FLASH|");
        push_flag(&mut s, self.is_powerup, "POWERUP|");
        push_flag(&mut s, self.is_blocked, "BLOCKED|");
        push_flag(&mut s, self.is_hit, "HIT|");
        push_flag(&mut s, self.is_damage, "DAMAGE|");
        push_flag(&mut s, self.is_steps, "STEPS|");
        s.append(" } ");
        s
    }

    /// Records a hit announced by the server, pending until read.
    pub fn record_hit(&mut self)
        ensures
            *final(self) == (LastObservation { is_hit: true, has_read_hit: false, ..*old(self) }),
    {
        self.is_hit = true;
        self.has_read_hit = false;
    }

    /// Records a damage announced by the server, pending until read.
    pub fn record_damage(&mut self)
        ensures
            *final(self) == (LastObservation { is_damage: true, has_read_damage: false, ..*old(self) }),
    {
        self.is_damage = true;
        self.has_read_damage = false;
    }
}

/// `name` when the flag is on, nothing otherwise.
pub open spec fn flag_text(on: bool, name: Seq<char>) -> Seq<char> {
    if on { name } else { Seq::empty() }
}

/// Appends `name` when the flag is on.
fn push_flag(s: &mut String, on: bool, name: &str)
    ensures
        final(s)@ == old(s)@ + flag_text(on, name@),
{
    if on {
        s.append(name);
    } else {
        assert(old(s)@ + flag_text(on, name@) =~= old(s)@);
    }
}

/// A colour, as red, green, blue and alpha channels.
#[derive(Debug, Clone, Copy, PartialEq, Eq, Structural)]
pub struct Color {
    /// red
    pub r: u8,
    /// green
    pub g: u8,
    /// blue
    pub b: u8,
    /// alpha (transparency)
    pub a: u8,
}

impl Color {
    /// Black, fully transparent.
    pub open spec fn spec_black() -> Color {
        Color { r: 0, g: 0, b: 0, a: 0 }
    }

    /// Reads a colour from text. The drone has no use for other drones'
    /// colours, so every text reads as black.
    pub fn from_str(_c: &str) -> (r: Color)
        ensures
            r == Color::spec_black(),
    {
        Color { r: 0, g: 0, b: 0, a: 0 }
    }

    /// The text `r;g;b` of the colour, each channel in decimal.
    pub open spec fn spec_text(self) -> Seq<char> {
        decimal(self.r as nat) + seq![';'] + decimal(self.g as nat) + seq![';'] + decimal(self.b as nat)
    }

    /// Converts the colour to its text `r;g;b`.
    pub fn to_string(&self) -> (r: String)
        ensures
            r@ == self.spec_text(),
    {
        proof { reveal_strlit(";"); }
        let mut s = String::new();
        push_decimal(&mut s, self.r);
        s.append(";");
        push_decimal(&mut s, self.g);
        s.append(";");
        push_decimal(&mut s, self.b);
        assert(s@ =~= self.spec_text());
        s
    }
}

/// The scoreboard line of one drone.
#[derive(Debug, Clone)]
pub struct Scoreboard {
    pub name: String,
    pub connected: bool,
    pub score: i64,
    pub energy: i32,
    pub color: Color,
}

/// An observation message.
#[derive(Debug)]
pub struct ServerObservation {
    pub last_observation: LastObservation,
}

/// A status message of the drone itself.
#[derive(Debug)]
pub struct ServerStatus {
    pub x: i8,
    pub y: i8,
    pub dir: PlayerDirection,
    pub state: ServerState,
    pub score: i64,
    pub energy: i32,
}

/// A message describing another drone.
#[derive(Debug, Clone)]
pub struct ServerPlayer {
    pub node: i64,
    pub name: String,
    pub x: i8,
    pub y: i8,
    pub dir: PlayerDirection,
    pub state: ServerState,
    pub color: Color,
}

/// A game status message.
#[derive(Debug)]
pub struct ServerGameStatus {
    pub status: ServerState,
    pub time: i64,
}

/// A scoreboard message.
#[derive(Debug, Clone)]
pub struct ServerScoreboard {
    pub scoreboards: Vec<Scoreboard>,
}

/// A notification message.
#[derive(Debug)]
pub struct ServerNotification {
    pub notification: String,
}

/// A drone joined the game.
#[derive(Debug)]
pub struct ServerPlayerNew {
    pub player: String,
}

/// A drone left the game.
#[derive(Debug)]
pub struct ServerPlayerLeft {
    pub player: String,
}

/// A drone changed its name.
#[derive(Debug)]
pub struct ServerChangeName {
    pub old_name: String,
    pub new_name: String,
}

/// The drone hit another one.
#[derive(Debug)]
pub struct ServerHit {
    pub target: String,
}

/// The drone was hit by another one.
#[derive(Debug)]
pub struct ServerDamage {
    pub shooter: String,
}

} // verus!
