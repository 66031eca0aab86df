use vstd::prelude::*;

use crate::config::Config;
use crate::comms::RecvCommand;
use crate::enums::{Action, PlayerDirection, ServerState};
use crate::structs::LastObservation;

verus! {

/// What the drone knows of itself when it decides on an action.
#[derive(Debug, Clone, Copy)]
pub struct BotData {
    x: i16,
    y: i16,
    dir: PlayerDirection,
    energy: i32,
    last_observation: LastObservation,
}

impl BotData {
    /// Gathers the drone's position, direction, energy and observation.
    pub fn new(x: i16, y: i16, dir: PlayerDirection, energy: i32, last_observation: LastObservation) -> (r: BotData)
        ensures
            r.spec_x() == x,
            r.spec_y() == y,
            r.spec_dir() == dir,
            r.spec_energy() == energy,
            r.spec_last_observation() == last_observation,
    {
        BotData { x, y, dir, energy, last_observation }
    }

    pub closed spec fn spec_x(&self) -> i16 {
        self.x
    }

    pub closed spec fn spec_y(&self) -> i16 {
        self.y
    }

    pub closed spec fn spec_dir(&self) -> PlayerDirection {
        self.dir
    }

    pub closed spec fn spec_energy(&self) -> i32 {
        self.energy
    }

    pub closed spec fn spec_last_observation(&self) -> LastObservation {
        self.last_observation
    }

    pub fn get_x(&self) -> (r: i16)
        ensures
            r == self.spec_x(),
    {
        self.x
    }

    pub fn get_y(&self) -> (r: i16)
        ensures
            r == self.spec_y(),
    {
        self.y
    }

    pub fn get_energy(&self) -> (r: i32)
        ensures
            r == self.spec_energy(),
    {
        self.energy
    }

    pub fn get_dir(&self) -> (r: PlayerDirection)
        ensures
            r == self.spec_dir(),
    {
        self.dir
    }

    pub fn get_last_observation(&self) -> (r: LastObservation)
        ensures
            r == self.spec_last_observation(),
    {
        self.last_observation
    }
}

/// Which answers arrived from the server since a round of requests.
pub struct ServerChecklist {
    pub observation: bool,
    pub user: bool,
    pub game: bool,
}

impl ServerChecklist {
    /// Nothing received yet.
    pub fn new() -> (r: ServerChecklist)
        ensures
            !r.observation && !r.user && !r.game,
    {
        ServerChecklist { observation: false, user: false, game: false }
    }

    /// The observation, the user status and the game status all arrived.
    pub fn check(&self) -> (r: bool)
        ensures
            r == (self.observation && self.game && self.user),
    {
        self.observation && self.game && self.user
    }
}

/// How long to wait before the next tick, in ms: during a game, the
/// shortest interval after a shot and the normal one otherwise, less the
/// time spent thinking and never below zero; outside a game, the slow
/// interval.
pub fn sleep_budget(in_game: bool, last_action: Action, thinking_ms: u64, config: &Config) -> (r: u64)
    ensures
        !in_game ==> r == config.slow_timer,
        in_game && last_action == Action::SHOOT ==> r == if thinking_ms < config.min_timer { config.min_timer - thinking_ms } else { 0 },
        in_game && last_action != Action::SHOOT ==> r == if thinking_ms < config.normal_timer { config.normal_timer - thinking_ms } else { 0 },
{
    if !in_game {
        return config.slow_timer;
    }
    let base = if last_action == Action::SHOOT { config.min_timer } else { config.normal_timer };
    if thinking_ms < base {
        base - thinking_ms
    } else {
        0
    }
}

/// What the drone knows of itself and of the game from the server's
/// messages.
pub struct BotStatus {
    pub x: i16,
    pub y: i16,
    pub dir: PlayerDirection,
    pub state: ServerState,
    pub score: i64,
    pub energy: i32,
    pub game_time: i64,
    pub last_observation: LastObservation,
}

impl BotStatus {
    /// Before any message: at (0, 0) facing north, waiting for a game, no
    /// energy, nothing observed.
    pub fn new() -> (r: BotStatus)
        ensures
            r.x == 0 && r.y == 0 && r.dir == PlayerDirection::NORTH && r.state == ServerState::READY,
            r.score == 0 && r.energy == 0 && r.game_time == 0,
            r.last_observation == LastObservation::spec_blank(),
    {
        BotStatus {
            x: 0,
            y: 0,
            dir: PlayerDirection::NORTH,
            state: ServerState::READY,
            score: 0,
            energy: 0,
            game_time: 0,
            last_observation: LastObservation::new(),
        }
    }

    /// What the drone passes to its decision-making.
    pub fn data(&self) -> (r: BotData)
        ensures
            r.spec_x() == self.x,
            r.spec_y() == self.y,
            r.spec_dir() == self.dir,
            r.spec_energy() == self.energy,
            r.spec_last_observation() == self.last_observation,
    {
        BotData::new(self.x, self.y, self.dir, self.energy, self.last_observation)
    }

    /// Takes in one message from the server and ticks it off the
    /// checklist. An observation merges into the last one, keeping pending
    /// hits and damage; the drone's status replaces position, direction,
    /// state, score and energy; a game status replaces the state and the
    /// game time, and returns whether the game is not running; a hit or a
    /// damage becomes pending. Other messages change nothing here.
    #[verifier::rlimit(100)]
    pub fn ingest(&mut self, rc: &RecvCommand, checklist: &mut ServerChecklist) -> (stopped: bool)
        ensures
            match rc {
                RecvCommand::Observations(so) => {
                    &&& *final(self) == (BotStatus {
                        last_observation: old(self).last_observation.spec_merge(so.last_observation),
                        ..*old(self)
                    })
                    &&& final(checklist).observation && final(checklist).user == old(checklist).user
                    &&& final(checklist).game == old(checklist).game
                    &&& !stopped
                },
                RecvCommand::Status(ss) => {
                    &&& *final(self) == (BotStatus {
                        x: ss.x as i16,
                        y: ss.y as i16,
                        dir: ss.dir,
                        state: ss.state,
                        score: ss.score,
                        energy: ss.energy,
                        ..*old(self)
                    })
                    &&& final(checklist).user && final(checklist).observation == old(checklist).observation
                    &&& final(checklist).game == old(checklist).game
                    &&& !stopped
                },
                RecvCommand::GameStatus(g) => {
                    &&& *final(self) == (BotStatus { state: g.status, game_time: g.time, ..*old(self) })
                    &&& final(checklist).game && final(checklist).observation == old(checklist).observation
                    &&& final(checklist).user == old(checklist).user
                    &&& stopped == (g.status != ServerState::GAME)
                },
                RecvCommand::Hit(_) => {
                    &&& *final(self) == (BotStatus {
                        last_observation: LastObservation { is_hit: true, has_read_hit: false, ..old(self).last_observation },
                        ..*old(self)
                    })
                    &&& *final(checklist) == *old(checklist)
                    &&& !stopped
                },
                RecvCommand::Damage(_) => {
                    &&& *final(self) == (BotStatus {
                        last_observation: LastObservation {
                            is_damage: true,
                            has_read_damage: false,
                            ..old(self).last_observation
                        },
                        ..*old(self)
                    })
                    &&& *final(checklist) == *old(checklist)
                    &&& !stopped
                },
                _ => *final(self) == *old(self) && *final(checklist) == *old(checklist) && !stopped,
            },
    {
        match rc {
            RecvCommand::Observations(so) => {
                checklist.observation = true;
                self.last_observation.merge(so.last_observation);
                false
            },
            RecvCommand::Status(ss) => {
                checklist.user = true;
                self.x = ss.x as i16;
                self.y = ss.y as i16;
                self.dir = ss.dir;
                self.state = ss.state;
                self.score = ss.score;
                self.energy = ss.energy;
                false
            },
            RecvCommand::GameStatus(g) => {
                checklist.game = true;
                self.state = g.status;
                self.game_time = g.time;
                g.status != ServerState::GAME
            },
            RecvCommand::Hit(_) => {
                self.last_observation.record_hit();
                false
            },
            RecvCommand::Damage(_) => {
                self.last_observation.record_damage();
                false
            },
            _ => false,
        }
    }
}

} // verus!
