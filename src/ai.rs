use vstd::prelude::*;

use crate::bot::BotData;
use crate::config::Config;
use crate::enums::{Action, PlayerDirection};
use crate::map::logic::{
    best_block_using_midpoint, best_of_paths, closest_powerup, follows, gold_midpoint, gold_midpoint_post,
    spec_best_block, spec_best_of, timer_cells,
};
use crate::map::node::Node;
use crate::map::path::{actions_of, Path};
use crate::map::query::{get, has_gold, has_gold_to_collect, has_powerup, has_powerup_to_collect, has_wall_front, spec_collect, spec_wall_in_line};
use crate::map::update::{apply_observation, spec_apply_observation};
use crate::map::{Coord, Field, FieldModel, Position};
use crate::structs::LastObservation;

verus! {

/// The behaviours of the drone.
#[derive(Debug, Clone, Copy, PartialEq, Eq, Structural)]
pub enum State {
    EXPLORE,
    COLLECT,
    RECHARGE,
    ATTACK,
    RUN,
    NONE,
}

impl State {
    pub open spec fn spec_name(self) -> Seq<char> {
        match self {
            State::EXPLORE => "EXPLORE"@,
            State::COLLECT => "COLLECT"@,
            State::RECHARGE => "RECHARGE"@,
            State::ATTACK => "ATTACK"@,
            State::RUN => "RUN"@,
            State::NONE => "NONE"@,
        }
    }

    /// The upper-case name of the behaviour.
    pub fn to_string(&self) -> (r: String)
        ensures
            r@ == self.spec_name(),
    {
        match self {
            State::EXPLORE => String::from_str("EXPLORE"),
            State::COLLECT => String::from_str("COLLECT"),
            State::RECHARGE => String::from_str("RECHARGE"),
            State::ATTACK => String::from_str("ATTACK"),
            State::RUN => String::from_str("RUN"),
            State::NONE => String::from_str("NONE"),
        }
    }
}

/// Ticks a run lasts once started.
pub const RUN_TICKS: u32 = 5;

/// Shots in a row before the drone stops attacking.
pub const MAX_ATTACK_TICKS: u32 = 10;

/// The number of cells checked for walls towards an enemy seen `d` cells
/// away: `d` itself, within `0..=255`.
pub open spec fn fire_range(d: i16) -> u8 {
    if d < 0 {
        0
    } else if d > 255 {
        255
    } else {
        d as u8
    }
}

/// The behaviour chosen for a tick, the run counter it leaves, and the
/// collect route it buffers (`None`: the buffer is left as it was). The
/// first rule that applies wins:
/// 1. a treasure underfoot: collect;
/// 2. a powerup underfoot and energy at most 70: recharge;
/// 3. a run under way: run, one tick less;
/// 4. an enemy in front, fewer than 10 shots in a row, energy above 30 and
///    no wall in the line of fire: attack;
/// 5. damage with no enemy in sight, or an enemy in front or steps heard
///    with energy below 30: start a run of 5 ticks;
/// 6. energy at most 80: recharge;
/// 7. some gold will have grown back on arrival: collect, buffering the
///    route to it;
/// 8. otherwise: explore.
pub open spec fn spec_select_state(
    m: FieldModel,
    normal_timer: u64,
    spawn_timer: u64,
    obs: LastObservation,
    coord: Coord,
    dir: PlayerDirection,
    energy: i32,
    ticks_running: u32,
    ticks_attacking: u32,
) -> (State, u32, Option<Seq<Node>>) {
    let gold = spec_collect(m, normal_timer, spawn_timer, Node { coord, dir }, m.gold);
    if obs.is_treasure {
        (State::COLLECT, ticks_running, None)
    } else if obs.is_powerup && energy <= 70 {
        (State::RECHARGE, ticks_running, None)
    } else if ticks_running > 0 {
        (State::RUN, (ticks_running - 1) as u32, None)
    } else if obs.is_enemy_front && ticks_attacking < MAX_ATTACK_TICKS && energy > 30
        && !spec_wall_in_line(m, coord, dir, fire_range(obs.distance_enemy_front) as int) {
        (State::ATTACK, ticks_running, None)
    } else if (obs.is_damage && !obs.is_enemy_front) || ((obs.is_enemy_front || obs.is_steps) && energy < 30) {
        (State::RUN, RUN_TICKS, None)
    } else if energy <= 80 {
        (State::RECHARGE, ticks_running, None)
    } else if m.gold.len() > 0 && gold is Some {
        (State::COLLECT, ticks_running, gold)
    } else {
        (State::EXPLORE, ticks_running, None)
    }
}

/// The behaviour chosen for a tick is a function of the observation, the
/// drone's status, the field, its timers and the two counters: drones that
/// agree on these choose the same behaviour, whatever else they hold.
pub proof fn lemma_select_state_deterministic(
    a: AI,
    b: AI,
    obs: LastObservation,
    coord: Coord,
    dir: PlayerDirection,
    energy: i32,
)
    requires
        a.field@ == b.field@,
        a.field.config.normal_timer == b.field.config.normal_timer,
        a.field.config.spawn_timer == b.field.config.spawn_timer,
        a.ticks_running == b.ticks_running,
        a.ticks_attacking == b.ticks_attacking,
    ensures
        spec_select_state(a.field@, a.field.config.normal_timer, a.field.config.spawn_timer, obs, coord, dir,
            energy, a.ticks_running, a.ticks_attacking) == spec_select_state(b.field@,
            b.field.config.normal_timer, b.field.config.spawn_timer, obs, coord, dir, energy, b.ticks_running,
            b.ticks_attacking),
{
}

/// The cells of `cs` that are neither walls nor hazards, in order.
pub open spec fn open_cells(m: FieldModel, cs: Seq<Coord>) -> Seq<Coord>
    decreases cs.len(),
{
    if cs.len() == 0 {
        Seq::empty()
    } else {
        let prev = open_cells(m, cs.drop_last());
        let v = m.cell(cs.last());
        if v != Position::WALL && v != Position::DANGER {
            prev.push(cs.last())
        } else {
            prev
        }
    }
}

/// The route of a run from `(coord, dir)`: the longest among the routes
/// to the open cells of the band beside the drone.
pub open spec fn run_route(m: FieldModel, coord: Coord, dir: PlayerDirection) -> Option<Seq<Node>> {
    spec_best_of(m, Node { coord, dir }, open_cells(m, coord.spec_sides(dir)), false)
}

/// The route to the best safe cell near the closest reachable powerup.
pub open spec fn powerup_block_route(m: FieldModel, coord: Coord, dir: PlayerDirection) -> Option<Seq<Node>> {
    match spec_best_of(m, Node { coord, dir }, timer_cells(m.powerup), true) {
        Some(rt) => spec_best_block(m, Node { coord, dir }, rt.last().coord, 2006).0,
        None => None,
    }
}

/// What exploring does from field `before`, leaving field `after`: with
/// `reuse`, the next action of the cached plan `cached`; otherwise the
/// first action of the route to the best safe cell around the gold
/// midpoint, `NOTHING` when no safe cell is reachable.
pub open spec fn explore_outcome(
    before: FieldModel,
    after: FieldModel,
    reuse: bool,
    cached: Seq<Action>,
    coord: Coord,
    dir: PlayerDirection,
    r: Action,
) -> bool {
    if reuse {
        r == head(cached)
    } else {
        exists|mid: Coord|
            gold_midpoint_post(before, after, mid) && r == route_head(
                spec_best_block(after, Node { coord, dir }, mid, 2006).0,
            )
    }
}

/// The first action of a route, `NOTHING` when there is none.
pub open spec fn route_head(rt: Option<Seq<Node>>) -> Action {
    match rt {
        Some(ns) => head(actions_of(ns)),
        None => Action::NOTHING,
    }
}

/// The first of a list of actions, `NOTHING` when empty.
pub open spec fn head(acts: Seq<Action>) -> Action {
    if acts.len() > 0 {
        acts[0]
    } else {
        Action::NOTHING
    }
}

/// A list of actions without its first one.
pub open spec fn rest(acts: Seq<Action>) -> Seq<Action> {
    if acts.len() > 0 {
        acts.drop_first()
    } else {
        acts
    }
}

/// The decision-making part of the drone: the field it builds, the state
/// it is in and the plan it follows.
pub struct AI {
    /// The model of the arena.
    pub field: Field,
    /// The action chosen at the last tick.
    pub current_action: Action,
    /// The behaviour of the last tick.
    pub current_state: State,
    /// The behaviour of the tick before.
    pub previous_state: State,
    /// The plan being followed; its actions are those still to take.
    pub current_path: Option<Path>,
    /// The behaviour that made `current_path`.
    pub path_state: State,
    /// The collect plan found while choosing the behaviour.
    pub buffer_path: Option<Path>,
    /// Ticks left in the current run.
    pub ticks_running: u32,
    /// Shots in a row.
    pub ticks_attacking: u32,
    /// The last observation changed the map.
    pub map_changed: bool,
    /// The drone's cell at the last tick.
    pub last_coord: Option<Coord>,
    /// Print what is decided.
    pub verbose: bool,
}

impl AI {
    /// What holds between ticks: a well-formed field whose safe overlay
    /// holds no wall, hazard or resource and not the drone's last cell, and
    /// well-formed plans.
    pub open spec fn wf(&self) -> bool {
        &&& self.field.wf()
        &&& self.field@.safe_consistent()
        &&& (self.last_coord matches Some(c) ==> !self.field@.safe(c))
        &&& (self.current_path matches Some(p) ==> p.wf())
        &&& (self.buffer_path matches Some(p) ==> p.wf())
    }

    /// The current plan was made by `owner` and has more than `n` actions left.
    pub open spec fn has_plan_for(&self, owner: State, n: int) -> bool {
        &&& self.path_state == owner
        &&& self.current_path is Some
        &&& self.current_path.unwrap().actions@.len() > n
    }

    /// A drone at the start of a game.
    pub fn new(config: &Config, verbose: bool) -> (r: AI)
        ensures
            r.wf(),
            r.field@.is_fresh(),
            r.field.config == *config,
            r.current_action == Action::NOTHING,
            r.current_state == State::EXPLORE,
            r.current_path is None,
            r.ticks_running == 0,
            r.ticks_attacking == 0,
            r.last_coord is None,
    {
        AI {
            field: Field::new(config),
            current_action: Action::NOTHING,
            current_state: State::EXPLORE,
            previous_state: State::NONE,
            current_path: None,
            path_state: State::NONE,
            buffer_path: None,
            ticks_running: 0,
            ticks_attacking: 0,
            map_changed: false,
            last_coord: None,
            verbose,
        }
    }

    /// Chooses the behaviour of this tick (see `spec_select_state`).
    pub fn select_state(&mut self, obs: &LastObservation, coord: &Coord, dir: PlayerDirection, energy: i32) -> (r: State)
        requires
            old(self).wf(),
            coord.can_step(),
        ensures
            ({
                let s = spec_select_state(old(self).field@, old(self).field.config.normal_timer,
                    old(self).field.config.spawn_timer, *obs, *coord, dir, energy,
                    old(self).ticks_running, old(self).ticks_attacking);
                &&& r == s.0
                &&& final(self).ticks_running == s.1
                &&& (s.2 matches Some(rt) ==> final(self).buffer_path matches Some(p) && follows(p, rt))
                &&& (s.2 is None ==> final(self).buffer_path == old(self).buffer_path)
            }),
            final(self).wf(),
            final(self).field == old(self).field,
            final(self).current_path == old(self).current_path,
            final(self).path_state == old(self).path_state,
            final(self).ticks_attacking == old(self).ticks_attacking,
            final(self).last_coord == old(self).last_coord,
            final(self).current_state == old(self).current_state,
            final(self).previous_state == old(self).previous_state,
            final(self).current_action == old(self).current_action,
            final(self).map_changed == old(self).map_changed,
    {
        if obs.is_treasure {
            return State::COLLECT;
        }
        if obs.is_powerup && energy <= 70 {
            return State::RECHARGE;
        }
        if self.ticks_running > 0 {
            self.ticks_running = self.ticks_running - 1;
            return State::RUN;
        }
        if obs.is_enemy_front && self.ticks_attacking < MAX_ATTACK_TICKS && energy > 30 {
            let d = obs.distance_enemy_front;
            let q: u8 = if d < 0 {
                0
            } else if d > 255 {
                255
            } else {
                d as u8
            };
            if !has_wall_front(&self.field, coord, dir, q) {
                return State::ATTACK;
            }
        }
        if (obs.is_damage && !obs.is_enemy_front) || ((obs.is_enemy_front || obs.is_steps) && energy < 30) {
            self.ticks_running = RUN_TICKS;
            return State::RUN;
        }
        if energy <= 80 {
            return State::RECHARGE;
        }
        if has_gold(&self.field) {
            match has_gold_to_collect(&self.field, coord, dir) {
                Some(p) => {
                    self.buffer_path = Some(p);
                    return State::COLLECT;
                },
                None => {},
            }
        }
        State::EXPLORE
    }

    /// Takes the first action of plan `p`, which becomes the current plan,
    /// made by behaviour `owner`.
    fn follow(&mut self, p: Path, owner: State) -> (r: Action)
        requires
            old(self).wf(),
            p.wf(),
        ensures
            r == head(p.actions@),
            final(self).current_path matches Some(q) && q.wf() && q.actions@ == rest(p.actions@) && q.dest == p.dest,
            final(self).path_state == owner,
            final(self).current_action == r,
            final(self).wf(),
            final(self).field == old(self).field,
            final(self).buffer_path == old(self).buffer_path,
            final(self).ticks_running == old(self).ticks_running,
            final(self).ticks_attacking == old(self).ticks_attacking,
            final(self).last_coord == old(self).last_coord,
            final(self).current_state == old(self).current_state,
            final(self).previous_state == old(self).previous_state,
            final(self).map_changed == old(self).map_changed,
    {
        let mut p = p;
        let a = p.get_first();
        if p.actions.len() > 0 {
            p.pop_first_action();
        }
        self.current_path = Some(p);
        self.path_state = owner;
        self.current_action = a;
        a
    }

    /// The current plan was made by `owner` and has more than `n` actions left.
    fn cached_for(&self, owner: State, n: usize) -> (r: bool)
        ensures
            r == self.has_plan_for(owner, n as int),
    {
        if self.path_state != owner {
            return false;
        }
        match &self.current_path {
            Some(p) => p.actions.len() > n,
            None => false,
        }
    }

    /// Takes the next action of the current plan.
    fn follow_cached(&mut self) -> (r: Action)
        requires
            old(self).wf(),
            old(self).current_path is Some,
        ensures
            r == head(old(self).current_path.unwrap().actions@),
            final(self).current_path matches Some(q) && q.actions@ == rest(old(self).current_path.unwrap().actions@),
            final(self).path_state == old(self).path_state,
            final(self).current_action == r,
            final(self).wf(),
            final(self).field == old(self).field,
            final(self).buffer_path == old(self).buffer_path,
            final(self).ticks_running == old(self).ticks_running,
            final(self).ticks_attacking == old(self).ticks_attacking,
            final(self).last_coord == old(self).last_coord,
            final(self).current_state == old(self).current_state,
            final(self).previous_state == old(self).previous_state,
            final(self).map_changed == old(self).map_changed,
    {
        let p = self.current_path.take().unwrap();
        let owner = self.path_state;
        self.follow(p, owner)
    }

    /// Shoots, counting the shot.
    fn attack(&mut self) -> (r: Action)
        requires
            old(self).wf(),
        ensures
            r == Action::SHOOT,
            old(self).ticks_attacking < u32::MAX ==> final(self).ticks_attacking == old(self).ticks_attacking + 1,
            final(self).current_action == r,
            final(self).map_changed == old(self).map_changed,
            final(self).previous_state == old(self).previous_state,
            final(self).wf(),
            final(self).field == old(self).field,
            final(self).current_state == old(self).current_state,
            final(self).last_coord == old(self).last_coord,
            final(self).ticks_running == old(self).ticks_running,
    {
        self.ticks_attacking = self.ticks_attacking.saturating_add(1);
        self.current_action = Action::SHOOT;
        Action::SHOOT
    }

    /// Runs away: keeps to the run plan while it lasts; near a hole turns
    /// left; else plans the longest route to an open cell of the band beside
    /// the drone, and shoots when there is none.
    fn run(&mut self, obs: &LastObservation, coord: &Coord, dir: PlayerDirection) -> (r: Action)
        requires
            old(self).wf(),
            coord.has_room(),
        ensures
            final(self).wf(),
            final(self).field == old(self).field,
            final(self).current_state == old(self).current_state,
            final(self).last_coord == old(self).last_coord,
            final(self).ticks_running == old(self).ticks_running,
            final(self).current_action == r,
            final(self).map_changed == old(self).map_changed,
            final(self).previous_state == old(self).previous_state,
            old(self).has_plan_for(State::RUN, 0) ==> r == head(old(self).current_path.unwrap().actions@),
            !old(self).has_plan_for(State::RUN, 0) && obs.is_breeze ==> r == Action::LEFT,
            !old(self).has_plan_for(State::RUN, 0) && !obs.is_breeze ==> r == match run_route(old(self).field@, *coord, dir) {
                Some(ns) => head(actions_of(ns)),
                None => Action::SHOOT,
            },
    {
        if self.cached_for(State::RUN, 0) {
            return self.follow_cached();
        }
        if obs.is_breeze {
            self.current_action = Action::LEFT;
            return Action::LEFT;
        }
        let sides = coord.coords_5x2_sides(&dir);
        let mut cands: Vec<Coord> = Vec::new();
        let mut i: usize = 0;
        while i < sides.len()
            invariant
                self.field.wf(),
                i <= sides@.len(),
                cands@ == open_cells(self.field@, sides@.subrange(0, i as int)),
            decreases sides@.len() - i,
        {
            assert(sides@.subrange(0, i + 1).drop_last() =~= sides@.subrange(0, i as int));
            let c = sides[i];
            let p = get(&self.field, &c);
            if p != Position::WALL && p != Position::DANGER {
                cands.push(c);
            }
            i = i + 1;
        }
        assert(sides@.subrange(0, sides@.len() as int) =~= sides@);
        match best_of_paths(&self.field, coord, &dir, cands, false) {
            Some(p) => self.follow(p, State::RUN),
            None => self.attack(),
        }
    }

    /// Explores: keeps to the explore plan while the map is unchanged; else
    /// plans to the best safe cell around the midpoint of the known gold.
    fn explore(&mut self, coord: &Coord, dir: PlayerDirection, map_changed: bool) -> (r: Action)
        requires
            old(self).wf(),
            coord.can_step(),
        ensures
            final(self).wf(),
            final(self).current_state == old(self).current_state,
            final(self).last_coord == old(self).last_coord,
            final(self).ticks_running == old(self).ticks_running,
            final(self).current_action == r,
            final(self).map_changed == old(self).map_changed,
            final(self).previous_state == old(self).previous_state,
            final(self).field.config == old(self).field.config,
            final(self).field@ == (FieldModel {
                mid_size: final(self).field@.mid_size,
                mid_coord: final(self).field@.mid_coord,
                ..old(self).field@
            }),
            explore_outcome(old(self).field@, final(self).field@, !map_changed && old(self).has_plan_for(State::EXPLORE, 0),
                old(self).current_path.unwrap().actions@, *coord, dir, r),
    {
        if !map_changed && self.cached_for(State::EXPLORE, 0) {
            return self.follow_cached();
        }
        let mid = gold_midpoint(&mut self.field);
        proof {
            crate::map::update::lemma_same_overlay(old(self).field@, self.field@);
        }
        match best_block_using_midpoint(&self.field, coord, &dir, &mid) {
            Some(p) => self.follow(p, State::EXPLORE),
            None => {
                self.current_action = Action::NOTHING;
                Action::NOTHING
            },
        }
    }

    /// Collects: picks up a treasure underfoot; keeps to the collect plan
    /// while the map is unchanged; else takes the buffered collect plan.
    fn collect(&mut self, obs: &LastObservation, map_changed: bool) -> (r: Action)
        requires
            old(self).wf(),
        ensures
            final(self).wf(),
            final(self).field == old(self).field,
            final(self).current_state == old(self).current_state,
            final(self).last_coord == old(self).last_coord,
            final(self).ticks_running == old(self).ticks_running,
            final(self).current_action == r,
            final(self).map_changed == old(self).map_changed,
            final(self).previous_state == old(self).previous_state,
            obs.is_treasure ==> r == Action::GET,
            !obs.is_treasure && !map_changed && old(self).has_plan_for(State::COLLECT, 0) ==> r == head(
                old(self).current_path.unwrap().actions@,
            ),
            !obs.is_treasure && !(!map_changed && old(self).has_plan_for(State::COLLECT, 0))
                && old(self).buffer_path is Some ==> r == head(old(self).buffer_path.unwrap().actions@),
    {
        if obs.is_treasure {
            self.current_action = Action::GET;
            return Action::GET;
        }
        if !map_changed && self.cached_for(State::COLLECT, 0) {
            return self.follow_cached();
        }
        match self.buffer_path.take() {
            Some(p) => self.follow(p, State::COLLECT),
            None => {
                self.current_action = Action::NOTHING;
                Action::NOTHING
            },
        }
    }

    /// Recharges: picks up a powerup underfoot; heads for a powerup that
    /// will have grown back on arrival; keeps to the recharge plan while the
    /// map is unchanged and more than one action is left; else heads for
    /// the best safe cell near the closest powerup; else explores.
    fn recharge(&mut self, obs: &LastObservation, coord: &Coord, dir: PlayerDirection, map_changed: bool) -> (r: Action)
        requires
            old(self).wf(),
            coord.can_step(),
        ensures
            final(self).wf(),
            final(self).current_state == old(self).current_state,
            final(self).last_coord == old(self).last_coord,
            final(self).ticks_running == old(self).ticks_running,
            final(self).current_action == r,
            final(self).map_changed == old(self).map_changed,
            final(self).previous_state == old(self).previous_state,
            final(self).field.config == old(self).field.config,
            final(self).field@ == (FieldModel {
                mid_size: final(self).field@.mid_size,
                mid_coord: final(self).field@.mid_coord,
                ..old(self).field@
            }),
            obs.is_powerup ==> r == Action::GET,
            ({
                let ripe = spec_collect(old(self).field@, old(self).field.config.normal_timer,
                    old(self).field.config.spawn_timer, Node { coord: *coord, dir }, old(self).field@.powerup);
                &&& (!obs.is_powerup && ripe is Some ==> r == head(actions_of(ripe.unwrap())))
                &&& (!obs.is_powerup && ripe is None && !map_changed && old(self).has_plan_for(State::RECHARGE, 1)
                    ==> r == head(old(self).current_path.unwrap().actions@))
                &&& (!obs.is_powerup && ripe is None && !(!map_changed && old(self).has_plan_for(State::RECHARGE, 1))
                    && powerup_block_route(old(self).field@, *coord, dir) is Some ==> r == route_head(
                    powerup_block_route(old(self).field@, *coord, dir)))
                &&& (!obs.is_powerup && ripe is None && !(!map_changed && old(self).has_plan_for(State::RECHARGE, 1))
                    && powerup_block_route(old(self).field@, *coord, dir) is None ==> explore_outcome(old(self).field@,
                    final(self).field@, !map_changed && old(self).has_plan_for(State::EXPLORE, 0),
                    old(self).current_path.unwrap().actions@, *coord, dir, r))
            }),
    {
        if obs.is_powerup {
            self.current_action = Action::GET;
            return Action::GET;
        }
        match has_powerup_to_collect(&self.field, coord, dir) {
            Some(p) => {
                return self.follow(p, State::RECHARGE);
            },
            None => {},
        }
        if !map_changed && self.cached_for(State::RECHARGE, 1) {
            return self.follow_cached();
        }
        if has_powerup(&self.field) {
            match closest_powerup(&self.field, coord, &dir) {
                Some(pc) => match best_block_using_midpoint(&self.field, coord, &dir, &pc) {
                    Some(p) => {
                        return self.follow(p, State::RECHARGE);
                    },
                    None => {},
                },
                None => {},
            }
        }
        self.explore(coord, dir, map_changed)
    }

    /// One tick: reconciles the observation with the field, chooses the
    /// behaviour and returns the action to take. With no energy left the
    /// drone does nothing, and so it does at a cell without two cells of
    /// room on every side within the coordinate range.
    pub fn think(&mut self, bot: BotData) -> (r: Action)
        requires
            old(self).wf(),
        ensures
            final(self).wf(),
            ({
                let coord = Coord { x: bot.spec_x(), y: bot.spec_y() };
                let dir = bot.spec_dir();
                let obs = bot.spec_last_observation();
                let a = spec_apply_observation(old(self).field@, old(self).field.config.spawn_timer,
                    old(self).current_action, old(self).last_coord, coord, dir, obs);
                let s = spec_select_state(a.0, old(self).field.config.normal_timer,
                    old(self).field.config.spawn_timer, obs, coord, dir, bot.spec_energy(),
                    old(self).ticks_running, old(self).ticks_attacking);
                if bot.spec_energy() == 0 || !coord.has_room() {
                    &&& r == Action::NOTHING
                    &&& *final(self) == *old(self)
                } else {
                    &&& r == final(self).current_action
                    &&& final(self).map_changed == a.1
                    &&& final(self).field.config == old(self).field.config
                    &&& final(self).field@ == (FieldModel {
                        mid_size: final(self).field@.mid_size,
                        mid_coord: final(self).field@.mid_coord,
                        ..a.0
                    })
                    &&& final(self).current_state == s.0
                    &&& final(self).previous_state == old(self).current_state
                    &&& final(self).ticks_running == s.1
                    &&& final(self).last_coord == Some(coord)
                    &&& (s.0 != State::ATTACK ==> final(self).ticks_attacking == 0)
                    &&& (s.0 == State::ATTACK ==> r == Action::SHOOT && final(self).ticks_attacking
                        == old(self).ticks_attacking + 1)
                    &&& (s.0 == State::COLLECT && obs.is_treasure ==> r == Action::GET)
                    &&& (s.0 == State::RECHARGE && obs.is_powerup ==> r == Action::GET)
                    &&& (s.0 == State::RUN && old(self).has_plan_for(State::RUN, 0) ==> r == head(
                        old(self).current_path.unwrap().actions@,
                    ))
                    &&& (s.0 != State::EXPLORE && s.0 != State::RECHARGE ==> final(self).field@ == a.0)
                    &&& (s.0 == State::EXPLORE ==> explore_outcome(a.0, final(self).field@, !a.1 && old(self).has_plan_for(
                        State::EXPLORE, 0), old(self).current_path.unwrap().actions@, coord, dir, r))
                    &&& (s.0 == State::COLLECT && !obs.is_treasure && !a.1 && old(self).has_plan_for(State::COLLECT, 0)
                        ==> r == head(old(self).current_path.unwrap().actions@))
                    &&& (s.0 == State::RECHARGE && !obs.is_powerup && spec_collect(a.0, old(self).field.config.normal_timer,
                        old(self).field.config.spawn_timer, Node { coord, dir }, a.0.powerup) is Some ==> r == route_head(
                        spec_collect(a.0, old(self).field.config.normal_timer, old(self).field.config.spawn_timer,
                        Node { coord, dir }, a.0.powerup)))
                    &&& (s.0 == State::RECHARGE && !obs.is_powerup && spec_collect(a.0, old(self).field.config.normal_timer,
                        old(self).field.config.spawn_timer, Node { coord, dir }, a.0.powerup) is None
                        && !(!a.1 && old(self).has_plan_for(State::RECHARGE, 1))
                        && powerup_block_route(a.0, coord, dir) is Some ==> r == route_head(powerup_block_route(a.0, coord, dir)))
                    &&& (s.0 == State::RUN && !old(self).has_plan_for(State::RUN, 0) ==> r == if obs.is_breeze {
                        Action::LEFT
                    } else {
                        match run_route(a.0, coord, dir) {
                            Some(ns) => head(actions_of(ns)),
                            None => Action::SHOOT,
                        }
                    })
                    &&& (s.0 == State::RECHARGE && !obs.is_powerup && spec_collect(a.0, old(self).field.config.normal_timer,
                        old(self).field.config.spawn_timer, Node { coord, dir }, a.0.powerup) is None && !a.1
                        && old(self).has_plan_for(State::RECHARGE, 1) ==> r == head(old(self).current_path.unwrap().actions@))
                    &&& (s.0 == State::RECHARGE && !obs.is_powerup && spec_collect(a.0, old(self).field.config.normal_timer,
                        old(self).field.config.spawn_timer, Node { coord, dir }, a.0.powerup) is None
                        && !(!a.1 && old(self).has_plan_for(State::RECHARGE, 1))
                        && powerup_block_route(a.0, coord, dir) is None ==> explore_outcome(a.0, final(self).field@,
                        !a.1 && old(self).has_plan_for(State::EXPLORE, 0), old(self).current_path.unwrap().actions@, coord,
                        dir, r))
                    &&& (s.0 == State::COLLECT && !obs.is_treasure && s.2 is Some
                        && !(!a.1 && old(self).has_plan_for(State::COLLECT, 0)) ==> r == head(
                        crate::map::path::actions_of(s.2.unwrap()),
                    ))
                }
            }),
    {
        if bot.get_energy() == 0 {
            return Action::NOTHING;
        }
        let coord = Coord { x: bot.get_x(), y: bot.get_y() };
        if coord.x < i16::MIN + 2 || coord.x > i16::MAX - 2 || coord.y < i16::MIN + 2 || coord.y > i16::MAX - 2 {
            return Action::NOTHING;
        }
        let dir = bot.get_dir();
        let obs = bot.get_last_observation();
        let energy = bot.get_energy();
        let ghost old_field = self.field@;

        let changed = apply_observation(&mut self.field, self.current_action, self.last_coord, coord, dir, &obs);
        self.map_changed = changed;
        self.last_coord = Some(coord);

        self.previous_state = self.current_state;
        let state = self.select_state(&obs, &coord, dir, energy);
        self.current_state = state;

        let ghost before = *self;
        let action = match state {
            State::ATTACK => self.attack(),
            State::RUN => self.run(&obs, &coord, dir),
            State::COLLECT => self.collect(&obs, changed),
            State::RECHARGE => self.recharge(&obs, &coord, dir, changed),
            _ => self.explore(&coord, dir, changed),
        };
        if state != State::ATTACK {
            self.ticks_attacking = 0;
        }
        action
    }
}

} // verus!
