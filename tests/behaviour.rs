use drone_battle::ai::{State, AI};
use drone_battle::bot::BotData;
use drone_battle::config::{Config, ConfigJSON};
use drone_battle::enums::{Action, PlayerDirection};
use drone_battle::map::logic::a_star;
use drone_battle::map::query::{get, has_powerup_to_collect, is_safe};
use drone_battle::map::update::{apply_observation, do_tick};
use drone_battle::map::update;
use drone_battle::map::{Coord, Field, Position};
use drone_battle::structs::LastObservation;

fn config() -> Config {
    Config::from_config_json(ConfigJSON {
        name: "drone".to_string(),
        url: "localhost".to_string(),
        slow_timer: 1000,
        normal_timer: 100,
        min_timer: 100,
        default_color: vec![],
        spawn_timer: 15000,
        graphics: false,
    })
}

fn c(x: i16, y: i16) -> Coord {
    Coord { x, y }
}

fn bot(x: i16, y: i16, dir: PlayerDirection, energy: i32, obs: LastObservation) -> BotData {
    BotData::new(x, y, dir, energy, obs)
}

#[test]
fn empty_start_explores() {
    let mut ai = AI::new(&config(), false);
    let a = ai.think(bot(5, 5, PlayerDirection::NORTH, 100, LastObservation::new()));
    assert_eq!(get(&ai.field, &c(5, 5)), Position::EMPTY);
    assert_eq!(ai.field.spawn, Some(c(5, 5)));
    for cell in [c(4, 5), c(6, 5), c(5, 4), c(5, 6)] {
        assert_eq!(get(&ai.field, &cell), Position::SAFE);
        assert!(is_safe(&ai.field, &cell));
    }
    assert_eq!(ai.current_state, State::EXPLORE);
    // the best safe cell around the spawn is (5,4), one step ahead
    assert_eq!(a, Action::FRONT);
    assert_eq!(ai.current_path.as_ref().unwrap().dest, c(5, 4));
}

#[test]
fn treasure_underfoot_is_picked_up() {
    let mut ai = AI::new(&config(), false);
    let mut obs = LastObservation::new();
    obs.is_treasure = true;
    let a = ai.think(bot(3, 2, PlayerDirection::EAST, 60, obs));
    assert_eq!(get(&ai.field, &c(3, 2)), Position::GOLD);
    assert_eq!(ai.field.gold_positions, vec![(c(3, 2), 0)]);
    assert_eq!(ai.current_state, State::COLLECT);
    assert_eq!(a, Action::GET);
}

#[test]
fn enemy_in_front_with_clear_line_is_shot() {
    let mut ai = AI::new(&config(), false);
    let mut obs = LastObservation::new();
    obs.is_enemy_front = true;
    obs.distance_enemy_front = 4;
    let a = ai.think(bot(10, 10, PlayerDirection::SOUTH, 80, obs));
    assert_eq!(ai.current_state, State::ATTACK);
    assert_eq!(a, Action::SHOOT);
    assert_eq!(ai.ticks_attacking, 1);
}

#[test]
fn enemy_behind_wall_is_not_shot() {
    let mut ai = AI::new(&config(), false);
    update::set(&mut ai.field, c(10, 12), Position::WALL, false);
    let mut obs = LastObservation::new();
    obs.is_enemy_front = true;
    obs.distance_enemy_front = 4;
    ai.think(bot(10, 10, PlayerDirection::SOUTH, 80, obs));
    assert_eq!(ai.current_state, State::RECHARGE);
    assert_eq!(ai.ticks_attacking, 0);
}

#[test]
fn damage_without_enemy_starts_a_run() {
    let mut ai = AI::new(&config(), false);
    let mut obs = LastObservation::new();
    obs.is_damage = true;
    let a = ai.think(bot(7, 7, PlayerDirection::NORTH, 50, obs));
    let marked = [c(7, 7), c(6, 7), c(5, 7), c(8, 7), c(9, 7), c(7, 6), c(7, 5), c(7, 8), c(7, 9)];
    for cell in marked {
        assert_eq!(ai.field.unsafe_positions[(cell.y as usize) * 59 + cell.x as usize], 1);
    }
    let count = ai.field.unsafe_positions.iter().filter(|n| **n > 0).count();
    assert_eq!(count, 9);
    assert_eq!(ai.ticks_running, 5);
    assert_eq!(ai.current_state, State::RUN);
    // the longest route to the band beside the drone: (6,7), turning left first
    assert_eq!(a, Action::LEFT);
    assert_eq!(ai.current_path.as_ref().unwrap().dest, c(6, 7));
}

#[test]
fn damage_near_hole_turns_left() {
    let mut ai = AI::new(&config(), false);
    let mut obs = LastObservation::new();
    obs.is_damage = true;
    obs.is_breeze = true;
    let a = ai.think(bot(7, 7, PlayerDirection::NORTH, 50, obs));
    assert_eq!(ai.current_state, State::RUN);
    assert_eq!(a, Action::LEFT);
}

#[test]
fn hungry_drone_heads_for_ripe_powerup() {
    let mut ai = AI::new(&config(), false);
    for x in 5..12 {
        update::set(&mut ai.field, c(x, 8), Position::EMPTY, false);
    }
    update::set(&mut ai.field, c(12, 8), Position::POWERUP, true);
    do_tick(&mut ai.field, 14300);
    let a = ai.think(bot(4, 8, PlayerDirection::EAST, 70, LastObservation::new()));
    assert_eq!(ai.current_state, State::RECHARGE);
    assert_eq!(a, Action::FRONT);
    assert_eq!(ai.current_path.as_ref().unwrap().dest, c(12, 8));
}

#[test]
fn powerup_aged_fourteen_seconds_is_not_yet_ripe() {
    let mut f = Field::new(&config());
    for x in 4..12 {
        update::set(&mut f, c(x, 8), Position::EMPTY, false);
    }
    update::set(&mut f, c(12, 8), Position::POWERUP, true);
    do_tick(&mut f, 14000);
    // 1000 ms are left and the 8 steps take 800 ms: it is not there yet
    assert!(has_powerup_to_collect(&f, &c(4, 8), PlayerDirection::EAST).is_none());
    assert_eq!(a_star(&f, &c(4, 8), &PlayerDirection::EAST, &c(12, 8)).unwrap().size, 8);
}

#[test]
fn blocked_step_forward_finds_a_wall() {
    let mut ai = AI::new(&config(), false);
    ai.current_action = Action::FRONT;
    let mut obs = LastObservation::new();
    obs.is_blocked = true;
    ai.think(bot(2, 2, PlayerDirection::EAST, 100, obs));
    assert_eq!(get(&ai.field, &c(3, 2)), Position::WALL);
    assert!(ai.map_changed);
    assert!(a_star(&ai.field, &c(2, 2), &PlayerDirection::EAST, &c(3, 2)).is_none());
}

#[test]
fn blocked_step_back_finds_a_wall_behind() {
    let mut f = Field::new(&config());
    let mut obs = LastObservation::new();
    obs.is_blocked = true;
    let changed = apply_observation(&mut f, Action::BACK, None, c(2, 2), PlayerDirection::EAST, &obs);
    assert!(changed);
    assert_eq!(get(&f, &c(1, 2)), Position::WALL);
}

#[test]
fn teleport_marks_previous_cell() {
    let mut f = Field::new(&config());
    let obs = LastObservation::new();
    apply_observation(&mut f, Action::FRONT, None, c(2, 2), PlayerDirection::EAST, &obs);
    let changed = apply_observation(&mut f, Action::FRONT, Some(c(2, 2)), c(20, 20), PlayerDirection::EAST, &obs);
    assert!(changed);
    assert_eq!(get(&f, &c(2, 2)), Position::DANGER);
    let changed = apply_observation(&mut f, Action::FRONT, Some(c(20, 20)), c(21, 20), PlayerDirection::EAST, &obs);
    assert!(!changed);
}

#[test]
fn flash_marks_hazards_around() {
    let mut f = Field::new(&config());
    let mut obs = LastObservation::new();
    obs.is_flash = true;
    let changed = apply_observation(&mut f, Action::NOTHING, None, c(9, 9), PlayerDirection::EAST, &obs);
    assert!(changed);
    for cell in [c(8, 9), c(10, 9), c(9, 8), c(9, 10)] {
        assert_eq!(get(&f, &cell), Position::DANGER);
    }
    assert_eq!(get(&f, &c(9, 9)), Position::EMPTY);
}

#[test]
fn same_observation_twice_is_stable() {
    let mut f = Field::new(&config());
    let mut obs = LastObservation::new();
    obs.is_breeze = true;
    apply_observation(&mut f, Action::FRONT, None, c(4, 4), PlayerDirection::NORTH, &obs);
    let map1 = f.map.clone();
    let safe1 = f.safe_positions.clone();
    apply_observation(&mut f, Action::FRONT, Some(c(4, 4)), c(4, 4), PlayerDirection::NORTH, &obs);
    assert_eq!(f.map, map1);
    assert_eq!(f.safe_positions, safe1);
}

#[test]
fn same_rich_observation_twice_is_stable() {
    let mut f = Field::new(&config());
    update::set(&mut f, c(7, 4), Position::EMPTY, true);
    let mut obs = LastObservation::new();
    obs.is_treasure = true;
    obs.is_powerup = true;
    obs.is_damage = true;
    obs.is_blocked = true;
    apply_observation(&mut f, Action::FRONT, Some(c(20, 20)), c(6, 4), PlayerDirection::EAST, &obs);
    let map1 = f.map.clone();
    let safe1 = f.safe_positions.clone();
    let unsafe1 = f.unsafe_positions.clone();
    let gold1 = f.gold_positions.clone();
    let powerup1 = f.powerup_positions.clone();
    apply_observation(&mut f, Action::FRONT, Some(c(6, 4)), c(6, 4), PlayerDirection::EAST, &obs);
    assert_eq!(f.map, map1);
    assert_eq!(f.safe_positions, safe1);
    assert_eq!(f.unsafe_positions, unsafe1);
    assert_eq!(f.gold_positions, gold1);
    assert_eq!(f.powerup_positions, powerup1);
    assert_eq!(get(&f, &c(6, 4)), Position::GOLD);
    assert_eq!(get(&f, &c(7, 4)), Position::WALL);
    assert_eq!(get(&f, &c(20, 20)), Position::DANGER);
}

#[test]
fn same_inputs_same_state() {
    let mut a = AI::new(&config(), false);
    let mut b = AI::new(&config(), true);
    let mut obs = LastObservation::new();
    obs.is_steps = true;
    for (x, e) in [(5, 100), (5, 20), (6, 90)] {
        let ra = a.think(bot(x, 5, PlayerDirection::WEST, e, obs));
        let rb = b.think(bot(x, 5, PlayerDirection::WEST, e, obs));
        assert_eq!(ra, rb);
        assert_eq!(a.current_state, b.current_state);
    }
}

#[test]
fn no_energy_does_nothing() {
    let mut ai = AI::new(&config(), false);
    let a = ai.think(bot(5, 5, PlayerDirection::NORTH, 0, LastObservation::new()));
    assert_eq!(a, Action::NOTHING);
    assert_eq!(get(&ai.field, &c(5, 5)), Position::UNKNOWN);
}

#[test]
fn run_lasts_its_ticks() {
    let mut ai = AI::new(&config(), false);
    let mut obs = LastObservation::new();
    obs.is_damage = true;
    ai.think(bot(7, 7, PlayerDirection::NORTH, 50, obs));
    for left in (0..5).rev() {
        ai.think(bot(7, 7, PlayerDirection::NORTH, 90, LastObservation::new()));
        assert_eq!(ai.current_state, State::RUN);
        assert_eq!(ai.ticks_running, left);
    }
    ai.think(bot(7, 7, PlayerDirection::NORTH, 90, LastObservation::new()));
    assert_eq!(ai.current_state, State::EXPLORE);
}

#[test]
fn attack_stops_after_ten_shots() {
    let mut ai = AI::new(&config(), false);
    let mut obs = LastObservation::new();
    obs.is_enemy_front = true;
    obs.distance_enemy_front = 2;
    for _ in 0..10 {
        assert_eq!(ai.think(bot(10, 10, PlayerDirection::SOUTH, 90, obs)), Action::SHOOT);
    }
    assert_eq!(ai.ticks_attacking, 10);
    ai.think(bot(10, 10, PlayerDirection::SOUTH, 90, obs));
    assert_ne!(ai.current_state, State::ATTACK);
    assert_eq!(ai.ticks_attacking, 0);
}

#[test]
fn low_energy_recharges() {
    let mut ai = AI::new(&config(), false);
    let mut obs = LastObservation::new();
    obs.is_powerup = true;
    let a = ai.think(bot(3, 3, PlayerDirection::NORTH, 50, obs));
    assert_eq!(ai.current_state, State::RECHARGE);
    assert_eq!(a, Action::GET);
    assert_eq!(ai.field.powerup_positions, vec![(c(3, 3), 0)]);
}

#[test]
fn state_names() {
    assert_eq!(State::RECHARGE.to_string(), "RECHARGE");
    assert_eq!(State::NONE.to_string(), "NONE");
}
