use drone_battle::config::{Config, ConfigJSON};
use drone_battle::enums::PlayerDirection;
use drone_battle::map::query::{get, has_gold, has_powerup, has_wall_front, is_safe, is_unsafe};
use drone_battle::map::update::{do_tick, remove_safe, set_custom, set_gold, set_powerup, set_safe, set_unsafe, SetType};
use drone_battle::map::update;
use drone_battle::map::{Coord, Field, Position};

fn config() -> Config {
    Config::from_config_json(ConfigJSON {
        name: "drone".to_string(),
        url: "localhost".to_string(),
        slow_timer: 1000,
        normal_timer: 100,
        min_timer: 100,
        default_color: vec![],
        spawn_timer: 15000,
        graphics: false,
    })
}

fn c(x: i16, y: i16) -> Coord {
    Coord { x, y }
}

fn timer(v: &Vec<(Coord, u64)>, at: Coord) -> Option<u64> {
    v.iter().find(|e| e.0 == at).map(|e| e.1)
}

#[test]
fn outside_cells_read_as_walls() {
    let f = Field::new(&config());
    for cell in [c(-1, 0), c(0, -1), c(59, 0), c(0, 34), c(100, 100), c(-300, 5)] {
        assert_eq!(get(&f, &cell), Position::WALL);
    }
    assert_eq!(get(&f, &c(0, 0)), Position::UNKNOWN);
    assert_eq!(get(&f, &c(58, 33)), Position::UNKNOWN);
}

#[test]
fn forced_gold_and_powerup_reset_timers() {
    let mut f = Field::new(&config());
    update::set(&mut f, c(4, 4), Position::GOLD, true);
    do_tick(&mut f, 500);
    assert_eq!(timer(&f.gold_positions, c(4, 4)), Some(500));
    update::set(&mut f, c(4, 4), Position::GOLD, true);
    assert_eq!(timer(&f.gold_positions, c(4, 4)), Some(0));
    update::set(&mut f, c(6, 1), Position::POWERUP, true);
    assert_eq!(timer(&f.powerup_positions, c(6, 1)), Some(0));
    assert_eq!(get(&f, &c(6, 1)), Position::POWERUP);
    assert_eq!(f.gold_positions.len(), 1);
}

#[test]
fn hazard_only_covers_unknown() {
    let mut f = Field::new(&config());
    update::set(&mut f, c(2, 2), Position::DANGER, false);
    assert_eq!(get(&f, &c(2, 2)), Position::DANGER);
    update::set(&mut f, c(3, 3), Position::EMPTY, false);
    update::set(&mut f, c(3, 3), Position::DANGER, false);
    assert_eq!(get(&f, &c(3, 3)), Position::EMPTY);
}

#[test]
fn safe_mark_joins_overlay() {
    let mut f = Field::new(&config());
    update::set(&mut f, c(2, 2), Position::DANGER, false);
    update::set(&mut f, c(2, 2), Position::SAFE, false);
    assert_eq!(get(&f, &c(2, 2)), Position::SAFE);
    assert!(is_safe(&f, &c(2, 2)));
    update::set(&mut f, c(5, 5), Position::WALL, false);
    update::set(&mut f, c(5, 5), Position::SAFE, false);
    assert_eq!(get(&f, &c(5, 5)), Position::WALL);
    assert!(!is_safe(&f, &c(5, 5)));
}

#[test]
fn first_empty_cell_is_spawn() {
    let mut f = Field::new(&config());
    assert_eq!(f.spawn, None);
    update::set(&mut f, c(7, 8), Position::EMPTY, false);
    assert_eq!(f.spawn, Some(c(7, 8)));
    update::set(&mut f, c(9, 9), Position::EMPTY, false);
    assert_eq!(f.spawn, Some(c(7, 8)));
}

#[test]
fn empty_mark_never_covers_resources() {
    let mut f = Field::new(&config());
    update::set(&mut f, c(1, 1), Position::GOLD, false);
    update::set(&mut f, c(1, 1), Position::EMPTY, false);
    assert_eq!(get(&f, &c(1, 1)), Position::GOLD);
    update::set(&mut f, c(1, 2), Position::POWERUP, false);
    update::set(&mut f, c(1, 2), Position::EMPTY, false);
    assert_eq!(get(&f, &c(1, 2)), Position::POWERUP);
}

#[test]
fn wall_leaves_safe_overlay() {
    let mut f = Field::new(&config());
    update::set(&mut f, c(4, 4), Position::SAFE, false);
    assert!(is_safe(&f, &c(4, 4)));
    update::set(&mut f, c(4, 4), Position::WALL, false);
    assert!(!is_safe(&f, &c(4, 4)));
    assert_eq!(get(&f, &c(4, 4)), Position::WALL);
}

#[test]
fn forced_write_leaves_safe_overlay() {
    let mut f = Field::new(&config());
    update::set(&mut f, c(4, 4), Position::SAFE, false);
    assert!(is_safe(&f, &c(4, 4)));
    update::set(&mut f, c(4, 4), Position::WALL, true);
    assert_eq!(get(&f, &c(4, 4)), Position::WALL);
    assert!(!is_safe(&f, &c(4, 4)));
    update::set(&mut f, c(5, 4), Position::SAFE, false);
    update::set(&mut f, c(5, 4), Position::SAFE, true);
    assert!(is_safe(&f, &c(5, 4)));
}

#[test]
fn safe_overlay_stays_clear_under_updates() {
    let mut f = Field::new(&config());
    let marks = [
        (c(3, 3), Position::SAFE),
        (c(3, 3), Position::DANGER),
        (c(3, 3), Position::EMPTY),
        (c(3, 3), Position::GOLD),
        (c(4, 3), Position::DANGER),
        (c(4, 3), Position::SAFE),
        (c(4, 3), Position::WALL),
        (c(5, 3), Position::SAFE),
        (c(5, 3), Position::POWERUP),
    ];
    for (cell, p) in marks {
        update::set(&mut f, cell, p, false);
        for x in 0..59 {
            for y in 0..34 {
                if is_safe(&f, &c(x, y)) {
                    let v = get(&f, &c(x, y));
                    assert!(v == Position::SAFE || v == Position::EMPTY);
                }
            }
        }
    }
}

#[test]
fn overlays_and_timers_by_hand() {
    let mut f = Field::new(&config());
    set_safe(&mut f, c(1, 1));
    assert!(is_safe(&f, &c(1, 1)));
    remove_safe(&mut f, &c(1, 1));
    assert!(!is_safe(&f, &c(1, 1)));
    set_unsafe(&mut f, c(2, 1));
    assert!(is_unsafe(&f, &c(2, 1)));
    assert!(!has_gold(&f));
    set_gold(&mut f, c(3, 1));
    assert!(has_gold(&f));
    assert!(!has_powerup(&f));
    set_powerup(&mut f, c(3, 2));
    assert!(has_powerup(&f));
    set_gold(&mut f, c(-1, 1));
    assert_eq!(f.gold_positions.len(), 1);
}

#[test]
fn tick_ages_timers_and_expires_unsafe_cells() {
    let mut f = Field::new(&config());
    set_gold(&mut f, c(3, 1));
    set_powerup(&mut f, c(4, 1));
    set_unsafe(&mut f, c(5, 5));
    do_tick(&mut f, 120);
    do_tick(&mut f, 30);
    assert_eq!(timer(&f.gold_positions, c(3, 1)), Some(150));
    assert_eq!(timer(&f.powerup_positions, c(4, 1)), Some(150));
    // counts 1 -> 3 after two ticks; the cell leaves after its count passes 7
    assert_eq!(f.unsafe_positions[5 * 59 + 5], 3);
    for _ in 0..5 {
        do_tick(&mut f, 1);
    }
    assert_eq!(f.unsafe_positions[5 * 59 + 5], 8);
    assert!(is_unsafe(&f, &c(5, 5)));
    do_tick(&mut f, 1);
    assert!(!is_unsafe(&f, &c(5, 5)));
    do_tick(&mut f, u64::MAX);
    assert_eq!(timer(&f.gold_positions, c(3, 1)), Some(u64::MAX));
}

#[test]
fn set_custom_writes_around_front_and_back() {
    let mut f = Field::new(&config());
    set_custom(&mut f, &c(5, 5), SetType::AROUND, None, Position::DANGER);
    for cell in [c(6, 5), c(4, 5), c(5, 6), c(5, 4)] {
        assert_eq!(get(&f, &cell), Position::DANGER);
    }
    assert_eq!(get(&f, &c(5, 5)), Position::UNKNOWN);
    set_custom(&mut f, &c(10, 10), SetType::FRONT, Some(PlayerDirection::EAST), Position::WALL);
    assert_eq!(get(&f, &c(11, 10)), Position::WALL);
    set_custom(&mut f, &c(10, 10), SetType::BACK, Some(PlayerDirection::EAST), Position::WALL);
    assert_eq!(get(&f, &c(9, 10)), Position::WALL);
    set_custom(&mut f, &c(20, 20), SetType::FRONT, None, Position::WALL);
    assert_eq!(get(&f, &c(20, 19)), Position::WALL);
}

#[test]
fn wall_in_line_of_fire() {
    let mut f = Field::new(&config());
    update::set(&mut f, c(10, 13), Position::WALL, false);
    assert!(!has_wall_front(&f, &c(10, 10), PlayerDirection::SOUTH, 3));
    assert!(has_wall_front(&f, &c(10, 10), PlayerDirection::SOUTH, 4));
    assert!(!has_wall_front(&f, &c(10, 10), PlayerDirection::NORTH, 4));
    assert!(!has_wall_front(&f, &c(10, 10), PlayerDirection::SOUTH, 0));
    assert!(has_wall_front(&f, &c(1, 1), PlayerDirection::WEST, 3));
}

#[test]
fn restart_forgets_everything() {
    let mut f = Field::new(&config());
    update::set(&mut f, c(1, 1), Position::EMPTY, false);
    set_gold(&mut f, c(2, 2));
    set_safe(&mut f, c(3, 3));
    f.restart();
    assert_eq!(get(&f, &c(1, 1)), Position::UNKNOWN);
    assert!(!has_gold(&f));
    assert!(!is_safe(&f, &c(3, 3)));
    assert_eq!(f.spawn, None);
    f.set_spawn(&c(4, 4));
    assert_eq!(f.spawn, Some(c(4, 4)));
    assert_eq!(f.buffer_midpoint_coord, c(4, 4));
}

#[test]
fn position_names() {
    assert_eq!(Position::DANGER.to_string(), "DANGER");
    assert_eq!(Position::POWERUP.to_string(), "POWERUP");
}
