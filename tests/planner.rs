use drone_battle::config::{Config, ConfigJSON};
use drone_battle::enums::{Action, PlayerDirection};
use drone_battle::map::logic::{
    a_star, best_block_using_midpoint, best_of_paths, closest_powerup, gold_midpoint, isqrt,
    should_something_be_here,
};
use drone_battle::map::node::Node;
use drone_battle::map::path::Path;
use drone_battle::map::query::{get, has_gold_to_collect, has_powerup_to_collect};
use drone_battle::map::update::{do_tick, set_gold, set_powerup, set_safe, set_unsafe};
use drone_battle::map::update;
use drone_battle::map::{Coord, Field, Position};

fn config() -> Config {
    Config::from_config_json(ConfigJSON {
        name: "drone".to_string(),
        url: "localhost".to_string(),
        slow_timer: 1000,
        normal_timer: 100,
        min_timer: 100,
        default_color: vec![],
        spawn_timer: 15000,
        graphics: false,
    })
}

fn c(x: i16, y: i16) -> Coord {
    Coord { x, y }
}

fn open_row(f: &mut Field, y: i16, from: i16, to: i16) {
    for x in from..=to {
        update::set(f, c(x, y), Position::EMPTY, true);
    }
}

fn walk(start: Node, actions: &[Action]) -> Node {
    let mut n = start;
    for a in actions {
        n = match a {
            Action::FRONT => Node { coord: n.coord.next(&n.dir), dir: n.dir },
            Action::BACK => Node { coord: n.coord.next(&n.dir.opposite()), dir: n.dir },
            Action::LEFT => Node { coord: n.coord, dir: n.dir.left() },
            Action::RIGHT => Node { coord: n.coord, dir: n.dir.right() },
            _ => n,
        };
    }
    n
}

#[test]
fn straight_corridor_route() {
    let mut f = Field::new(&config());
    open_row(&mut f, 5, 2, 8);
    let p = a_star(&f, &c(2, 5), &PlayerDirection::EAST, &c(8, 5)).unwrap();
    assert_eq!(p.actions, vec![Action::FRONT; 6]);
    assert_eq!(p.size, 6);
    assert_eq!(p.dest, c(8, 5));
    assert_eq!(p.coords, (2..=8).map(|x| c(x, 5)).collect::<Vec<_>>());
}

#[test]
fn route_turns_and_avoids_blocked_cells() {
    let mut f = Field::new(&config());
    open_row(&mut f, 5, 2, 6);
    for y in 2..=5 {
        update::set(&mut f, c(6, y), Position::EMPTY, true);
    }
    update::set(&mut f, c(4, 5), Position::DANGER, true);
    assert!(a_star(&f, &c(2, 5), &PlayerDirection::EAST, &c(6, 2)).is_none());
    update::set(&mut f, c(4, 5), Position::SAFE, true);
    let start = Node { coord: c(2, 5), dir: PlayerDirection::EAST };
    let p = a_star(&f, &c(2, 5), &PlayerDirection::EAST, &c(6, 2)).unwrap();
    let end = walk(start, &p.actions);
    assert_eq!(end.coord, c(6, 2));
    let mut n = start;
    for a in &p.actions {
        n = walk(n, &[*a]);
        let v = get(&f, &n.coord);
        assert!(v != Position::WALL && v != Position::DANGER && v != Position::UNKNOWN);
    }
}

#[test]
fn route_to_own_cell_is_empty() {
    let mut f = Field::new(&config());
    update::set(&mut f, c(3, 3), Position::EMPTY, true);
    let p = a_star(&f, &c(3, 3), &PlayerDirection::NORTH, &c(3, 3)).unwrap();
    assert_eq!(p.size, 0);
    assert_eq!(p.get_first(), Action::NOTHING);
    assert_eq!(p.coords, vec![c(3, 3)]);
}

#[test]
fn unknown_cells_are_not_entered() {
    let mut f = Field::new(&config());
    update::set(&mut f, c(3, 3), Position::EMPTY, true);
    assert!(a_star(&f, &c(3, 3), &PlayerDirection::NORTH, &c(3, 2)).is_none());
}

#[test]
fn unsafe_cells_cost_more() {
    let mut f = Field::new(&config());
    // two ways from (2,5) to (4,5): straight through (3,5), or around by row 4
    for x in 2..=4 {
        update::set(&mut f, c(x, 5), Position::EMPTY, true);
        update::set(&mut f, c(x, 4), Position::EMPTY, true);
    }
    let straight = a_star(&f, &c(2, 5), &PlayerDirection::EAST, &c(4, 5)).unwrap();
    assert_eq!(straight.actions, vec![Action::FRONT, Action::FRONT]);
    set_unsafe(&mut f, c(3, 5));
    let around = a_star(&f, &c(2, 5), &PlayerDirection::EAST, &c(4, 5)).unwrap();
    assert!(!around.coords.contains(&c(3, 5)));
}

#[test]
fn pop_keeps_size_and_cells_in_step() {
    let mut f = Field::new(&config());
    open_row(&mut f, 5, 2, 4);
    update::set(&mut f, c(4, 4), Position::EMPTY, true);
    let mut p = a_star(&f, &c(2, 5), &PlayerDirection::EAST, &c(4, 4)).unwrap();
    while p.size > 0 {
        let first = p.get_first();
        let cells = p.coords.len();
        p.pop_first_action();
        assert_eq!(p.size, p.actions.len());
        if first == Action::FRONT || first == Action::BACK {
            assert_eq!(p.coords.len(), cells - 1);
        } else {
            assert_eq!(p.coords.len(), cells);
        }
    }
    assert_eq!(p.get_first(), Action::NOTHING);
}

#[test]
fn path_from_nodes_round_trip() {
    let n = |x: i16, y: i16, d: PlayerDirection| Node { coord: c(x, y), dir: d };
    let nodes = vec![
        n(1, 1, PlayerDirection::NORTH),
        n(1, 1, PlayerDirection::EAST),
        n(2, 1, PlayerDirection::EAST),
        n(1, 1, PlayerDirection::EAST),
        n(1, 1, PlayerDirection::NORTH),
    ];
    let p = Path::from_nodes(nodes).unwrap();
    assert_eq!(p.actions, vec![Action::RIGHT, Action::FRONT, Action::BACK, Action::LEFT]);
    assert_eq!(p.coords, vec![c(1, 1), c(2, 1), c(1, 1)]);
    assert_eq!(p.dest, c(1, 1));
    assert_eq!(p.size, 4);
    assert!(Path::from_nodes(vec![]).is_none());
}

#[test]
fn midpoint_without_gold_is_spawn() {
    let mut f = Field::new(&config());
    assert_eq!(gold_midpoint(&mut f), c(0, 0));
    update::set(&mut f, c(6, 7), Position::EMPTY, false);
    assert_eq!(gold_midpoint(&mut f), c(6, 7));
}

#[test]
fn midpoint_is_memoized_by_gold_count() {
    let mut f = Field::new(&config());
    set_gold(&mut f, c(2, 2));
    set_gold(&mut f, c(5, 9));
    assert_eq!(gold_midpoint(&mut f), c(3, 5));
    assert_eq!(f.buffer_midpoint_size, 2);
    // same count, other cells: the cached midpoint comes back
    f.gold_positions[1].0 = c(40, 30);
    assert_eq!(gold_midpoint(&mut f), c(3, 5));
    set_gold(&mut f, c(20, 20));
    assert_eq!(gold_midpoint(&mut f), c(20, 17));
}

#[test]
fn best_of_paths_smallest_and_largest() {
    let mut f = Field::new(&config());
    open_row(&mut f, 5, 1, 9);
    let cands = vec![c(9, 5), c(6, 5), c(40, 5), c(7, 5)];
    let small = best_of_paths(&f, &c(4, 5), &PlayerDirection::EAST, cands.clone(), true).unwrap();
    assert_eq!(small.dest, c(6, 5));
    let large = best_of_paths(&f, &c(4, 5), &PlayerDirection::EAST, cands, false).unwrap();
    assert_eq!(large.dest, c(9, 5));
    assert!(best_of_paths(&f, &c(4, 5), &PlayerDirection::EAST, vec![c(40, 5)], true).is_none());
}

#[test]
fn best_of_paths_first_wins_ties() {
    let mut f = Field::new(&config());
    open_row(&mut f, 5, 1, 9);
    let p = best_of_paths(&f, &c(5, 5), &PlayerDirection::NORTH, vec![c(4, 5), c(6, 5)], true).unwrap();
    assert_eq!(p.dest, c(4, 5));
}

#[test]
fn closest_reachable_powerup() {
    let mut f = Field::new(&config());
    open_row(&mut f, 5, 1, 9);
    update::set(&mut f, c(9, 5), Position::POWERUP, true);
    update::set(&mut f, c(40, 20), Position::POWERUP, true);
    update::set(&mut f, c(2, 5), Position::POWERUP, true);
    assert_eq!(closest_powerup(&f, &c(6, 5), &PlayerDirection::WEST), Some(c(2, 5)));
    assert_eq!(closest_powerup(&f, &c(6, 5), &PlayerDirection::EAST), Some(c(9, 5)));
}

#[test]
fn best_block_weighs_midpoint_and_route() {
    let mut f = Field::new(&config());
    open_row(&mut f, 5, 1, 12);
    set_safe(&mut f, c(2, 5));
    set_safe(&mut f, c(11, 5));
    // from (6,5) facing east, (11,5) is 5 steps, (2,5) needs two turns and 4 steps
    let near_mid = best_block_using_midpoint(&f, &c(6, 5), &PlayerDirection::EAST, &c(12, 5)).unwrap();
    assert_eq!(near_mid.dest, c(11, 5));
    let far_mid = best_block_using_midpoint(&f, &c(6, 5), &PlayerDirection::EAST, &c(0, 5)).unwrap();
    assert_eq!(far_mid.dest, c(2, 5));
    let none = Field::new(&config());
    assert!(best_block_using_midpoint(&none, &c(6, 5), &PlayerDirection::EAST, &c(0, 5)).is_none());
}

#[test]
fn integer_square_root() {
    assert_eq!(isqrt(0), 0);
    assert_eq!(isqrt(1), 1);
    assert_eq!(isqrt(8), 2);
    assert_eq!(isqrt(9), 3);
    assert_eq!(isqrt(4_294_967_296), 65536);
}

#[test]
fn gold_collectable_only_when_ripe() {
    let mut f = Field::new(&config());
    open_row(&mut f, 8, 4, 12);
    update::set(&mut f, c(12, 8), Position::GOLD, true);
    do_tick(&mut f, 14000);
    // 8 steps of 100 ms: 800 ms, while 1000 ms remain
    assert!(has_gold_to_collect(&f, &c(4, 8), PlayerDirection::EAST).is_none());
    do_tick(&mut f, 300);
    let p = has_gold_to_collect(&f, &c(4, 8), PlayerDirection::EAST).unwrap();
    assert_eq!(p.size, 8);
    assert_eq!(p.dest, c(12, 8));
}

#[test]
fn nearest_ripe_powerup_wins() {
    let mut f = Field::new(&config());
    open_row(&mut f, 8, 1, 12);
    update::set(&mut f, c(12, 8), Position::POWERUP, true);
    update::set(&mut f, c(8, 8), Position::POWERUP, true);
    do_tick(&mut f, 20000);
    let p = has_powerup_to_collect(&f, &c(4, 8), PlayerDirection::EAST).unwrap();
    assert_eq!(p.dest, c(8, 8));
}

#[test]
fn resource_past_spawn_time_is_rearmed() {
    let mut f = Field::new(&config());
    set_gold(&mut f, c(3, 3));
    set_powerup(&mut f, c(4, 4));
    do_tick(&mut f, 16000);
    should_something_be_here(&mut f, &c(3, 3));
    assert_eq!(f.gold_positions[0].1, 0);
    assert_eq!(f.powerup_positions[0].1, 16000);
    should_something_be_here(&mut f, &c(4, 4));
    assert_eq!(f.powerup_positions[0].1, 0);
    do_tick(&mut f, 100);
    should_something_be_here(&mut f, &c(3, 3));
    assert_eq!(f.gold_positions[0].1, 100);
}

#[test]
fn node_heuristic_and_neighbours() {
    let mut f = Field::new(&config());
    let n = Node { coord: c(5, 5), dir: PlayerDirection::NORTH };
    assert_eq!(n.distance_to_goal(&c(8, 1)), 70);
    assert!(n.neighbours(&f).is_empty());
    update::set(&mut f, c(5, 5), Position::EMPTY, true);
    update::set(&mut f, c(5, 4), Position::EMPTY, true);
    update::set(&mut f, c(5, 6), Position::SAFE, true);
    set_safe(&mut f, c(5, 6));
    let v = n.neighbours(&f);
    assert_eq!(v.len(), 4);
    assert_eq!(v[0], (Node { coord: c(5, 4), dir: PlayerDirection::NORTH }, 10));
    assert_eq!(v[1], (Node { coord: c(5, 6), dir: PlayerDirection::NORTH }, 20));
    assert_eq!(v[2], (Node { coord: c(5, 5), dir: PlayerDirection::WEST }, 10));
    assert_eq!(v[3], (Node { coord: c(5, 5), dir: PlayerDirection::EAST }, 10));
}
