use vstd::prelude::*;

use crate::enums::PlayerDirection;
use crate::map::logic::{a_star, planned_route, follows, route_size};
use crate::map::node::Node;
use crate::map::path::Path;
use crate::map::{cell_index, Coord, Field, FieldModel, Position, MAP_HEIGHT, MAP_WIDTH};

verus! {

/// The cell at integer coordinates, which may lie anywhere.
pub open spec fn cell_at(m: FieldModel, x: int, y: int) -> Position {
    if 0 <= x < MAP_WIDTH && 0 <= y < MAP_HEIGHT {
        m.cells[y * 59 + x]
    } else {
        Position::WALL
    }
}

/// The `i`-th cell ahead of `c` along `dir`, as integer coordinates.
pub open spec fn ray(c: Coord, dir: PlayerDirection, i: int) -> (int, int) {
    match dir {
        PlayerDirection::NORTH => (c.x as int, c.y - i),
        PlayerDirection::EAST => (c.x + i, c.y as int),
        PlayerDirection::SOUTH => (c.x as int, c.y + i),
        PlayerDirection::WEST => (c.x - i, c.y as int),
    }
}

/// Some of the `q - 1` cells strictly ahead of `c` along `dir` is a wall.
pub open spec fn spec_wall_in_line(m: FieldModel, c: Coord, dir: PlayerDirection, q: int) -> bool {
    exists|i: int| 1 <= i < q && #[trigger] cell_at(m, ray(c, dir, i).0, ray(c, dir, i).1) == Position::WALL
}

/// The classification of `c`; a wall outside the arena, unknown where
/// nothing was learnt.
pub fn get(f: &Field, c: &Coord) -> (r: Position)
    requires
        f.wf(),
    ensures
        r == f@.cell(*c),
        !c.in_grid() ==> r == Position::WALL,
{
    if c.x < 0 || c.y < 0 || c.x >= MAP_WIDTH || c.y >= MAP_HEIGHT {
        Position::WALL
    } else {
        f.map[cell_index(c)]
    }
}

/// `c` is in the unsafe overlay.
pub fn is_unsafe(f: &Field, c: &Coord) -> (r: bool)
    requires
        f.wf(),
    ensures
        r == f@.is_unsafe(*c),
{
    if c.x < 0 || c.y < 0 || c.x >= MAP_WIDTH || c.y >= MAP_HEIGHT {
        false
    } else {
        f.unsafe_positions[cell_index(c)] > 0
    }
}

/// `c` is in the safe overlay.
pub fn is_safe(f: &Field, c: &Coord) -> (r: bool)
    requires
        f.wf(),
    ensures
        r == f@.safe(*c),
{
    if c.x < 0 || c.y < 0 || c.x >= MAP_WIDTH || c.y >= MAP_HEIGHT {
        false
    } else {
        f.safe_positions[cell_index(c)]
    }
}

/// Some gold cell is known.
pub fn has_gold(f: &Field) -> (r: bool)
    ensures
        r == (f@.gold.len() > 0),
{
    f.gold_positions.len() > 0
}

/// Some powerup cell is known.
pub fn has_powerup(f: &Field) -> (r: bool)
    ensures
        r == (f@.powerup.len() > 0),
{
    f.powerup_positions.len() > 0
}

/// The cell at integer coordinates.
fn get_xy(f: &Field, x: i32, y: i32) -> (r: Position)
    requires
        f.wf(),
    ensures
        r == cell_at(f@, x as int, y as int),
{
    if x < 0 || y < 0 || x >= MAP_WIDTH as i32 || y >= MAP_HEIGHT as i32 {
        Position::WALL
    } else {
        f.map[(y as usize) * 59 + (x as usize)]
    }
}

/// Whether a wall stands among the `q - 1` cells strictly ahead of `c`
/// along `dir`, that is in the line of fire towards an enemy `q` cells away.
pub fn has_wall_front(f: &Field, c: &Coord, dir: PlayerDirection, q: u8) -> (r: bool)
    requires
        f.wf(),
    ensures
        r == spec_wall_in_line(f@, *c, dir, q as int),
{
    let mut i: u8 = 1;
    while i < q
        invariant
            f.wf(),
            1 <= i,
            i <= q || q == 0,
            forall|j: int| 1 <= j < i ==> #[trigger] cell_at(f@, ray(*c, dir, j).0, ray(*c, dir, j).1) != Position::WALL,
        decreases q - i,
    {
        let (x, y): (i32, i32) = match dir {
            PlayerDirection::NORTH => (c.x as i32, c.y as i32 - i as i32),
            PlayerDirection::EAST => (c.x as i32 + i as i32, c.y as i32),
            PlayerDirection::SOUTH => (c.x as i32, c.y as i32 + i as i32),
            PlayerDirection::WEST => (c.x as i32 - i as i32, c.y as i32),
        };
        if get_xy(f, x, y) == Position::WALL {
            assert(cell_at(f@, ray(*c, dir, i as int).0, ray(*c, dir, i as int).1) == Position::WALL);
            return true;
        }
        i = i + 1;
    }
    false
}

/// A resource aged `age` ms will have grown back by the time the drone
/// arrives along a route of `size` actions: what is left of `spawn_timer`
/// is less than `size` times `normal_timer`.
pub open spec fn ripe_on_arrival(spawn_timer: u64, age: u64, size: int, normal_timer: u64) -> bool {
    spawn_timer - age < size * normal_timer
}

/// The route chosen by `has_something_to_collect` among the entries `s`:
/// the shortest A* route to a resource that is ripe on arrival, the first
/// of equal ones.
pub open spec fn spec_collect(m: FieldModel, normal_timer: u64, spawn_timer: u64, start: Node, s: Seq<(Coord, u64)>) -> Option<Seq<Node>>
    decreases s.len(),
{
    if s.len() == 0 {
        None
    } else {
        let prev = spec_collect(m, normal_timer, spawn_timer, start, s.drop_last());
        match planned_route(m, start, s.last().0) {
            None => prev,
            Some(r) => if ripe_on_arrival(spawn_timer, s.last().1, route_size(r), normal_timer) {
                match prev {
                    None => Some(r),
                    Some(b) => if route_size(b) > route_size(r) { Some(r) } else { prev },
                }
            } else {
                prev
            },
        }
    }
}

/// The plan to the nearest gold that will have grown back on arrival.
pub fn has_gold_to_collect(f: &Field, c: &Coord, dir: PlayerDirection) -> (r: Option<Path>)
    requires
        f.wf(),
        c.can_step(),
    ensures
        ({
            let best = spec_collect(f@, f.config.normal_timer, f.config.spawn_timer, Node { coord: *c, dir }, f@.gold);
            &&& r is Some <==> best is Some
            &&& r matches Some(p) ==> follows(p, best.unwrap())
        }),
{
    has_something_to_collect(f, c, dir, &f.gold_positions)
}

/// The plan to the nearest powerup that will have grown back on arrival.
pub fn has_powerup_to_collect(f: &Field, c: &Coord, dir: PlayerDirection) -> (r: Option<Path>)
    requires
        f.wf(),
        c.can_step(),
    ensures
        ({
            let best = spec_collect(f@, f.config.normal_timer, f.config.spawn_timer, Node { coord: *c, dir }, f@.powerup);
            &&& r is Some <==> best is Some
            &&& r matches Some(p) ==> follows(p, best.unwrap())
        }),
{
    has_something_to_collect(f, c, dir, &f.powerup_positions)
}

/// The plan to the nearest entry of `hm` that will have grown back on
/// arrival, the first of equal ones.
pub fn has_something_to_collect(f: &Field, current_coord: &Coord, dir: PlayerDirection, hm: &Vec<(Coord, u64)>) -> (r: Option<Path>)
    requires
        f.wf(),
        current_coord.can_step(),
    ensures
        ({
            let best = spec_collect(f@, f.config.normal_timer, f.config.spawn_timer, Node { coord: *current_coord, dir }, hm@);
            &&& r is Some <==> best is Some
            &&& r matches Some(p) ==> follows(p, best.unwrap())
        }),
{
    let ghost start = Node { coord: *current_coord, dir };
    let mut best_path: Option<Path> = None;
    let mut i: usize = 0;
    while i < hm.len()
        invariant
            f.wf(),
            current_coord.can_step(),
            start == (Node { coord: *current_coord, dir }),
            i <= hm@.len(),
            ({
                let best = spec_collect(f@, f.config.normal_timer, f.config.spawn_timer, start, hm@.subrange(0, i as int));
                &&& best_path is Some <==> best is Some
                &&& best_path matches Some(p) ==> follows(p, best.unwrap())
            }),
        decreases hm@.len() - i,
    {
        let (something_coord, time) = hm[i];
        proof {
            assert(hm@.subrange(0, i + 1).drop_last() =~= hm@.subrange(0, i as int));
        }
        match a_star(f, current_coord, &dir, &something_coord) {
            None => {},
            Some(cp) => {
                let size: u128 = cp.size as u128;
                let normal: u128 = f.config.normal_timer as u128;
                assert(size * normal <= 0xffff_ffff_ffff_ffff * 0xffff_ffff_ffff_ffff) by (nonlinear_arith)
                    requires size <= 0xffff_ffff_ffff_ffff, normal <= 0xffff_ffff_ffff_ffff;
                let ripe: bool = (f.config.spawn_timer as u128) < (time as u128) + size * normal;
                if ripe {
                    let better = match &best_path {
                        None => true,
                        Some(bp) => bp.size > cp.size,
                    };
                    if better {
                        best_path = Some(cp);
                    }
                }
            },
        }
        i = i + 1;
    }
    assert(hm@.subrange(0, hm@.len() as int) =~= hm@);
    best_path
}

} // verus!
