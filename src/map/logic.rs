use vstd::prelude::*;

use crate::enums::PlayerDirection;
use crate::map::node::Node;
use crate::map::path::{
    actions_of, coords_of, is_route, lemma_route_cells_open, lemma_route_walk, walk_clear, walk_end, Path,
};
use crate::map::query::has_gold;
use crate::map::update::{set_gold, set_powerup};
use crate::map::{has_key, lemma_timer_at, timer_of, timers_wf, Coord, Field, FieldModel, Position};

verus! {

/// The nodes of the route that pathfinding's A* search finds on the
/// planner's graph of a field with these cells, safe overlay and unsafe
/// counts, from `start` to a node on `dest`.
pub uninterp spec fn astar_route(
    cells: Seq<Position>,
    safe: Seq<bool>,
    unsafe_counts: Seq<u8>,
    start: Node,
    dest: Coord,
) -> Option<Seq<Node>>;

/// The A* route on field `m`; the planner reads only the map and the two
/// overlays.
pub open spec fn planned_route(m: FieldModel, start: Node, dest: Coord) -> Option<Seq<Node>> {
    astar_route(m.cells, m.safe, m.unsafe_counts, start, dest)
}

/// Relies on pathfinding's `astar`, given the successors of
/// `Node::neighbours`, the heuristic `Node::distance_to_goal` and the goal
/// test `Node::is_at`. Its result depends on these alone. A path it returns
/// starts at `start`, ends on a node that passes the goal test, and each of
/// its nodes is among the successors of the one before. It returns `None`
/// only once every node reachable from `start` has been expanded without
/// reaching the goal.
#[verifier::external_body]
fn astar_search(f: &Field, start: &Node, dest: &Coord) -> (r: Option<Vec<Node>>)
    requires
        f.wf(),
        start.coord.can_step(),
    ensures
        r matches Some(ns) ==> astar_route(f@.cells, f@.safe, f@.unsafe_counts, *start, *dest) == Some(ns@)
            && is_route(f@, ns@, *start, *dest),
        r is None ==> astar_route(f@.cells, f@.safe, f@.unsafe_counts, *start, *dest) is None
            && forall|ns: Seq<Node>| !is_route(f@, ns, *start, *dest),
        start.coord == *dest ==> r is Some && r.unwrap()@ == seq![*start],
{
    pathfinding::prelude::astar(
        start,
        |n: &Node| n.neighbours(f),
        |n: &Node| n.distance_to_goal(dest),
        |n: &Node| n.is_at(dest),
    ).map(|found| found.0)
}

/// Number of actions of the plan that follows route `ns`.
pub open spec fn route_size(ns: Seq<Node>) -> int {
    actions_of(ns).len() as int
}

/// `p` is the plan that follows route `ns`.
pub open spec fn follows(p: Path, ns: Seq<Node>) -> bool {
    &&& p.wf()
    &&& p.actions@ == actions_of(ns)
    &&& p.coords@ == coords_of(ns)
    &&& p.dest == ns.last().coord
    &&& ns.len() >= 1
}

/// A plan from `(origin, dir)` to `dest`, following the route the A* search
/// finds; `None` exactly when no route exists. Taking its actions from
/// `(origin, dir)` never enters a wall, a hazard or an unknown cell, and
/// ends on `dest`.
pub fn a_star(f: &Field, origin: &Coord, dir: &PlayerDirection, dest: &Coord) -> (r: Option<Path>)
    requires
        f.wf(),
        origin.can_step(),
    ensures
        ({
            let start = Node { coord: *origin, dir: *dir };
            &&& r is Some <==> planned_route(f@, start, *dest) is Some
            &&& r is None ==> forall|ns: Seq<Node>| !is_route(f@, ns, start, *dest)
            &&& r matches Some(p) ==> {
                &&& follows(p, planned_route(f@, start, *dest).unwrap())
                &&& p.dest == *dest
                &&& walk_clear(f@, start, p.actions@)
                &&& walk_end(start, p.actions@).coord == *dest
                &&& p.coords@[0] == *origin
                &&& forall|k: int| 1 <= k < p.coords@.len() ==> f@.cell(#[trigger] p.coords@[k]).passable()
            }
            &&& *origin == *dest ==> r is Some && r.unwrap().size == 0 && r.unwrap().coords@ == seq![*origin]
        }),
{
    let start = Node { coord: *origin, dir: *dir };
    match astar_search(f, &start, dest) {
        None => None,
        Some(nodes) => {
            proof {
                lemma_route_walk(f@, nodes@, start, *dest);
                lemma_route_cells_open(f@, nodes@, start, *dest);
            }
            Path::from_nodes(nodes)
        },
    }
}

/// The timer kept for `c` in a list.
fn find_timer(v: &Vec<(Coord, u64)>, c: &Coord) -> (r: Option<u64>)
    requires
        timers_wf(v@),
    ensures
        r == timer_of(v@, *c),
{
    let mut i: usize = 0;
    while i < v.len()
        invariant
            timers_wf(v@),
            i <= v@.len(),
            forall|j: int| 0 <= j < i ==> (#[trigger] v@[j]).0 != *c,
        decreases v@.len() - i,
    {
        if v[i].0 == *c {
            proof { lemma_timer_at(v@, i as int); }
            return Some(v[i].1);
        }
        i = i + 1;
    }
    None
}

/// The field after re-arming a resource at `c` that should have grown back:
/// a gold (or else a powerup) kept for `c` whose timer is past `spawn_timer`
/// gets its timer reset.
pub open spec fn spec_should_something_be_here(m: FieldModel, spawn_timer: u64, c: Coord) -> FieldModel {
    match m.gold_timer(c) {
        Some(t) => if t > spawn_timer { m.with_gold(c) } else { m },
        None => match m.powerup_timer(c) {
            Some(t) => if t > spawn_timer { m.with_powerup(c) } else { m },
            None => m,
        },
    }
}

/// Re-arms the gold or powerup at `c` when its timer is past the spawn time.
pub fn should_something_be_here(f: &mut Field, c: &Coord)
    requires
        old(f).wf(),
    ensures
        final(f)@ == spec_should_something_be_here(old(f)@, old(f).config.spawn_timer, *c),
        final(f).wf(),
        final(f).config == old(f).config,
{
    let gold = find_timer(&f.gold_positions, c);
    let powerup = find_timer(&f.powerup_positions, c);
    match gold {
        Some(t) => {
            if t > f.config.spawn_timer {
                set_gold(f, *c);
            }
        },
        None => match powerup {
            Some(t) => {
                if t > f.config.spawn_timer {
                    set_powerup(f, *c);
                }
            },
            None => {},
        },
    }
}

/// Sum of the columns of the cells of a timer list.
pub open spec fn sum_x(s: Seq<(Coord, u64)>) -> int
    decreases s.len(),
{
    if s.len() == 0 { 0 } else { sum_x(s.drop_last()) + s.last().0.x }
}

/// Sum of the rows of the cells of a timer list.
pub open spec fn sum_y(s: Seq<(Coord, u64)>) -> int
    decreases s.len(),
{
    if s.len() == 0 { 0 } else { sum_y(s.drop_last()) + s.last().0.y }
}

/// The mean cell of a non-empty list of arena cells, rounded down.
pub open spec fn spec_mean(s: Seq<(Coord, u64)>) -> Coord {
    Coord { x: (sum_x(s) / s.len() as int) as i16, y: (sum_y(s) / s.len() as int) as i16 }
}

/// What `gold_midpoint` returns and leaves, from field `m`: the spawn (or
/// `(0, 0)`) when no gold is known; the cached midpoint when the number of
/// gold cells equals the cached count; otherwise the mean of the gold
/// cells, which then becomes the cache.
pub open spec fn gold_midpoint_post(m: FieldModel, after: FieldModel, r: Coord) -> bool {
    if m.gold.len() == 0 {
        &&& r == (match m.spawn { Some(s) => s, None => Coord { x: 0, y: 0 } })
        &&& after == m
    } else if m.gold.len() == m.mid_size {
        &&& r == m.mid_coord
        &&& after == m
    } else {
        &&& r == spec_mean(m.gold)
        &&& after.mid_size == m.gold.len()
        &&& after == FieldModel { mid_size: after.mid_size, mid_coord: r, ..m }
    }
}

/// The midpoint of the known gold, memoized by the number of gold cells.
pub fn gold_midpoint(f: &mut Field) -> (r: Coord)
    requires
        old(f).wf(),
    ensures
        gold_midpoint_post(old(f)@, final(f)@, r),
        final(f).wf(),
        final(f).config == old(f).config,
{
    if !has_gold(f) {
        return match f.spawn {
            Some(s) => s,
            None => Coord { x: 0, y: 0 },
        };
    }
    if f.gold_positions.len() == f.buffer_midpoint_size {
        return f.buffer_midpoint_coord;
    }
    let n = f.gold_positions.len();
    let mut sx: u128 = 0;
    let mut sy: u128 = 0;
    let mut i: usize = 0;
    while i < n
        invariant
            n == f.gold_positions@.len(),
            timers_wf(f.gold_positions@),
            i <= n,
            sx == sum_x(f.gold_positions@.subrange(0, i as int)),
            sy == sum_y(f.gold_positions@.subrange(0, i as int)),
            sx <= 58 * i,
            sy <= 33 * i,
        decreases n - i,
    {
        let c = f.gold_positions[i].0;
        proof {
            let s = f.gold_positions@;
            assert(s.subrange(0, i + 1).drop_last() =~= s.subrange(0, i as int));
            assert(s[i as int].0.in_grid());
        }
        sx = sx + c.x as u128;
        sy = sy + c.y as u128;
        i = i + 1;
    }
    assert(f.gold_positions@.subrange(0, n as int) =~= f.gold_positions@);
    let mx: u128 = sx / (n as u128);
    let my: u128 = sy / (n as u128);
    proof {
        assert(mx <= 58) by (nonlinear_arith)
            requires mx == sx / (n as u128), sx <= 58 * n, n > 0;
        assert(my <= 33) by (nonlinear_arith)
            requires my == sy / (n as u128), sy <= 33 * n, n > 0;
    }
    let ret = Coord { x: mx as i16, y: my as i16 };
    f.buffer_midpoint_coord = ret;
    f.buffer_midpoint_size = n;
    ret
}

/// Repeated calls agree while the number of gold cells stays the same:
/// once a call has cached its midpoint, a later call on a field with the
/// same gold count and the same cache returns that midpoint again, and
/// leaves the field as it was.
pub proof fn lemma_gold_midpoint_memoized(
    m0: FieldModel,
    m1: FieldModel,
    r1: Coord,
    m2: FieldModel,
    m3: FieldModel,
    r2: Coord,
)
    requires
        gold_midpoint_post(m0, m1, r1),
        m0.gold.len() > 0,
        m2.gold.len() == m1.gold.len(),
        m2.mid_size == m1.mid_size,
        m2.mid_coord == m1.mid_coord,
        gold_midpoint_post(m2, m3, r2),
    ensures
        r2 == r1,
        m3 == m2,
{
}

/// The route chosen among the candidates `cs`: the A* route to each
/// reachable candidate is compared by size, and one strictly smaller (or,
/// when `smallest` is false, strictly larger) than the best so far replaces
/// it, so the first of equal routes wins.
pub open spec fn spec_best_of(m: FieldModel, start: Node, cs: Seq<Coord>, smallest: bool) -> Option<Seq<Node>>
    decreases cs.len(),
{
    if cs.len() == 0 {
        None
    } else {
        let prev = spec_best_of(m, start, cs.drop_last(), smallest);
        match planned_route(m, start, cs.last()) {
            None => prev,
            Some(r) => match prev {
                None => Some(r),
                Some(b) => if (smallest && route_size(r) < route_size(b)) || (!smallest && route_size(r) > route_size(b)) {
                    Some(r)
                } else {
                    prev
                },
            },
        }
    }
}

/// The plan to the candidate with the smallest (or largest) reachable route.
pub fn best_of_paths(f: &Field, c: &Coord, dir: &PlayerDirection, coords: Vec<Coord>, smallest: bool) -> (r: Option<Path>)
    requires
        f.wf(),
        c.can_step(),
    ensures
        ({
            let best = spec_best_of(f@, Node { coord: *c, dir: *dir }, coords@, smallest);
            &&& r is Some <==> best is Some
            &&& r matches Some(p) ==> follows(p, best.unwrap())
        }),
        r matches Some(p) ==> coords@.contains(p.dest),
{
    let ghost start = Node { coord: *c, dir: *dir };
    let mut temp_path: Option<Path> = None;
    let mut i: usize = 0;
    while i < coords.len()
        invariant
            f.wf(),
            c.can_step(),
            start == (Node { coord: *c, dir: *dir }),
            i <= coords@.len(),
            ({
                let best = spec_best_of(f@, start, coords@.subrange(0, i as int), smallest);
                &&& temp_path is Some <==> best is Some
                &&& temp_path matches Some(p) ==> follows(p, best.unwrap())
            }),
            temp_path matches Some(p) ==> coords@.subrange(0, i as int).contains(p.dest),
        decreases coords@.len() - i,
    {
        let coord = coords[i];
        proof {
            assert(coords@.subrange(0, i + 1).drop_last() =~= coords@.subrange(0, i as int));
        }
        match a_star(f, c, dir, &coord) {
            None => {},
            Some(p) => {
                proof {
                    assert(coords@.subrange(0, i + 1)[i as int] == coord);
                    if temp_path is Some {
                        let q = temp_path.unwrap().dest;
                        let k = choose|k: int| 0 <= k < i && coords@.subrange(0, i as int)[k] == q;
                        assert(coords@.subrange(0, i + 1)[k] == q);
                    }
                }
                let update = match &temp_path {
                    None => true,
                    Some(tp) => if smallest { p.size < tp.size } else { p.size > tp.size },
                };
                if update {
                    temp_path = Some(p);
                }
            },
        }
        i = i + 1;
    }
    assert(coords@.subrange(0, coords@.len() as int) =~= coords@);
    temp_path
}

/// The cells of a timer list, in order.
pub open spec fn timer_cells(s: Seq<(Coord, u64)>) -> Seq<Coord> {
    Seq::new(s.len(), |i: int| s[i].0)
}

/// The powerup cell with the smallest reachable route, if any.
pub fn closest_powerup(f: &Field, c: &Coord, dir: &PlayerDirection) -> (r: Option<Coord>)
    requires
        f.wf(),
        c.can_step(),
    ensures
        ({
            let best = spec_best_of(f@, Node { coord: *c, dir: *dir }, timer_cells(f@.powerup), true);
            &&& r is Some <==> best is Some
            &&& r matches Some(d) ==> d == best.unwrap().last().coord
        }),
        r matches Some(d) ==> has_key(f@.powerup, d),
{
    let mut v: Vec<Coord> = Vec::new();
    let mut i: usize = 0;
    while i < f.powerup_positions.len()
        invariant
            i <= f.powerup_positions@.len(),
            v@ == timer_cells(f.powerup_positions@.subrange(0, i as int)),
        decreases f.powerup_positions@.len() - i,
    {
        v.push(f.powerup_positions[i].0);
        i = i + 1;
        assert(v@ =~= timer_cells(f.powerup_positions@.subrange(0, i as int)));
    }
    assert(f.powerup_positions@.subrange(0, i as int) =~= f.powerup_positions@);
    let ghost cells = v@;
    match best_of_paths(f, c, dir, v, true) {
        Some(p) => {
            proof {
                let k = choose|k: int| 0 <= k < cells.len() && cells[k] == p.dest;
                assert(f@.powerup[k].0 == p.dest);
            }
            Some(p.dest)
        },
        None => None,
    }
}

/// `r` is the floor of the square root of `t`.
pub open spec fn is_floor_root(t: int, r: int) -> bool {
    0 <= r && r * r <= t < (r + 1) * (r + 1)
}

/// Floor of the square root of `t`.
pub open spec fn spec_isqrt(t: int) -> int {
    choose|r: int| #[trigger] is_floor_root(t, r)
}

/// Floor of the square root.
pub fn isqrt(t: u64) -> (r: u64)
    requires
        t < 0x1_0000_0000_0000,
    ensures
        r == spec_isqrt(t as int),
        r * r <= t < (r + 1) * (r + 1),
{
    let mut lo: u64 = 0;
    let mut hi: u64 = 0x100_0000;
    assert(hi * hi > t) by (nonlinear_arith)
        requires hi == 0x100_0000, t < 0x1_0000_0000_0000;
    while lo + 1 < hi
        invariant
            lo < hi <= 0x100_0000,
            lo * lo <= t,
            t < hi * hi,
        decreases hi - lo,
    {
        let mid = lo + (hi - lo) / 2;
        assert(mid * mid <= 0x100_0000 * 0x100_0000) by (nonlinear_arith)
            requires mid < 0x100_0000;
        if mid * mid <= t {
            lo = mid;
        } else {
            hi = mid;
        }
    }
    proof {
        lemma_isqrt_unique(t as int, lo as int);
    }
    lo
}

/// The floor square root is the one `r` with `r * r <= t < (r + 1) * (r + 1)`.
pub proof fn lemma_isqrt_unique(t: int, r: int)
    requires
        0 <= r,
        r * r <= t < (r + 1) * (r + 1),
    ensures
        spec_isqrt(t) == r,
{
    assert(is_floor_root(t, r));
    let s = spec_isqrt(t);
    assert(is_floor_root(t, s));
    if s < r {
        assert((s + 1) * (s + 1) <= r * r) by (nonlinear_arith)
            requires 0 <= s, s + 1 <= r;
    } else if s > r {
        assert((r + 1) * (r + 1) <= s * s) by (nonlinear_arith)
            requires 0 <= r, r + 1 <= s;
    }
}

/// The arena cell of row-major index `i`.
pub open spec fn cell_of_index(i: int) -> Coord {
    Coord { x: (i % 59) as i16, y: (i / 59) as i16 }
}

/// Score of a safe cell `s` reached by route `r`: twice the floor of its
/// Euclidean distance to `mid`, plus the size of the route.
pub open spec fn block_score(s: Coord, mid: Coord, r: Seq<Node>) -> int {
    2 * spec_isqrt((s.x - mid.x) * (s.x - mid.x) + (s.y - mid.y) * (s.y - mid.y)) + route_size(r)
}

/// The best route among the safe cells of index below `n`, in row-major
/// order, with its score: the first reachable cell is taken, and a later
/// one replaces the best so far only with a strictly lower score;
/// unreachable cells are skipped.
pub open spec fn spec_best_block(m: FieldModel, start: Node, mid: Coord, n: int) -> (Option<Seq<Node>>, int)
    decreases n,
{
    if n <= 0 {
        (None, 0)
    } else {
        let prev = spec_best_block(m, start, mid, n - 1);
        let s = cell_of_index(n - 1);
        if !m.safe[n - 1] {
            prev
        } else {
            match planned_route(m, start, s) {
                None => prev,
                Some(r) => if prev.0 is None || block_score(s, mid, r) < prev.1 {
                    (Some(r), block_score(s, mid, r))
                } else {
                    prev
                },
            }
        }
    }
}

/// The safe cell of index `i` can be reached from `start`.
pub open spec fn block_reachable(m: FieldModel, start: Node, i: int) -> bool {
    m.safe[i] && planned_route(m, start, cell_of_index(i)) is Some
}

/// The score of the safe cell of index `i`, reached from `start`.
pub open spec fn index_score(m: FieldModel, start: Node, mid: Coord, i: int) -> int {
    block_score(cell_of_index(i), mid, planned_route(m, start, cell_of_index(i)).unwrap())
}

/// `spec_best_block` finds nothing exactly when no safe cell of index
/// below `n` is reachable; otherwise it finds the route to a reachable one
/// of least score, the first in row-major order among equals.
pub proof fn lemma_best_block_argmin(m: FieldModel, start: Node, mid: Coord, n: int)
    requires
        0 <= n,
    ensures
        spec_best_block(m, start, mid, n).0 is None <==> forall|j: int| 0 <= j < n ==> !#[trigger] block_reachable(m, start, j),
        spec_best_block(m, start, mid, n).0 is Some ==> exists|i: int| {
            &&& 0 <= i < n
            &&& #[trigger] block_reachable(m, start, i)
            &&& spec_best_block(m, start, mid, n).0 == planned_route(m, start, cell_of_index(i))
            &&& spec_best_block(m, start, mid, n).1 == index_score(m, start, mid, i)
            &&& forall|j: int| 0 <= j < n && #[trigger] block_reachable(m, start, j) ==> index_score(m, start, mid, i) <= index_score(m, start, mid, j)
            &&& forall|j: int| 0 <= j < i && #[trigger] block_reachable(m, start, j) ==> index_score(m, start, mid, j) > index_score(m, start, mid, i)
        },
    decreases n,
{
    if n > 0 {
        let k = n - 1;
        lemma_best_block_argmin(m, start, mid, k);
        let prev = spec_best_block(m, start, mid, k);
        let best = spec_best_block(m, start, mid, n);
        if !block_reachable(m, start, k) {
            assert(best == prev);
            if prev.0 is Some {
                let i = choose|i: int| {
                    &&& 0 <= i < k
                    &&& #[trigger] block_reachable(m, start, i)
                    &&& prev.0 == planned_route(m, start, cell_of_index(i))
                    &&& prev.1 == index_score(m, start, mid, i)
                    &&& forall|j: int| 0 <= j < k && #[trigger] block_reachable(m, start, j) ==> index_score(m, start, mid, i) <= index_score(m, start, mid, j)
                    &&& forall|j: int| 0 <= j < i && #[trigger] block_reachable(m, start, j) ==> index_score(m, start, mid, j) > index_score(m, start, mid, i)
                };
                assert(block_reachable(m, start, i));
            }
        } else if prev.0 is None {
            assert(best.0 == planned_route(m, start, cell_of_index(k)));
            assert(block_reachable(m, start, k));
        } else {
            let i = choose|i: int| {
                &&& 0 <= i < k
                &&& #[trigger] block_reachable(m, start, i)
                &&& prev.0 == planned_route(m, start, cell_of_index(i))
                &&& prev.1 == index_score(m, start, mid, i)
                &&& forall|j: int| 0 <= j < k && #[trigger] block_reachable(m, start, j) ==> index_score(m, start, mid, i) <= index_score(m, start, mid, j)
                &&& forall|j: int| 0 <= j < i && #[trigger] block_reachable(m, start, j) ==> index_score(m, start, mid, j) > index_score(m, start, mid, i)
            };
            if index_score(m, start, mid, k) < prev.1 {
                assert(block_reachable(m, start, k));
            } else {
                assert(block_reachable(m, start, i));
            }
        }
    }
}

/// The plan to the safe cell that best balances nearness to `c_mid` and
/// to the drone: `None` exactly when no safe cell is reachable; otherwise
/// the route to a reachable safe cell of least score (see `block_score`),
/// the first in row-major order among equals.
pub fn best_block_using_midpoint(f: &Field, c_bot: &Coord, dir: &PlayerDirection, c_mid: &Coord) -> (r: Option<Path>)
    requires
        f.wf(),
        c_bot.can_step(),
    ensures
        ({
            let start = Node { coord: *c_bot, dir: *dir };
            let best = spec_best_block(f@, start, *c_mid, 2006).0;
            &&& r is Some <==> best is Some
            &&& r matches Some(p) ==> follows(p, best.unwrap())
            &&& r is None <==> forall|j: int| 0 <= j < 2006 ==> !#[trigger] block_reachable(f@, start, j)
            &&& r is Some ==> exists|i: int| {
                &&& 0 <= i < 2006
                &&& #[trigger] block_reachable(f@, start, i)
                &&& follows(r.unwrap(), planned_route(f@, start, cell_of_index(i)).unwrap())
                &&& forall|j: int| 0 <= j < 2006 && #[trigger] block_reachable(f@, start, j)
                    ==> index_score(f@, start, *c_mid, i) <= index_score(f@, start, *c_mid, j)
                &&& forall|j: int| 0 <= j < i && #[trigger] block_reachable(f@, start, j)
                    ==> index_score(f@, start, *c_mid, j) > index_score(f@, start, *c_mid, i)
            }
        }),
{
    let ghost start = Node { coord: *c_bot, dir: *dir };
    let mut smallest_dist: i128 = 0;
    let mut path_ret: Option<Path> = None;
    let mut i: usize = 0;
    let mut x: i16 = 0;
    let mut y: i16 = 0;
    while i < 2006
        invariant
            f.wf(),
            c_bot.can_step(),
            start == (Node { coord: *c_bot, dir: *dir }),
            i <= 2006,
            0 <= x < 59,
            0 <= y <= 34,
            i == y * 59 + x,
            ({
                let best = spec_best_block(f@, start, *c_mid, i as int);
                &&& smallest_dist == best.1
                &&& path_ret is Some <==> best.0 is Some
                &&& path_ret matches Some(p) ==> follows(p, best.0.unwrap())
            }),
        decreases 2006 - i,
    {
        let c_safe = Coord { x, y };
        proof {
            vstd::arithmetic::div_mod::lemma_fundamental_div_mod_converse(i as int, 59, y as int, x as int);
            assert(cell_of_index(i as int) == c_safe);
        }
        if f.safe_positions[i] {
            let ddx: i64 = c_safe.x as i64 - c_mid.x as i64;
            let ddy: i64 = c_safe.y as i64 - c_mid.y as i64;
            assert(ddx * ddx <= 0x1_0000_0000) by (nonlinear_arith)
                requires -65536 <= ddx <= 65536;
            assert(ddy * ddy <= 0x1_0000_0000) by (nonlinear_arith)
                requires -65536 <= ddy <= 65536;
            assert(0 <= ddx * ddx) by (nonlinear_arith);
            assert(0 <= ddy * ddy) by (nonlinear_arith);
            let t: u64 = (ddx * ddx + ddy * ddy) as u64;
            let root = isqrt(t);
            assert(root <= 0x100_0000) by (nonlinear_arith)
                requires root * root <= t, t <= 0x2_0000_0000;
            match a_star(f, c_bot, dir, &c_safe) {
                None => {},
                Some(temp_path) => {
                    let d: i128 = 2 * (root as i128) + (temp_path.size as i128);
                    if path_ret.is_none() || d < smallest_dist {
                        smallest_dist = d;
                        path_ret = Some(temp_path);
                    }
                },
            }
        }
        i = i + 1;
        if x == 58 {
            x = 0;
            y = y + 1;
        } else {
            x = x + 1;
        }
    }
    proof {
        lemma_best_block_argmin(f@, start, *c_mid, 2006);
    }
    path_ret
}

} // verus!
