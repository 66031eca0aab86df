use vstd::prelude::*;

use crate::enums::{Action, PlayerDirection};
use crate::map::logic::spec_should_something_be_here;
use crate::map::update::{
    around, damage_cells, lemma_index_distinct, lemma_mark_unsafe_wf, lemma_reset_wf, lemma_set_wf, mark_unsafe,
    reset_timer, spec_apply_observation, spec_found, spec_set, spec_set_custom, SetType, key_index,
};
use crate::map::{has_key, lemma_timer_at, timer_of, timers_wf, Coord, FieldModel, Position};
use crate::structs::LastObservation;

verus! {

/// A non-forcing write at `c` leaves every other cell and its overlay
/// flag, the unsafe counts and the timers alone.
proof fn lemma_set_frame(m: FieldModel, c: Coord, p: Position, d: Coord)
    requires
        m.wf(),
        d != c,
    ensures
        spec_set(m, c, p, false).cell(d) == m.cell(d),
        spec_set(m, c, p, false).safe(d) == m.safe(d),
        spec_set(m, c, p, false).unsafe_counts == m.unsafe_counts,
        spec_set(m, c, p, false).gold == m.gold,
        spec_set(m, c, p, false).powerup == m.powerup,
        spec_set(m, c, p, false).wf(),
{
    if c.in_grid() && d.in_grid() {
        lemma_index_distinct(c, d);
    }
    lemma_set_wf(m, c, p, false);
}

/// A cell that is neither unknown nor a hazard.
spec fn settled(x: FieldModel, d: Coord) -> bool {
    x.cell(d) != Position::UNKNOWN && x.cell(d) != Position::DANGER
}

/// A non-forcing write of a known value keeps known cells known, settled
/// cells settled (unless a hazard is written) and walls walls (unless
/// something other than a safe or hazard mark is written there).
proof fn lemma_set_keeps(x: FieldModel, c: Coord, p: Position, d: Coord)
    requires
        x.wf(),
        p != Position::UNKNOWN,
    ensures
        x.cell(d) != Position::UNKNOWN ==> spec_set(x, c, p, false).cell(d) != Position::UNKNOWN,
        settled(x, d) && p != Position::DANGER ==> settled(spec_set(x, c, p, false), d),
        x.cell(d) == Position::WALL && (d != c || p == Position::SAFE || p == Position::DANGER || p == Position::WALL)
            ==> spec_set(x, c, p, false).cell(d) == Position::WALL,
        spec_set(x, c, p, false).wf(),
        spec_set(x, c, p, false).unsafe_counts == x.unsafe_counts,
        spec_set(x, c, p, false).gold == x.gold,
        spec_set(x, c, p, false).powerup == x.powerup,
{
    lemma_set_wf(x, c, p, false);
    if d != c {
        lemma_set_frame(x, c, p, d);
    }
}

/// Writing around `c` keeps what `lemma_set_keeps` keeps, at every cell.
proof fn lemma_around_keeps(x: FieldModel, c: Coord, p: Position, d: Coord)
    requires
        x.wf(),
        p != Position::UNKNOWN,
        p == Position::SAFE || p == Position::DANGER,
    ensures
        x.cell(d) != Position::UNKNOWN ==> spec_set_custom(x, c, SetType::AROUND, None, p).cell(d) != Position::UNKNOWN,
        settled(x, d) && p != Position::DANGER ==> settled(spec_set_custom(x, c, SetType::AROUND, None, p), d),
        x.cell(d) == Position::WALL ==> spec_set_custom(x, c, SetType::AROUND, None, p).cell(d) == Position::WALL,
        spec_set_custom(x, c, SetType::AROUND, None, p).wf(),
        spec_set_custom(x, c, SetType::AROUND, None, p).unsafe_counts == x.unsafe_counts,
        spec_set_custom(x, c, SetType::AROUND, None, p).gold == x.gold,
        spec_set_custom(x, c, SetType::AROUND, None, p).powerup == x.powerup,
{
    let a = around(c);
    lemma_set_keeps(x, a[0], p, d);
    let x1 = spec_set(x, a[0], p, false);
    lemma_set_keeps(x1, a[1], p, d);
    let x2 = spec_set(x1, a[1], p, false);
    lemma_set_keeps(x2, a[2], p, d);
    let x3 = spec_set(x2, a[2], p, false);
    lemma_set_keeps(x3, a[3], p, d);
}

/// After a write of a hazard (or safe) mark around `c`, every cell around
/// `c` is known (or settled).
proof fn lemma_around_marks(x: FieldModel, c: Coord, p: Position)
    requires
        x.wf(),
        c.has_room(),
        p == Position::SAFE || p == Position::DANGER,
    ensures
        forall|k: int| 0 <= k < 4 ==> spec_set_custom(x, c, SetType::AROUND, None, p).cell(#[trigger] around(c)[k]) != Position::UNKNOWN,
        p == Position::SAFE ==> forall|k: int| 0 <= k < 4 ==> settled(spec_set_custom(x, c, SetType::AROUND, None, p), #[trigger] around(c)[k]),
{
    let a = around(c);
    let x1 = spec_set(x, a[0], p, false);
    let x2 = spec_set(x1, a[1], p, false);
    let x3 = spec_set(x2, a[2], p, false);
    let x4 = spec_set(x3, a[3], p, false);
    lemma_set_wf(x, a[0], p, false);
    lemma_set_wf(x1, a[1], p, false);
    lemma_set_wf(x2, a[2], p, false);
    assert forall|k: int| 0 <= k < 4 implies x4.cell(#[trigger] around(c)[k]) != Position::UNKNOWN
        && (p == Position::SAFE ==> settled(x4, around(c)[k])) by {
        let d = a[k];
        if k == 0 {
            lemma_set_keeps(x1, a[1], p, d);
            lemma_set_keeps(x2, a[2], p, d);
            lemma_set_keeps(x3, a[3], p, d);
        } else if k == 1 {
            lemma_set_keeps(x2, a[2], p, d);
            lemma_set_keeps(x3, a[3], p, d);
        } else if k == 2 {
            lemma_set_keeps(x3, a[3], p, d);
        }
    }
}

/// A second write of the same marks around `c` changes nothing.
proof fn lemma_around_again(x: FieldModel, c: Coord, p: Position)
    requires
        p == Position::SAFE || p == Position::DANGER,
        forall|k: int| 0 <= k < 4 ==> x.cell(#[trigger] around(c)[k]) != Position::UNKNOWN,
        p == Position::SAFE ==> forall|k: int| 0 <= k < 4 ==> settled(x, #[trigger] around(c)[k]),
    ensures
        spec_set_custom(x, c, SetType::AROUND, None, p) == x,
{
    let a = around(c);
    assert(x.cell(a[0]) != Position::UNKNOWN);
    assert(x.cell(a[1]) != Position::UNKNOWN);
    assert(x.cell(a[2]) != Position::UNKNOWN);
    assert(x.cell(a[3]) != Position::UNKNOWN);
    if p == Position::SAFE {
        assert(settled(x, a[0]) && settled(x, a[1]) && settled(x, a[2]) && settled(x, a[3]));
    }
}

/// Marking cells unsafe sets each arena cell of the list to count 1.
proof fn lemma_mark_sets(x: FieldModel, cs: Seq<Coord>, k: int)
    requires
        x.wf(),
        0 <= k < cs.len(),
        cs[k].in_grid(),
    ensures
        mark_unsafe(x, cs).unsafe_counts[cs[k].index()] == 1,
    decreases cs.len(),
{
    lemma_mark_unsafe_wf(x, cs.drop_last());
    let last = cs.last();
    if k < cs.len() - 1 {
        lemma_mark_sets(x, cs.drop_last(), k);
        if last.in_grid() && last != cs[k] {
            lemma_index_distinct(last, cs[k]);
        }
    }
}

/// Marking again cells that are already at count 1 changes nothing.
proof fn lemma_mark_again(x: FieldModel, cs: Seq<Coord>)
    requires
        x.wf(),
        forall|k: int| 0 <= k < cs.len() && (#[trigger] cs[k]).in_grid() ==> x.unsafe_counts[cs[k].index()] == 1,
    ensures
        mark_unsafe(x, cs) == x,
    decreases cs.len(),
{
    if cs.len() > 0 {
        let pre = cs.drop_last();
        assert forall|k: int| 0 <= k < pre.len() && (#[trigger] pre[k]).in_grid() implies x.unsafe_counts[pre[k].index()] == 1 by {
            assert(pre[k] == cs[k]);
        }
        lemma_mark_again(x, pre);
        let last = cs.last();
        if last.in_grid() {
            assert(cs[cs.len() - 1] == last);
            assert(x.unsafe_counts.update(last.index(), 1u8) =~= x.unsafe_counts);
        }
    }
}

/// Resetting a timer that reads zero changes nothing.
proof fn lemma_reset_again(s: Seq<(Coord, u64)>, c: Coord)
    requires
        timers_wf(s),
        timer_of(s, c) == Some(0u64),
    ensures
        reset_timer(s, c) == s,
{
    let k = key_index(s, c);
    assert(s[k].0 == c && s[k].1 == 0);
    assert(s.update(k, (c, 0u64)) =~= s);
    lemma_timer_at(s, k);
}

/// Resetting the timer of an arena cell makes it read zero.
proof fn lemma_reset_zero(s: Seq<(Coord, u64)>, c: Coord)
    requires
        timers_wf(s),
        c.in_grid(),
    ensures
        timer_of(reset_timer(s, c), c) == Some(0u64),
        timers_wf(reset_timer(s, c)),
{
    lemma_reset_wf(s, c);
    crate::map::update::lemma_reset_reads_zero(s, c);
}

/// Taking `c` out of the safe overlay when it is out already changes nothing.
proof fn lemma_unsafe_again(x: FieldModel, c: Coord)
    requires
        x.wf(),
        !x.safe(c),
    ensures
        x.with_safe(c, false) == x,
{
    if c.in_grid() {
        assert(x.safe.update(c.index(), false) =~= x.safe);
    }
}

/// Timers of the kind `p` (gold or powerup).
spec fn timers_of(x: FieldModel, p: Position) -> Seq<(Coord, u64)> {
    if p == Position::POWERUP { x.powerup } else { x.gold }
}

/// Reporting a resource underfoot: the drone's cell holds it, is out of
/// the safe overlay, and its timer reads zero; nothing else changes but
/// that timer list.
proof fn lemma_found_facts(x: FieldModel, c: Coord, p: Position, d: Coord)
    requires
        x.wf(),
        p == Position::GOLD || p == Position::POWERUP,
    ensures
        spec_found(x, c, p).wf(),
        !spec_found(x, c, p).safe(c),
        c.in_grid() ==> spec_found(x, c, p).cell(c) == p,
        c.in_grid() ==> timer_of(timers_of(spec_found(x, c, p), p), c) == Some(0u64),
        !c.in_grid() ==> timers_of(spec_found(x, c, p), p) == timers_of(x, p),
        p == Position::GOLD ==> spec_found(x, c, p).powerup == x.powerup,
        p == Position::POWERUP ==> spec_found(x, c, p).gold == x.gold,
        spec_found(x, c, p).unsafe_counts == x.unsafe_counts,
        spec_found(x, c, p).spawn == x.spawn,
        d != c ==> spec_found(x, c, p).cell(d) == x.cell(d) && spec_found(x, c, p).safe(d) == x.safe(d),
{
    let x0 = x.with_safe(c, false);
    lemma_set_wf(x0, c, p, false);
    let x1 = spec_set(x0, c, p, false);
    if d != c {
        if c.in_grid() && d.in_grid() {
            lemma_index_distinct(c, d);
        }
        lemma_set_frame(x0, c, p, d);
    }
    if c.in_grid() {
        lemma_reset_zero(x1.powerup, c);
        lemma_reset_zero(x1.gold, c);
    }
}

/// Reporting again a resource already recorded changes nothing.
proof fn lemma_found_again(x: FieldModel, c: Coord, p: Position)
    requires
        x.wf(),
        p == Position::GOLD || p == Position::POWERUP,
        !x.safe(c),
        c.in_grid() ==> x.cell(c) == p,
        c.in_grid() ==> timer_of(timers_of(x, p), c) == Some(0u64),
    ensures
        spec_found(x, c, p) == x,
{
    lemma_unsafe_again(x, c);
    if c.in_grid() {
        lemma_reset_again(timers_of(x, p), c);
    }
}

/// Reporting a powerup and then a treasure on a cell that holds gold, with
/// both timers at zero, changes nothing.
proof fn lemma_found_both_again(x: FieldModel, c: Coord)
    requires
        x.wf(),
        !x.safe(c),
        c.in_grid() ==> x.cell(c) == Position::GOLD,
        c.in_grid() ==> timer_of(x.powerup, c) == Some(0u64),
        c.in_grid() ==> timer_of(x.gold, c) == Some(0u64),
    ensures
        spec_found(spec_found(x, c, Position::POWERUP), c, Position::GOLD) == x,
{
    lemma_unsafe_again(x, c);
    if c.in_grid() {
        lemma_reset_again(x.powerup, c);
        lemma_reset_again(x.gold, c);
        let y = spec_found(x, c, Position::POWERUP);
        assert(y == x.with_cell(c, Position::POWERUP));
        lemma_unsafe_again(y, c);
        assert(x.cells.update(c.index(), Position::POWERUP).update(c.index(), Position::GOLD) =~= x.cells);
    }
}

/// Nothing at `c` is past its spawn time, as far as re-arming looks.
spec fn calm(x: FieldModel, t: u64, c: Coord) -> bool {
    match x.gold_timer(c) {
        Some(g) => g <= t,
        None => match x.powerup_timer(c) {
            Some(q) => q <= t,
            None => true,
        },
    }
}

/// Re-arming leaves the cell calm and only touches timers.
proof fn lemma_should_facts(x: FieldModel, t: u64, c: Coord)
    requires
        x.wf(),
    ensures
        calm(spec_should_something_be_here(x, t, c), t, c),
        spec_should_something_be_here(x, t, c).wf(),
        spec_should_something_be_here(x, t, c).cells == x.cells,
        spec_should_something_be_here(x, t, c).safe == x.safe,
        spec_should_something_be_here(x, t, c).spawn == x.spawn,
        calm(x, t, c) ==> spec_should_something_be_here(x, t, c) == x,
{
    match x.gold_timer(c) {
        Some(g) => {
            assert(has_key(x.gold, c));
            if !c.in_grid() {
                let k = choose|k: int| 0 <= k < x.gold.len() && (#[trigger] x.gold[k]).0 == c;
                assert(x.gold[k].0.in_grid());
            }
            lemma_reset_zero(x.gold, c);
        },
        None => {
            match x.powerup_timer(c) {
                Some(q) => {
                    assert(has_key(x.powerup, c));
                    if !c.in_grid() {
                        let k = choose|k: int| 0 <= k < x.powerup.len() && (#[trigger] x.powerup[k]).0 == c;
                        assert(x.powerup[k].0.in_grid());
                    }
                    lemma_reset_zero(x.powerup, c);
                },
                None => {},
            }
        },
    }
}

/// Writing around `c` leaves `c` itself, and the timers, alone.
proof fn lemma_around_frame(x: FieldModel, c: Coord, p: Position)
    requires
        x.wf(),
        c.has_room(),
        p == Position::SAFE || p == Position::DANGER,
    ensures
        spec_set_custom(x, c, SetType::AROUND, None, p).cell(c) == x.cell(c),
        spec_set_custom(x, c, SetType::AROUND, None, p).safe(c) == x.safe(c),
        spec_set_custom(x, c, SetType::AROUND, None, p).spawn == x.spawn,
{
    let a = around(c);
    let x1 = spec_set(x, a[0], p, false);
    let x2 = spec_set(x1, a[1], p, false);
    let x3 = spec_set(x2, a[2], p, false);
    lemma_set_frame(x, a[0], p, c);
    lemma_set_frame(x1, a[1], p, c);
    lemma_set_frame(x2, a[2], p, c);
    lemma_set_frame(x3, a[3], p, c);
}

/// The cell a blocked move reveals as a wall.
spec fn blocked_cell(coord: Coord, dir: PlayerDirection, prev_action: Action) -> Coord {
    if prev_action == Action::FRONT {
        coord.spec_next(dir)
    } else {
        coord.spec_next(dir.spec_opposite())
    }
}

/// What the first reconciliation leaves in the overlays and around the
/// drone's cell.
spec fn facts_around(
    x: FieldModel,
    spawn_timer: u64,
    prev_action: Action,
    coord: Coord,
    dir: PlayerDirection,
    obs: LastObservation,
) -> bool {
    let c = coord;
    let hazard = obs.is_flash || obs.is_breeze;
    &&& x.wf()
    &&& (obs.is_damage ==> forall|k: int| 0 <= k < damage_cells(c).len() && (#[trigger] damage_cells(c)[k]).in_grid()
        ==> x.unsafe_counts[damage_cells(c)[k].index()] == 1)
    &&& (hazard ==> forall|k: int| 0 <= k < 4 ==> x.cell(#[trigger] around(c)[k]) != Position::UNKNOWN)
}

/// What the first reconciliation leaves at the revealed wall and, with no
/// hazard sensed, around the drone's cell.
spec fn facts_settled(
    x: FieldModel,
    spawn_timer: u64,
    prev_action: Action,
    coord: Coord,
    dir: PlayerDirection,
    obs: LastObservation,
) -> bool {
    let c = coord;
    let hazard = obs.is_flash || obs.is_breeze;
    &&& (!hazard ==> forall|k: int| 0 <= k < 4 ==> settled(x, #[trigger] around(c)[k]))
    &&& (obs.is_blocked ==> x.cell(blocked_cell(c, dir, prev_action)) == Position::WALL)
}

/// What the first reconciliation leaves at the drone's own cell.
spec fn facts_own(
    x: FieldModel,
    spawn_timer: u64,
    prev_action: Action,
    coord: Coord,
    dir: PlayerDirection,
    obs: LastObservation,
) -> bool {
    let c = coord;
    &&& !x.safe(c)
    &&& (obs.is_treasure && c.in_grid() ==> x.cell(c) == Position::GOLD && timer_of(x.gold, c) == Some(0u64))
    &&& (obs.is_powerup && !obs.is_treasure && c.in_grid() ==> x.cell(c) == Position::POWERUP)
    &&& (obs.is_powerup && c.in_grid() ==> timer_of(x.powerup, c) == Some(0u64))
    &&& (!obs.is_treasure && !obs.is_powerup ==> {
        &&& calm(x, spawn_timer, c)
        &&& (c.in_grid() ==> x.cell(c) == Position::EMPTY || x.cell(c) == Position::GOLD || x.cell(c) == Position::POWERUP)
        &&& (x.cell(c) != Position::EMPTY ==> x.spawn is Some)
    })
}

/// What the first reconciliation leaves, enough for a second one to
/// change nothing.
spec fn pass_facts(
    x: FieldModel,
    spawn_timer: u64,
    prev_action: Action,
    coord: Coord,
    dir: PlayerDirection,
    obs: LastObservation,
) -> bool {
    &&& facts_around(x, spawn_timer, prev_action, coord, dir, obs)
    &&& facts_settled(x, spawn_timer, prev_action, coord, dir, obs)
    &&& facts_own(x, spawn_timer, prev_action, coord, dir, obs)
}

/// The first reconciliation establishes `facts_around`.
#[verifier::rlimit(100)]
proof fn lemma_first_pass_around(
    m: FieldModel,
    spawn_timer: u64,
    prev_action: Action,
    prev_coord: Option<Coord>,
    coord: Coord,
    dir: PlayerDirection,
    obs: LastObservation,
)
    requires
        m.wf(),
        coord.has_room(),
    ensures
        facts_around(spec_apply_observation(m, spawn_timer, prev_action, prev_coord, coord, dir, obs).0, spawn_timer,
            prev_action, coord, dir, obs),
{
    let c = coord;
    let a = around(c);
    let t = blocked_cell(c, dir, prev_action);
    let teleported = match prev_coord {
        Some(p) => p.spec_manhattan(coord) > 3,
        None => false,
    };
    if teleported {
        lemma_set_wf(m, prev_coord.unwrap(), Position::DANGER, true);
    }
    let m1 = if teleported { spec_set(m, prev_coord.unwrap(), Position::DANGER, true) } else { m };
    lemma_mark_unsafe_wf(m1, damage_cells(coord));
    let m2 = if obs.is_damage { mark_unsafe(m1, damage_cells(coord)) } else { m1 };
    let hazard = obs.is_flash || obs.is_breeze;
    lemma_around_keeps(m2, c, Position::DANGER, c);
    let m3 = if hazard { spec_set_custom(m2, coord, SetType::AROUND, None, Position::DANGER) } else { m2 };
    lemma_set_keeps(m3, t, Position::WALL, c);
    let m4 = if obs.is_blocked {
        if prev_action == Action::FRONT {
            spec_set_custom(m3, coord, SetType::FRONT, Some(dir), Position::WALL)
        } else {
            spec_set_custom(m3, coord, SetType::BACK, Some(dir), Position::WALL)
        }
    } else {
        m3
    };
    assert(obs.is_blocked ==> m4 == spec_set(m3, t, Position::WALL, false));
    lemma_found_facts(m4, c, Position::POWERUP, c);
    let m5 = if obs.is_powerup { spec_found(m4, coord, Position::POWERUP) } else { m4 };
    lemma_found_facts(m5, c, Position::GOLD, c);
    let m6 = if obs.is_treasure { spec_found(m5, coord, Position::GOLD) } else { m5 };
    lemma_around_keeps(m6, c, Position::SAFE, c);
    lemma_around_frame(m6, c, Position::SAFE);
    let m7 = if !hazard { spec_set_custom(m6, coord, SetType::AROUND, None, Position::SAFE) } else { m6 };
    let e0 = m7.with_safe(coord, false);
    lemma_set_keeps(e0, c, Position::EMPTY, c);
    let e1 = spec_set(e0, coord, Position::EMPTY, false);
    lemma_should_facts(e1, spawn_timer, coord);
    let m8 = if !obs.is_treasure && !obs.is_powerup {
        spec_should_something_be_here(e1, spawn_timer, coord)
    } else {
        m7
    };
    assert(m8 == spec_apply_observation(m, spawn_timer, prev_action, prev_coord, coord, dir, obs).0);
    if obs.is_damage {
        assert forall|k: int| 0 <= k < damage_cells(coord).len() && (#[trigger] damage_cells(coord)[k]).in_grid()
            implies m8.unsafe_counts[damage_cells(coord)[k].index()] == 1 by {
            lemma_mark_sets(m1, damage_cells(coord), k);
        }
    }
    if hazard {
        lemma_around_marks(m2, c, Position::DANGER);
        assert forall|k: int| 0 <= k < 4 implies m8.cell(#[trigger] around(c)[k]) != Position::UNKNOWN by {
            let d = a[k];
            assert(d != c);
            lemma_set_keeps(m3, t, Position::WALL, d);
            lemma_found_facts(m4, c, Position::POWERUP, d);
            lemma_found_facts(m5, c, Position::GOLD, d);
            lemma_set_keeps(e0, c, Position::EMPTY, d);
            if c.in_grid() && d.in_grid() {
                lemma_index_distinct(c, d);
            }
            assert(e0.cell(d) == m7.cell(d));
        }
    }
}

/// The first reconciliation establishes `facts_settled`.
#[verifier::rlimit(100)]
proof fn lemma_first_pass_settled(
    m: FieldModel,
    spawn_timer: u64,
    prev_action: Action,
    prev_coord: Option<Coord>,
    coord: Coord,
    dir: PlayerDirection,
    obs: LastObservation,
)
    requires
        m.wf(),
        coord.has_room(),
    ensures
        facts_settled(spec_apply_observation(m, spawn_timer, prev_action, prev_coord, coord, dir, obs).0, spawn_timer,
            prev_action, coord, dir, obs),
{
    let c = coord;
    let a = around(c);
    let t = blocked_cell(c, dir, prev_action);
    let teleported = match prev_coord {
        Some(p) => p.spec_manhattan(coord) > 3,
        None => false,
    };
    if teleported {
        lemma_set_wf(m, prev_coord.unwrap(), Position::DANGER, true);
    }
    let m1 = if teleported { spec_set(m, prev_coord.unwrap(), Position::DANGER, true) } else { m };
    lemma_mark_unsafe_wf(m1, damage_cells(coord));
    let m2 = if obs.is_damage { mark_unsafe(m1, damage_cells(coord)) } else { m1 };
    let hazard = obs.is_flash || obs.is_breeze;
    lemma_around_keeps(m2, c, Position::DANGER, c);
    let m3 = if hazard { spec_set_custom(m2, coord, SetType::AROUND, None, Position::DANGER) } else { m2 };
    lemma_set_keeps(m3, t, Position::WALL, c);
    let m4 = if obs.is_blocked {
        if prev_action == Action::FRONT {
            spec_set_custom(m3, coord, SetType::FRONT, Some(dir), Position::WALL)
        } else {
            spec_set_custom(m3, coord, SetType::BACK, Some(dir), Position::WALL)
        }
    } else {
        m3
    };
    assert(obs.is_blocked ==> m4 == spec_set(m3, t, Position::WALL, false));
    lemma_found_facts(m4, c, Position::POWERUP, c);
    let m5 = if obs.is_powerup { spec_found(m4, coord, Position::POWERUP) } else { m4 };
    lemma_found_facts(m5, c, Position::GOLD, c);
    let m6 = if obs.is_treasure { spec_found(m5, coord, Position::GOLD) } else { m5 };
    lemma_around_keeps(m6, c, Position::SAFE, c);
    lemma_around_frame(m6, c, Position::SAFE);
    let m7 = if !hazard { spec_set_custom(m6, coord, SetType::AROUND, None, Position::SAFE) } else { m6 };
    let e0 = m7.with_safe(coord, false);
    lemma_set_keeps(e0, c, Position::EMPTY, c);
    let e1 = spec_set(e0, coord, Position::EMPTY, false);
    lemma_should_facts(e1, spawn_timer, coord);
    let m8 = if !obs.is_treasure && !obs.is_powerup {
        spec_should_something_be_here(e1, spawn_timer, coord)
    } else {
        m7
    };
    assert(m8 == spec_apply_observation(m, spawn_timer, prev_action, prev_coord, coord, dir, obs).0);
    if obs.is_blocked {
        assert(t != c);
        lemma_set_keeps(m3, t, Position::WALL, t);
        lemma_found_facts(m4, c, Position::POWERUP, t);
        lemma_found_facts(m5, c, Position::GOLD, t);
        lemma_around_keeps(m6, c, Position::SAFE, t);
        lemma_set_keeps(e0, c, Position::EMPTY, t);
        assert(e0.cell(t) == m7.cell(t));
    }
    if !hazard {
        lemma_around_marks(m6, c, Position::SAFE);
        assert forall|k: int| 0 <= k < 4 implies settled(m8, #[trigger] around(c)[k]) by {
            let d = a[k];
            assert(d != c);
            lemma_set_keeps(e0, c, Position::EMPTY, d);
            if c.in_grid() && d.in_grid() {
                lemma_index_distinct(c, d);
            }
            assert(e0.cell(d) == m7.cell(d));
        }
    }
}

/// The first reconciliation establishes `facts_own`.
#[verifier::rlimit(100)]
proof fn lemma_first_pass_own(
    m: FieldModel,
    spawn_timer: u64,
    prev_action: Action,
    prev_coord: Option<Coord>,
    coord: Coord,
    dir: PlayerDirection,
    obs: LastObservation,
)
    requires
        m.wf(),
        coord.has_room(),
    ensures
        facts_own(spec_apply_observation(m, spawn_timer, prev_action, prev_coord, coord, dir, obs).0, spawn_timer,
            prev_action, coord, dir, obs),
{
    let c = coord;
    let a = around(c);
    let t = blocked_cell(c, dir, prev_action);
    let teleported = match prev_coord {
        Some(p) => p.spec_manhattan(coord) > 3,
        None => false,
    };
    if teleported {
        lemma_set_wf(m, prev_coord.unwrap(), Position::DANGER, true);
    }
    let m1 = if teleported { spec_set(m, prev_coord.unwrap(), Position::DANGER, true) } else { m };
    lemma_mark_unsafe_wf(m1, damage_cells(coord));
    let m2 = if obs.is_damage { mark_unsafe(m1, damage_cells(coord)) } else { m1 };
    let hazard = obs.is_flash || obs.is_breeze;
    lemma_around_keeps(m2, c, Position::DANGER, c);
    let m3 = if hazard { spec_set_custom(m2, coord, SetType::AROUND, None, Position::DANGER) } else { m2 };
    lemma_set_keeps(m3, t, Position::WALL, c);
    let m4 = if obs.is_blocked {
        if prev_action == Action::FRONT {
            spec_set_custom(m3, coord, SetType::FRONT, Some(dir), Position::WALL)
        } else {
            spec_set_custom(m3, coord, SetType::BACK, Some(dir), Position::WALL)
        }
    } else {
        m3
    };
    assert(obs.is_blocked ==> m4 == spec_set(m3, t, Position::WALL, false));
    lemma_found_facts(m4, c, Position::POWERUP, c);
    let m5 = if obs.is_powerup { spec_found(m4, coord, Position::POWERUP) } else { m4 };
    lemma_found_facts(m5, c, Position::GOLD, c);
    let m6 = if obs.is_treasure { spec_found(m5, coord, Position::GOLD) } else { m5 };
    lemma_around_keeps(m6, c, Position::SAFE, c);
    lemma_around_frame(m6, c, Position::SAFE);
    let m7 = if !hazard { spec_set_custom(m6, coord, SetType::AROUND, None, Position::SAFE) } else { m6 };
    let e0 = m7.with_safe(coord, false);
    lemma_set_keeps(e0, c, Position::EMPTY, c);
    let e1 = spec_set(e0, coord, Position::EMPTY, false);
    lemma_should_facts(e1, spawn_timer, coord);
    let m8 = if !obs.is_treasure && !obs.is_powerup {
        spec_should_something_be_here(e1, spawn_timer, coord)
    } else {
        m7
    };
    assert(m8 == spec_apply_observation(m, spawn_timer, prev_action, prev_coord, coord, dir, obs).0);
}

/// The first reconciliation establishes `pass_facts`.
proof fn lemma_first_pass(
    m: FieldModel,
    spawn_timer: u64,
    prev_action: Action,
    prev_coord: Option<Coord>,
    coord: Coord,
    dir: PlayerDirection,
    obs: LastObservation,
)
    requires
        m.wf(),
        coord.has_room(),
    ensures
        pass_facts(spec_apply_observation(m, spawn_timer, prev_action, prev_coord, coord, dir, obs).0, spawn_timer,
            prev_action, coord, dir, obs),
{
    lemma_first_pass_around(m, spawn_timer, prev_action, prev_coord, coord, dir, obs);
    lemma_first_pass_settled(m, spawn_timer, prev_action, prev_coord, coord, dir, obs);
    lemma_first_pass_own(m, spawn_timer, prev_action, prev_coord, coord, dir, obs);
}

/// A second reconciliation on a field with `pass_facts` changes nothing.
#[verifier::rlimit(100)]
proof fn lemma_second_pass(
    x: FieldModel,
    spawn_timer: u64,
    prev_action: Action,
    coord: Coord,
    dir: PlayerDirection,
    obs: LastObservation,
)
    requires
        coord.has_room(),
        pass_facts(x, spawn_timer, prev_action, coord, dir, obs),
    ensures
        spec_apply_observation(x, spawn_timer, prev_action, Some(coord), coord, dir, obs).0 == x,
{
    let c = coord;
    let t = blocked_cell(c, dir, prev_action);
    let hazard = obs.is_flash || obs.is_breeze;
    assert(c.spec_manhattan(c) == 0);
    if obs.is_damage {
        lemma_mark_again(x, damage_cells(coord));
    }
    if hazard {
        lemma_around_again(x, c, Position::DANGER);
    }
    if obs.is_blocked {
        assert(spec_set(x, t, Position::WALL, false) == x);
    }
    if obs.is_powerup && obs.is_treasure {
        lemma_found_both_again(x, c);
    } else if obs.is_powerup {
        lemma_found_again(x, c, Position::POWERUP);
    } else if obs.is_treasure {
        lemma_found_again(x, c, Position::GOLD);
    }
    if !hazard {
        assert forall|k: int| 0 <= k < 4 implies x.cell(#[trigger] around(c)[k]) != Position::UNKNOWN by {
            assert(settled(x, around(c)[k]));
        }
        lemma_around_again(x, c, Position::SAFE);
    }
    if !obs.is_treasure && !obs.is_powerup {
        lemma_unsafe_again(x, c);
        lemma_should_facts(x, spawn_timer, c);
    }
}

/// Reconciling the same observation a second time, from the cell the
/// drone now stands on, leaves the field as the first time left it.
pub proof fn lemma_apply_observation_idempotent(
    m: FieldModel,
    spawn_timer: u64,
    prev_action: Action,
    prev_coord: Option<Coord>,
    coord: Coord,
    dir: PlayerDirection,
    obs: LastObservation,
)
    requires
        m.wf(),
        coord.has_room(),
    ensures
        ({
            let once = spec_apply_observation(m, spawn_timer, prev_action, prev_coord, coord, dir, obs).0;
            spec_apply_observation(once, spawn_timer, prev_action, Some(coord), coord, dir, obs).0 == once
        }),
{
    lemma_first_pass(m, spawn_timer, prev_action, prev_coord, coord, dir, obs);
    let once = spec_apply_observation(m, spawn_timer, prev_action, prev_coord, coord, dir, obs).0;
    lemma_second_pass(once, spawn_timer, prev_action, coord, dir, obs);
}

} // verus!
