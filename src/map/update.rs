use vstd::prelude::*;

use crate::enums::{Action, PlayerDirection};
use crate::map::logic::{should_something_be_here, spec_should_something_be_here};
use crate::structs::LastObservation;
use crate::map::query::get;
use crate::map::{
    cell_index, has_key, lemma_index_injective, lemma_timer_at, timer_of, timers_wf, Coord,
    Field, FieldModel, Position, MAP_HEIGHT, MAP_WIDTH, N_CELLS,
};

verus! {

/// Position of the entry for `c` in a timer list that holds one.
pub open spec fn key_index(s: Seq<(Coord, u64)>, c: Coord) -> int {
    choose|i: int| 0 <= i < s.len() && (#[trigger] s[i]).0 == c
}

/// A timer list after the timer of `c` is set to zero, adding `c` at the
/// end if it is new; cells outside the arena are not kept.
pub open spec fn reset_timer(s: Seq<(Coord, u64)>, c: Coord) -> Seq<(Coord, u64)> {
    if !c.in_grid() {
        s
    } else if has_key(s, c) {
        s.update(key_index(s, c), (c, 0u64))
    } else {
        s.push((c, 0u64))
    }
}

/// Every timer of a list advanced by `dur`, saturating.
pub open spec fn aged(s: Seq<(Coord, u64)>, dur: u64) -> Seq<(Coord, u64)> {
    Seq::new(s.len(), |i: int| (s[i].0, if s[i].1 + dur > u64::MAX { u64::MAX } else { (s[i].1 + dur) as u64 }))
}

/// One tick of an unsafe count: counts up to 7 advance, larger ones drop out.
pub open spec fn tick_count(n: u8) -> u8 {
    if n == 0 {
        0
    } else if n <= 7 {
        (n + 1) as u8
    } else {
        0
    }
}

impl FieldModel {
    pub open spec fn with_cell(self, c: Coord, p: Position) -> FieldModel {
        if c.in_grid() {
            FieldModel { cells: self.cells.update(c.index(), p), ..self }
        } else {
            self
        }
    }

    pub open spec fn with_safe(self, c: Coord, b: bool) -> FieldModel {
        if c.in_grid() {
            FieldModel { safe: self.safe.update(c.index(), b), ..self }
        } else {
            self
        }
    }

    pub open spec fn with_unsafe(self, c: Coord) -> FieldModel {
        if c.in_grid() {
            FieldModel { unsafe_counts: self.unsafe_counts.update(c.index(), 1u8), ..self }
        } else {
            self
        }
    }

    pub open spec fn with_gold(self, c: Coord) -> FieldModel {
        FieldModel { gold: reset_timer(self.gold, c), ..self }
    }

    pub open spec fn with_powerup(self, c: Coord) -> FieldModel {
        FieldModel { powerup: reset_timer(self.powerup, c), ..self }
    }

    /// The field after one tick of `dur` ms.
    pub open spec fn ticked(self, dur: u64) -> FieldModel {
        FieldModel {
            gold: aged(self.gold, dur),
            powerup: aged(self.powerup, dur),
            unsafe_counts: Seq::new(self.unsafe_counts.len(), |i: int| tick_count(self.unsafe_counts[i])),
            ..self
        }
    }
}

/// The field after writing `p` at `c`.
///
/// A forced write always lands, a gold or powerup also gets its timer
/// reset, and anything but a safe mark leaves the safe overlay. Otherwise: nothing changes if the cell already holds `p`; an
/// empty cell becomes the spawn if none is known yet; a hazard only lands
/// on an unknown cell; a safe mark only on an unknown or hazard cell, and
/// joins the safe overlay; an empty mark never covers a gold or powerup;
/// anything else leaves the safe overlay and lands.
pub open spec fn spec_set(m: FieldModel, c: Coord, p: Position, force: bool) -> FieldModel {
    let cur = m.cell(c);
    if force {
        let m1 = if p == Position::POWERUP {
            m.with_powerup(c)
        } else if p == Position::GOLD {
            m.with_gold(c)
        } else {
            m
        };
        let m2 = if p == Position::SAFE { m1 } else { m1.with_safe(c, false) };
        m2.with_cell(c, p)
    } else if p == cur {
        m
    } else if p == Position::DANGER {
        if cur == Position::UNKNOWN {
            m.with_cell(c, p)
        } else {
            m
        }
    } else if p == Position::SAFE {
        if cur == Position::UNKNOWN || cur == Position::DANGER {
            m.with_cell(c, p).with_safe(c, true)
        } else {
            m
        }
    } else if p == Position::EMPTY {
        let m1 = if m.spawn.is_none() {
            FieldModel { spawn: Some(c), ..m }
        } else {
            m
        };
        if cur != Position::GOLD && cur != Position::POWERUP {
            m1.with_cell(c, p)
        } else {
            m1
        }
    } else {
        m.with_safe(c, false).with_cell(c, p)
    }
}

/// The four cells next to `c`, in the order they are written.
pub open spec fn around(c: Coord) -> Seq<Coord> {
    seq![
        Coord { x: (c.x + 1) as i16, y: c.y },
        Coord { x: (c.x - 1) as i16, y: c.y },
        Coord { x: c.x, y: (c.y + 1) as i16 },
        Coord { x: c.x, y: (c.y - 1) as i16 },
    ]
}

/// Which cells `set_custom` writes.
pub enum SetType {
    FRONT,
    AROUND,
    BACK,
}

/// The field after a non-forcing write of `p` at the cells of `set_type`.
pub open spec fn spec_set_custom(
    m: FieldModel,
    c: Coord,
    set_type: SetType,
    dir: Option<PlayerDirection>,
    p: Position,
) -> FieldModel {
    let d = match dir {
        Some(d) => d,
        None => PlayerDirection::NORTH,
    };
    match set_type {
        SetType::AROUND => {
            let a = around(c);
            spec_set(spec_set(spec_set(spec_set(m, a[0], p, false), a[1], p, false), a[2], p, false), a[3], p, false)
        },
        SetType::FRONT => spec_set(m, c.spec_next(d), p, false),
        SetType::BACK => spec_set(m, c.spec_next(d.spec_opposite()), p, false),
    }
}

/// Sets the timer of `c` to zero, adding `c` if it is new.
fn reset_timer_in(v: &mut Vec<(Coord, u64)>, c: Coord)
    requires
        timers_wf(old(v)@),
    ensures
        final(v)@ == reset_timer(old(v)@, c),
        timers_wf(final(v)@),
{
    if c.x < 0 || c.y < 0 || c.x >= MAP_WIDTH || c.y >= MAP_HEIGHT {
        return;
    }
    let mut i: usize = 0;
    while i < v.len()
        invariant
            v@ == old(v)@,
            timers_wf(v@),
            c.in_grid(),
            i <= v@.len(),
            forall|j: int| 0 <= j < i ==> (#[trigger] v@[j]).0 != c,
        decreases v@.len() - i,
    {
        if v[i].0 == c {
            proof {
                lemma_timer_at(v@, i as int);
                let k = key_index(v@, c);
                if k != i {
                    if k < i {
                        assert(v@[k].0 != v@[i as int].0);
                    } else {
                        assert(v@[i as int].0 != v@[k].0);
                    }
                }
            }
            v.set(i, (c, 0u64));
            proof {
                let s = v@;
                assert forall|a: int, b: int| 0 <= a < b < s.len() implies (#[trigger] s[a]).0 != (#[trigger] s[b]).0 by {
                    if a != i && b != i {
                        assert(old(v)@[a].0 != old(v)@[b].0);
                    } else if a == i {
                        assert(old(v)@[a].0 != old(v)@[b].0);
                    } else {
                        assert(old(v)@[a].0 != old(v)@[b].0);
                    }
                }
            }
            return;
        }
        i = i + 1;
    }
    assert(!has_key(v@, c));
    v.push((c, 0u64));
}

/// Resets the timer of a gold cell, adding it if new.
pub fn set_gold(f: &mut Field, c: Coord)
    requires
        old(f).wf(),
    ensures
        final(f)@ == old(f)@.with_gold(c),
        final(f).wf(),
        final(f).config == old(f).config,
        c.in_grid() ==> final(f)@.gold_timer(c) == Some(0u64),
{
    reset_timer_in(&mut f.gold_positions, c);
    proof {
        if c.in_grid() {
            lemma_reset_reads_zero(old(f)@.gold, c);
        }
    }
}

/// Resets the timer of a powerup cell, adding it if new.
pub fn set_powerup(f: &mut Field, c: Coord)
    requires
        old(f).wf(),
    ensures
        final(f)@ == old(f)@.with_powerup(c),
        final(f).wf(),
        final(f).config == old(f).config,
        c.in_grid() ==> final(f)@.powerup_timer(c) == Some(0u64),
{
    reset_timer_in(&mut f.powerup_positions, c);
    proof {
        if c.in_grid() {
            lemma_reset_reads_zero(old(f)@.powerup, c);
        }
    }
}

/// After a reset, the timer of an arena cell reads zero.
pub proof fn lemma_reset_reads_zero(s: Seq<(Coord, u64)>, c: Coord)
    requires
        timers_wf(s),
        c.in_grid(),
        timers_wf(reset_timer(s, c)),
    ensures
        timer_of(reset_timer(s, c), c) == Some(0u64),
{
    let t = reset_timer(s, c);
    if has_key(s, c) {
        let k = key_index(s, c);
        lemma_timer_at(t, k);
    } else {
        lemma_timer_at(t, s.len() as int);
    }
}

/// Adds `c` to the safe overlay.
pub fn set_safe(f: &mut Field, c: Coord)
    requires
        old(f).wf(),
    ensures
        final(f)@ == old(f)@.with_safe(c, true),
        final(f).wf(),
        final(f).config == old(f).config,
{
    if c.x < 0 || c.y < 0 || c.x >= MAP_WIDTH || c.y >= MAP_HEIGHT {
        return;
    }
    let i = cell_index(&c);
    f.safe_positions.set(i, true);
}

/// Puts `c` in the unsafe overlay with a count of 1.
pub fn set_unsafe(f: &mut Field, c: Coord)
    requires
        old(f).wf(),
    ensures
        final(f)@ == old(f)@.with_unsafe(c),
        final(f).wf(),
        final(f).config == old(f).config,
{
    if c.x < 0 || c.y < 0 || c.x >= MAP_WIDTH || c.y >= MAP_HEIGHT {
        return;
    }
    let i = cell_index(&c);
    f.unsafe_positions.set(i, 1u8);
}

/// Takes `c` out of the safe overlay.
pub fn remove_safe(f: &mut Field, c: &Coord)
    requires
        old(f).wf(),
    ensures
        final(f)@ == old(f)@.with_safe(*c, false),
        final(f).wf(),
        final(f).config == old(f).config,
{
    if c.x < 0 || c.y < 0 || c.x >= MAP_WIDTH || c.y >= MAP_HEIGHT {
        return;
    }
    let i = cell_index(c);
    f.safe_positions.set(i, false);
}

/// Writes the classification of one arena cell.
fn write_cell(f: &mut Field, c: Coord, p: Position)
    requires
        old(f).wf(),
    ensures
        final(f)@ == old(f)@.with_cell(c, p),
        final(f).wf(),
        final(f).config == old(f).config,
{
    if c.x < 0 || c.y < 0 || c.x >= MAP_WIDTH || c.y >= MAP_HEIGHT {
        return;
    }
    let i = cell_index(&c);
    f.map.set(i, p);
}

/// Writes `p` at `c`, forced or under the precedence rules of `spec_set`.
pub fn set(f: &mut Field, c: Coord, p: Position, force: bool)
    requires
        old(f).wf(),
    ensures
        final(f)@ == spec_set(old(f)@, c, p, force),
        final(f).wf(),
        final(f).config == old(f).config,
        force && c.in_grid() && p == Position::GOLD ==> final(f)@.gold_timer(c) == Some(0u64),
        force && c.in_grid() && p == Position::POWERUP ==> final(f)@.powerup_timer(c) == Some(0u64),
        old(f)@.safe_consistent() ==> final(f)@.safe_consistent(),
{
    let current_position = get(f, &c);

    if force {
        proof { lemma_force_keeps(old(f)@, c, p); }
        match p {
            Position::POWERUP => set_powerup(f, c),
            Position::GOLD => set_gold(f, c),
            _ => {},
        }
        if p != Position::SAFE {
            remove_safe(f, &c);
        }
        write_cell(f, c, p);
        return;
    }
    if p == current_position {
        return;
    }
    match p {
        Position::DANGER => {
            if current_position == Position::UNKNOWN {
                write_cell(f, c, p);
            }
            proof { lemma_set_keeps_safe_consistent(old(f)@, c, p); }
            return;
        },
        Position::SAFE => {
            if current_position == Position::UNKNOWN || current_position == Position::DANGER {
                write_cell(f, c, p);
                set_safe(f, c);
            }
            proof { lemma_set_keeps_safe_consistent(old(f)@, c, p); }
            return;
        },
        Position::EMPTY => {
            if f.spawn.is_none() {
                f.spawn = Some(c);
            }
            if current_position != Position::GOLD && current_position != Position::POWERUP {
                write_cell(f, c, p);
            }
            proof { lemma_set_keeps_safe_consistent(old(f)@, c, p); }
            return;
        },
        _ => {},
    }
    remove_safe(f, &c);
    write_cell(f, c, p);
    proof { lemma_set_keeps_safe_consistent(old(f)@, c, p); }
}

/// A non-forcing write keeps the safe overlay free of walls, hazards and
/// resources.
pub proof fn lemma_set_keeps_safe_consistent(m: FieldModel, c: Coord, p: Position)
    requires
        m.wf(),
    ensures
        m.safe_consistent() ==> spec_set(m, c, p, false).safe_consistent(),
{
    let r = spec_set(m, c, p, false);
    if m.safe_consistent() {
        assert forall|d: Coord| #[trigger] r.safe(d) implies r.cell(d) == Position::SAFE || r.cell(d)
            == Position::EMPTY by {
            if d != c {
                if c.in_grid() && d.in_grid() {
                    lemma_index_distinct(d, c);
                }
                assert(r.safe(d) == m.safe(d));
                assert(r.cell(d) == m.cell(d));
                assert(m.safe(d));
            } else {
                assert(c.in_grid());
                if !m.safe(d) {
                    assert(p == Position::SAFE);
                }
            }
        }
    }
}

/// Two different arena cells have different indices.
pub proof fn lemma_index_distinct(a: Coord, b: Coord)
    requires
        a.in_grid(),
        b.in_grid(),
        a != b,
    ensures
        a.index() != b.index(),
{
    if a.index() == b.index() {
        lemma_index_injective(a, b);
    }
}

/// Writes `p`, without forcing, at the four cells next to `c`
/// (`AROUND`), or at the cell in front of or behind `c` along `dir`,
/// north when no direction is given.
pub fn set_custom(f: &mut Field, c: &Coord, set_type: SetType, dir: Option<PlayerDirection>, p: Position)
    requires
        old(f).wf(),
        c.can_step(),
    ensures
        final(f)@ == spec_set_custom(old(f)@, *c, set_type, dir, p),
        final(f).wf(),
        final(f).config == old(f).config,
        old(f)@.safe_consistent() ==> final(f)@.safe_consistent(),
{
    let d = match dir {
        Some(d) => d,
        None => PlayerDirection::NORTH,
    };
    match set_type {
        SetType::AROUND => {
            set(f, Coord { x: c.x + 1, y: c.y }, p, false);
            set(f, Coord { x: c.x - 1, y: c.y }, p, false);
            set(f, Coord { x: c.x, y: c.y + 1 }, p, false);
            set(f, Coord { x: c.x, y: c.y - 1 }, p, false);
        },
        SetType::FRONT => {
            set(f, c.next(&d), p, false);
        },
        SetType::BACK => {
            set(f, c.next(&d.opposite()), p, false);
        },
    }
}

/// Advances every gold and powerup timer by `dur` ms, and every unsafe
/// count by one tick: a count up to 7 grows by one, a larger one leaves
/// the overlay. The map itself does not change.
pub fn do_tick(f: &mut Field, dur: u64)
    requires
        old(f).wf(),
    ensures
        final(f)@ == old(f)@.ticked(dur),
        final(f).wf(),
        final(f).config == old(f).config,
        old(f)@.safe_consistent() ==> final(f)@.safe_consistent(),
{
    age_all(&mut f.gold_positions, dur);
    age_all(&mut f.powerup_positions, dur);
    let mut i: usize = 0;
    while i < N_CELLS
        invariant
            f.unsafe_positions@.len() == N_CELLS,
            i <= N_CELLS,
            forall|j: int| 0 <= j < i ==> f.unsafe_positions@[j] == tick_count(old(f).unsafe_positions@[j]),
            forall|j: int| i <= j < N_CELLS ==> f.unsafe_positions@[j] == old(f).unsafe_positions@[j],
            f.map == old(f).map,
            f.safe_positions == old(f).safe_positions,
            f.spawn == old(f).spawn,
            f.config == old(f).config,
            f.buffer_midpoint_size == old(f).buffer_midpoint_size,
            f.buffer_midpoint_coord == old(f).buffer_midpoint_coord,
            f.gold_positions@ == aged(old(f).gold_positions@, dur),
            f.powerup_positions@ == aged(old(f).powerup_positions@, dur),
        decreases N_CELLS - i,
    {
        let n = f.unsafe_positions[i];
        let t: u8 = if n == 0 {
            0
        } else if n <= 7 {
            n + 1
        } else {
            0
        };
        f.unsafe_positions.set(i, t);
        i = i + 1;
    }
    assert(f.unsafe_positions@ =~= Seq::new(N_CELLS as nat, |j: int| tick_count(old(f).unsafe_positions@[j])));
    assert(final(f)@ =~= old(f)@.ticked(dur));
    proof {
        if old(f)@.safe_consistent() {
            assert forall|d: Coord| #[trigger] final(f)@.safe(d) implies final(f)@.cell(d) == Position::SAFE
                || final(f)@.cell(d) == Position::EMPTY by {
                assert(old(f)@.safe(d));
            }
        }
        let s = f.gold_positions@;
        assert forall|a: int, b: int| 0 <= a < b < s.len() implies (#[trigger] s[a]).0 != (#[trigger] s[b]).0 by {
            assert(old(f).gold_positions@[a].0 != old(f).gold_positions@[b].0);
        }
        let s = f.powerup_positions@;
        assert forall|a: int, b: int| 0 <= a < b < s.len() implies (#[trigger] s[a]).0 != (#[trigger] s[b]).0 by {
            assert(old(f).powerup_positions@[a].0 != old(f).powerup_positions@[b].0);
        }
    }
}

/// Advances every timer of a list by `dur`, saturating.
fn age_all(v: &mut Vec<(Coord, u64)>, dur: u64)
    ensures
        final(v)@ == aged(old(v)@, dur),
{
    let mut i: usize = 0;
    while i < v.len()
        invariant
            v@.len() == old(v)@.len(),
            i <= v@.len(),
            forall|j: int| 0 <= j < i ==> v@[j] == aged(old(v)@, dur)[j],
            forall|j: int| i <= j < v@.len() ==> v@[j] == old(v)@[j],
        decreases v@.len() - i,
    {
        let (c, t) = v[i];
        v.set(i, (c, t.saturating_add(dur)));
        i = i + 1;
    }
    assert(v@ =~= aged(old(v)@, dur));
}

/// The nine cells marked unsafe after damage: the drone's cell and the
/// cells one and two away along both axes.
pub open spec fn damage_cells(c: Coord) -> Seq<Coord> {
    let x = c.x as int;
    let y = c.y as int;
    seq![
        c,
        Coord { x: (x - 1) as i16, y: c.y },
        Coord { x: (x - 2) as i16, y: c.y },
        Coord { x: (x + 1) as i16, y: c.y },
        Coord { x: (x + 2) as i16, y: c.y },
        Coord { x: c.x, y: (y - 1) as i16 },
        Coord { x: c.x, y: (y - 2) as i16 },
        Coord { x: c.x, y: (y + 1) as i16 },
        Coord { x: c.x, y: (y + 2) as i16 },
    ]
}

/// The field with every cell of `cs` put in the unsafe overlay at count 1.
pub open spec fn mark_unsafe(m: FieldModel, cs: Seq<Coord>) -> FieldModel
    decreases cs.len(),
{
    if cs.len() == 0 {
        m
    } else {
        mark_unsafe(m, cs.drop_last()).with_unsafe(cs.last())
    }
}

/// The field after the drone reports standing on a resource of kind `p`
/// (gold or powerup) at `c`.
pub open spec fn spec_found(m: FieldModel, c: Coord, p: Position) -> FieldModel {
    let m1 = spec_set(m.with_safe(c, false), c, p, false);
    if p == Position::POWERUP { m1.with_powerup(c) } else { m1.with_gold(c) }
}

/// The field, and whether the map changed, after reconciling observation
/// `obs` made at `coord` facing `dir`, the previous action having been
/// `prev_action` at `prev_coord`. The rules apply in this order:
/// 1. a jump of more than 3 cells from `prev_coord` (a teleport) marks
///    that cell as a hazard, forced;
/// 2. damage puts `damage_cells(coord)` in the unsafe overlay;
/// 3. a flash or breeze marks the four cells around as hazards;
/// 4. a blocked move marks the cell in front as a wall after a step
///    forward, else the cell behind;
/// 5. a powerup underfoot leaves the safe overlay, is written and gets its
///    timer reset;
/// 6. the same for a treasure, as gold;
/// 7. with no flash and no breeze the four cells around are marked safe;
/// 8. with no resource underfoot the cell leaves the safe overlay, is
///    written empty, and a resource kept there that is past its spawn time
///    is re-armed.
/// The map changed under rules 1, 3 and 4.
pub open spec fn spec_apply_observation(
    m: FieldModel,
    spawn_timer: u64,
    prev_action: Action,
    prev_coord: Option<Coord>,
    coord: Coord,
    dir: PlayerDirection,
    obs: LastObservation,
) -> (FieldModel, bool) {
    let teleported = match prev_coord {
        Some(p) => p.spec_manhattan(coord) > 3,
        None => false,
    };
    let m1 = if teleported { spec_set(m, prev_coord.unwrap(), Position::DANGER, true) } else { m };
    let m2 = if obs.is_damage { mark_unsafe(m1, damage_cells(coord)) } else { m1 };
    let hazard = obs.is_flash || obs.is_breeze;
    let m3 = if hazard { spec_set_custom(m2, coord, SetType::AROUND, None, Position::DANGER) } else { m2 };
    let m4 = if obs.is_blocked {
        if prev_action == Action::FRONT {
            spec_set_custom(m3, coord, SetType::FRONT, Some(dir), Position::WALL)
        } else {
            spec_set_custom(m3, coord, SetType::BACK, Some(dir), Position::WALL)
        }
    } else {
        m3
    };
    let m5 = if obs.is_powerup { spec_found(m4, coord, Position::POWERUP) } else { m4 };
    let m6 = if obs.is_treasure { spec_found(m5, coord, Position::GOLD) } else { m5 };
    let m7 = if !hazard { spec_set_custom(m6, coord, SetType::AROUND, None, Position::SAFE) } else { m6 };
    let m8 = if !obs.is_treasure && !obs.is_powerup {
        spec_should_something_be_here(spec_set(m7.with_safe(coord, false), coord, Position::EMPTY, false), spawn_timer, coord)
    } else {
        m7
    };
    (m8, teleported || hazard || obs.is_blocked)
}

/// Exact Manhattan distance between two coordinates.
fn distance(a: &Coord, b: &Coord) -> (r: u32)
    ensures
        r == a.spec_manhattan(*b),
{
    let dx: i32 = if a.x >= b.x { a.x as i32 - b.x as i32 } else { b.x as i32 - a.x as i32 };
    let dy: i32 = if a.y >= b.y { a.y as i32 - b.y as i32 } else { b.y as i32 - a.y as i32 };
    (dx + dy) as u32
}

/// Applies observation `obs`, made at `coord` facing `dir`, to the field;
/// returns whether the map changed (see `spec_apply_observation`).
pub fn apply_observation(
    f: &mut Field,
    prev_action: Action,
    prev_coord: Option<Coord>,
    coord: Coord,
    dir: PlayerDirection,
    obs: &LastObservation,
) -> (r: bool)
    requires
        old(f).wf(),
        coord.has_room(),
    ensures
        (final(f)@, r) == spec_apply_observation(old(f)@, old(f).config.spawn_timer, prev_action, prev_coord, coord, dir, *obs),
        final(f).wf(),
        final(f).config == old(f).config,
        old(f)@.safe_consistent() ==> final(f)@.safe_consistent() && !final(f)@.safe(coord),
{
    let ghost good = old(f)@.safe_consistent();
    let mut map_changed = false;
    let teleported = match prev_coord {
        Some(p) => distance(&p, &coord) > 3,
        None => false,
    };
    if teleported {
        set(f, prev_coord.unwrap(), Position::DANGER, true);
        map_changed = true;
    }
    if obs.is_damage {
        let cells: [Coord; 9] = [
            coord,
            Coord { x: coord.x - 1, y: coord.y },
            Coord { x: coord.x - 2, y: coord.y },
            Coord { x: coord.x + 1, y: coord.y },
            Coord { x: coord.x + 2, y: coord.y },
            Coord { x: coord.x, y: coord.y - 1 },
            Coord { x: coord.x, y: coord.y - 2 },
            Coord { x: coord.x, y: coord.y + 1 },
            Coord { x: coord.x, y: coord.y + 2 },
        ];
        assert(cells@ =~= damage_cells(coord));
        let ghost m1 = f@;
        let mut i: usize = 0;
        while i < 9
            invariant
                f.wf(),
                f.config == old(f).config,
                i <= 9,
                cells@ == damage_cells(coord),
                f@ == mark_unsafe(m1, cells@.subrange(0, i as int)),
            decreases 9 - i,
        {
            assert(cells@.subrange(0, i + 1).drop_last() =~= cells@.subrange(0, i as int));
            set_unsafe(f, cells[i]);
            i = i + 1;
        }
        assert(cells@.subrange(0, 9) =~= cells@);
    }
    let hazard = obs.is_flash || obs.is_breeze;
    if hazard {
        set_custom(f, &coord, SetType::AROUND, None, Position::DANGER);
        map_changed = true;
    }
    if obs.is_blocked {
        if prev_action == Action::FRONT {
            set_custom(f, &coord, SetType::FRONT, Some(dir), Position::WALL);
        } else {
            set_custom(f, &coord, SetType::BACK, Some(dir), Position::WALL);
        }
        map_changed = true;
    }
    if obs.is_powerup {
        remove_safe(f, &coord);
        set(f, coord, Position::POWERUP, false);
        set_powerup(f, coord);
    }
    if obs.is_treasure {
        remove_safe(f, &coord);
        set(f, coord, Position::GOLD, false);
        set_gold(f, coord);
    }
    if !hazard {
        set_custom(f, &coord, SetType::AROUND, None, Position::SAFE);
    }
    if !obs.is_treasure && !obs.is_powerup {
        remove_safe(f, &coord);
        set(f, coord, Position::EMPTY, false);
        should_something_be_here(f, &coord);
    }
    proof {
        if good {
            lemma_apply_keeps_safe(old(f)@, old(f).config.spawn_timer, prev_action, prev_coord, coord, dir, *obs);
        }
    }
    map_changed
}

/// Two fields with the same map and safe overlay agree on the overlay.
pub proof fn lemma_same_overlay(a: FieldModel, b: FieldModel)
    requires
        a.cells == b.cells,
        a.safe == b.safe,
    ensures
        a.safe_consistent() == b.safe_consistent(),
        forall|c: Coord| a.safe(c) == b.safe(c),
{
    assert forall|c: Coord| a.safe(c) == b.safe(c) && a.cell(c) == b.cell(c) by {}
    if a.safe_consistent() {
        assert forall|c: Coord| #[trigger] b.safe(c) implies b.cell(c) == Position::SAFE || b.cell(c) == Position::EMPTY by {
            assert(a.safe(c));
        }
    }
    if b.safe_consistent() {
        assert forall|c: Coord| #[trigger] a.safe(c) implies a.cell(c) == Position::SAFE || a.cell(c) == Position::EMPTY by {
            assert(b.safe(c));
        }
    }
}

/// Marking cells unsafe leaves the map and the safe overlay alone.
pub proof fn lemma_mark_unsafe_keeps(m: FieldModel, cs: Seq<Coord>)
    ensures
        mark_unsafe(m, cs).cells == m.cells,
        mark_unsafe(m, cs).safe == m.safe,
    decreases cs.len(),
{
    if cs.len() > 0 {
        lemma_mark_unsafe_keeps(m, cs.drop_last());
    }
}

/// A forced write keeps the overlay free of walls, hazards and resources:
/// anything but a safe mark takes the cell out of the overlay.
pub proof fn lemma_force_keeps(m: FieldModel, c: Coord, p: Position)
    requires
        m.wf(),
    ensures
        m.safe_consistent() ==> spec_set(m, c, p, true).safe_consistent(),
{
    let r = spec_set(m, c, p, true);
    if m.safe_consistent() {
        assert forall|d: Coord| #[trigger] r.safe(d) implies r.cell(d) == Position::SAFE || r.cell(d) == Position::EMPTY by {
            if d != c {
                if c.in_grid() && d.in_grid() {
                    lemma_index_distinct(d, c);
                }
                assert(r.safe(d) == m.safe(d));
                assert(m.safe(d));
            }
        }
    }
}

/// Taking a cell out of the safe overlay keeps the overlay consistent.
pub proof fn lemma_remove_safe_keeps(m: FieldModel, r: FieldModel, c: Coord)
    requires
        m.wf(),
        r == m.with_safe(c, false),
    ensures
        m.safe_consistent() ==> r.safe_consistent(),
        !r.safe(c),
{
    if m.safe_consistent() {
        assert forall|d: Coord| #[trigger] r.safe(d) implies r.cell(d) == Position::SAFE || r.cell(d) == Position::EMPTY by {
            if d != c && c.in_grid() && d.in_grid() {
                lemma_index_distinct(d, c);
            }
            assert(m.safe(d));
        }
    }
}

/// A non-forcing write at `c2` leaves the overlay flag of another cell `c`.
pub proof fn lemma_set_other(m: FieldModel, c2: Coord, c: Coord, p: Position)
    requires
        m.wf(),
        c2 != c,
    ensures
        spec_set(m, c2, p, false).safe(c) == m.safe(c),
        spec_set(m, c2, p, false).wf(),
{
    if c.in_grid() && c2.in_grid() {
        lemma_index_distinct(c, c2);
    }
    lemma_set_wf(m, c2, p, false);
}

/// A write keeps the field's shape.
pub proof fn lemma_set_wf(m: FieldModel, c: Coord, p: Position, force: bool)
    requires
        m.wf(),
    ensures
        spec_set(m, c, p, force).wf(),
{
    if c.in_grid() {
        lemma_reset_wf(m.gold, c);
        lemma_reset_wf(m.powerup, c);
    }
}

/// A reset keeps a timer list well formed.
pub proof fn lemma_reset_wf(s: Seq<(Coord, u64)>, c: Coord)
    requires
        timers_wf(s),
        c.in_grid(),
    ensures
        timers_wf(reset_timer(s, c)),
{
    let t = reset_timer(s, c);
    if has_key(s, c) {
        let k = key_index(s, c);
        assert forall|a: int, b: int| 0 <= a < b < t.len() implies (#[trigger] t[a]).0 != (#[trigger] t[b]).0 by {
            if a == k {
                assert(s[b].0 != s[k].0);
            } else if b == k {
                assert(s[a].0 != s[k].0);
            } else {
                assert(s[a].0 != s[b].0);
            }
        }
    } else {
        assert forall|a: int, b: int| 0 <= a < b < t.len() implies (#[trigger] t[a]).0 != (#[trigger] t[b]).0 by {
            if b == s.len() {
                assert(s[a].0 != c);
            } else {
                assert(s[a].0 != s[b].0);
            }
        }
    }
}

/// Writing the four cells around `c` leaves the overlay flag of `c` alone.
pub proof fn lemma_around_keeps_own(m: FieldModel, c: Coord)
    requires
        m.wf(),
        c.can_step(),
    ensures
        spec_set_custom(m, c, SetType::AROUND, None, Position::SAFE).safe(c) == m.safe(c),
{
    let a = around(c);
    let p = Position::SAFE;
    lemma_set_other(m, a[0], c, p);
    let m1 = spec_set(m, a[0], p, false);
    lemma_set_other(m1, a[1], c, p);
    let m2 = spec_set(m1, a[1], p, false);
    lemma_set_other(m2, a[2], c, p);
    let m3 = spec_set(m2, a[2], p, false);
    lemma_set_other(m3, a[3], c, p);
}

/// Marking cells unsafe keeps the field's shape.
pub proof fn lemma_mark_unsafe_wf(m: FieldModel, cs: Seq<Coord>)
    requires
        m.wf(),
    ensures
        mark_unsafe(m, cs).wf(),
    decreases cs.len(),
{
    if cs.len() > 0 {
        lemma_mark_unsafe_wf(m, cs.drop_last());
    }
}

/// A write at the cells of `set_type` keeps the field's shape and the
/// consistency of the safe overlay.
pub proof fn lemma_set_custom_keeps(m: FieldModel, c: Coord, t: SetType, dir: Option<PlayerDirection>, p: Position)
    requires
        m.wf(),
    ensures
        spec_set_custom(m, c, t, dir, p).wf(),
        m.safe_consistent() ==> spec_set_custom(m, c, t, dir, p).safe_consistent(),
{
    let d = match dir {
        Some(d) => d,
        None => PlayerDirection::NORTH,
    };
    match t {
        SetType::AROUND => {
            let a = around(c);
            lemma_set_wf(m, a[0], p, false);
            lemma_set_keeps_safe_consistent(m, a[0], p);
            let m1 = spec_set(m, a[0], p, false);
            lemma_set_wf(m1, a[1], p, false);
            lemma_set_keeps_safe_consistent(m1, a[1], p);
            let m2 = spec_set(m1, a[1], p, false);
            lemma_set_wf(m2, a[2], p, false);
            lemma_set_keeps_safe_consistent(m2, a[2], p);
            let m3 = spec_set(m2, a[2], p, false);
            lemma_set_wf(m3, a[3], p, false);
            lemma_set_keeps_safe_consistent(m3, a[3], p);
        },
        SetType::FRONT => {
            lemma_set_wf(m, c.spec_next(d), p, false);
            lemma_set_keeps_safe_consistent(m, c.spec_next(d), p);
        },
        SetType::BACK => {
            lemma_set_wf(m, c.spec_next(d.spec_opposite()), p, false);
            lemma_set_keeps_safe_consistent(m, c.spec_next(d.spec_opposite()), p);
        },
    }
}

/// Reporting a resource underfoot keeps the overlay consistent and takes
/// the drone's cell out of it.
pub proof fn lemma_found_keeps(m: FieldModel, c: Coord, p: Position)
    requires
        m.wf(),
        p == Position::GOLD || p == Position::POWERUP,
    ensures
        spec_found(m, c, p).wf(),
        m.safe_consistent() ==> spec_found(m, c, p).safe_consistent(),
        !spec_found(m, c, p).safe(c),
{
    let m0 = m.with_safe(c, false);
    lemma_remove_safe_keeps(m, m0, c);
    lemma_set_wf(m0, c, p, false);
    lemma_set_keeps_safe_consistent(m0, c, p);
    let m1 = spec_set(m0, c, p, false);
    assert(!m1.safe(c));
    let m2 = spec_found(m, c, p);
    if c.in_grid() {
        lemma_reset_wf(m1.gold, c);
        lemma_reset_wf(m1.powerup, c);
    }
    lemma_same_overlay(m1, m2);
}

/// Reconciling an observation keeps the safe overlay consistent and
/// leaves the drone's cell out of it.
pub proof fn lemma_apply_keeps_safe(
    m: FieldModel,
    spawn_timer: u64,
    prev_action: Action,
    prev_coord: Option<Coord>,
    coord: Coord,
    dir: PlayerDirection,
    obs: LastObservation,
)
    requires
        m.wf(),
        coord.has_room(),
        m.safe_consistent(),
    ensures
        spec_apply_observation(m, spawn_timer, prev_action, prev_coord, coord, dir, obs).0.safe_consistent(),
        !spec_apply_observation(m, spawn_timer, prev_action, prev_coord, coord, dir, obs).0.safe(coord),
{
    let teleported = match prev_coord {
        Some(p) => p.spec_manhattan(coord) > 3,
        None => false,
    };
    if teleported {
        lemma_force_keeps(m, prev_coord.unwrap(), Position::DANGER);
        lemma_set_wf(m, prev_coord.unwrap(), Position::DANGER, true);
    }
    let m1 = if teleported { spec_set(m, prev_coord.unwrap(), Position::DANGER, true) } else { m };
    lemma_mark_unsafe_keeps(m1, damage_cells(coord));
    lemma_mark_unsafe_wf(m1, damage_cells(coord));
    let m2 = if obs.is_damage { mark_unsafe(m1, damage_cells(coord)) } else { m1 };
    lemma_same_overlay(m1, m2);
    let hazard = obs.is_flash || obs.is_breeze;
    lemma_set_custom_keeps(m2, coord, SetType::AROUND, None, Position::DANGER);
    let m3 = if hazard { spec_set_custom(m2, coord, SetType::AROUND, None, Position::DANGER) } else { m2 };
    lemma_set_custom_keeps(m3, coord, SetType::FRONT, Some(dir), Position::WALL);
    lemma_set_custom_keeps(m3, coord, SetType::BACK, Some(dir), Position::WALL);
    let m4 = if obs.is_blocked {
        if prev_action == Action::FRONT {
            spec_set_custom(m3, coord, SetType::FRONT, Some(dir), Position::WALL)
        } else {
            spec_set_custom(m3, coord, SetType::BACK, Some(dir), Position::WALL)
        }
    } else {
        m3
    };
    lemma_found_keeps(m4, coord, Position::POWERUP);
    let m5 = if obs.is_powerup { spec_found(m4, coord, Position::POWERUP) } else { m4 };
    lemma_found_keeps(m5, coord, Position::GOLD);
    let m6 = if obs.is_treasure { spec_found(m5, coord, Position::GOLD) } else { m5 };
    lemma_set_custom_keeps(m6, coord, SetType::AROUND, None, Position::SAFE);
    lemma_around_keeps_own(m6, coord);
    let m7 = if !hazard { spec_set_custom(m6, coord, SetType::AROUND, None, Position::SAFE) } else { m6 };
    if !obs.is_treasure && !obs.is_powerup {
        let a = m7.with_safe(coord, false);
        lemma_remove_safe_keeps(m7, a, coord);
        lemma_set_wf(a, coord, Position::EMPTY, false);
        lemma_set_keeps_safe_consistent(a, coord, Position::EMPTY);
        let b = spec_set(a, coord, Position::EMPTY, false);
        assert(b.safe == a.safe);
        let c = spec_should_something_be_here(b, spawn_timer, coord);
        lemma_same_overlay(b, c);
    }
}

} // verus!
