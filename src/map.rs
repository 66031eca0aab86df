pub mod logic;
pub mod node;
pub mod path;
pub mod query;
pub mod settle;
pub mod update;

use vstd::prelude::*;

use crate::config::Config;
use crate::enums::PlayerDirection;

verus! {

/// Width of the arena, in cells.
pub const MAP_WIDTH: i16 = 59;

/// Height of the arena, in cells.
pub const MAP_HEIGHT: i16 = 34;

/// Number of cells of the arena.
pub const N_CELLS: usize = 2006;

/// A cell of the arena, or a point beyond it.
#[derive(Debug, Clone, Copy, Hash, PartialEq, Eq, Structural, PartialOrd, Ord)]
pub struct Coord {
    pub x: i16,
    pub y: i16,
}

/// The classification of one cell.
#[derive(Debug, Clone, Copy, PartialEq, Eq, Structural)]
pub enum Position {
    SAFE,
    EMPTY,
    DANGER,
    UNKNOWN,
    WALL,
    GOLD,
    POWERUP,
}

impl Position {
    pub open spec fn spec_name(self) -> Seq<char> {
        match self {
            Position::SAFE => "SAFE"@,
            Position::EMPTY => "EMPTY"@,
            Position::DANGER => "DANGER"@,
            Position::UNKNOWN => "UNKNOWN"@,
            Position::WALL => "WALL"@,
            Position::GOLD => "GOLD"@,
            Position::POWERUP => "POWERUP"@,
        }
    }

    /// The upper-case name of the classification.
    pub fn to_string(&self) -> (r: String)
        ensures
            r@ == self.spec_name(),
    {
        match self {
            Position::SAFE => String::from_str("SAFE"),
            Position::EMPTY => String::from_str("EMPTY"),
            Position::DANGER => String::from_str("DANGER"),
            Position::UNKNOWN => String::from_str("UNKNOWN"),
            Position::WALL => String::from_str("WALL"),
            Position::GOLD => String::from_str("GOLD"),
            Position::POWERUP => String::from_str("POWERUP"),
        }
    }

    /// A cell the planner may enter.
    pub open spec fn passable(self) -> bool {
        !(self == Position::WALL || self == Position::DANGER || self == Position::UNKNOWN)
    }
}

impl Coord {
    /// The coordinate lies inside the arena.
    pub open spec fn in_grid(self) -> bool {
        0 <= self.x < MAP_WIDTH && 0 <= self.y < MAP_HEIGHT
    }

    /// Row-major index of an arena cell.
    pub open spec fn index(self) -> int {
        self.y * 59 + self.x
    }

    /// One step in any direction stays representable.
    pub open spec fn can_step(self) -> bool {
        i16::MIN < self.x < i16::MAX && i16::MIN < self.y < i16::MAX
    }

    /// The cell one step away in `dir`.
    pub open spec fn spec_next(self, dir: PlayerDirection) -> Coord {
        Coord { x: (self.x + dx(dir)) as i16, y: (self.y + dy(dir)) as i16 }
    }

    /// Adds `c` to this coordinate, component by component.
    pub fn add(&mut self, c: &Coord)
        requires
            i16::MIN <= old(self).x + c.x <= i16::MAX,
            i16::MIN <= old(self).y + c.y <= i16::MAX,
        ensures
            final(self).x == old(self).x + c.x,
            final(self).y == old(self).y + c.y,
    {
        self.x = self.x + c.x;
        self.y = self.y + c.y;
    }

    /// The cell one step away in `dir`.
    pub fn next(&self, dir: &PlayerDirection) -> (r: Coord)
        requires
            self.can_step(),
        ensures
            r == self.spec_next(*dir),
    {
        match dir {
            PlayerDirection::NORTH => Coord { x: self.x, y: self.y - 1 },
            PlayerDirection::EAST => Coord { x: self.x + 1, y: self.y },
            PlayerDirection::SOUTH => Coord { x: self.x, y: self.y + 1 },
            PlayerDirection::WEST => Coord { x: self.x - 1, y: self.y },
        }
    }

    /// Manhattan distance between two coordinates.
    pub open spec fn spec_manhattan(self, c: Coord) -> int {
        abs(self.x - c.x) + abs(self.y - c.y)
    }

    /// Manhattan distance, kept in its low eight bits; exact whenever it is
    /// below 256, as it always is between two cells of the arena.
    pub fn manhattan(&self, c2: &Coord) -> (r: u8)
        ensures
            r == (self.spec_manhattan(*c2) as u8),
            self.spec_manhattan(*c2) < 256 ==> r == self.spec_manhattan(*c2),
    {
        let dx: i32 = if self.x >= c2.x { self.x as i32 - c2.x as i32 } else { c2.x as i32 - self.x as i32 };
        let dy: i32 = if self.y >= c2.y { self.y as i32 - c2.y as i32 } else { c2.y as i32 - self.y as i32 };
        (dx + dy) as u8
    }
}

impl Coord {
    /// The twenty cells of the band two cells wide on each side of the
    /// agent: for north and south, columns x-2, x-1, x+1, x+2 of the rows
    /// y-2 to y+2; for east and west the same band turned by 90 degrees.
    pub open spec fn spec_sides(self, dir: PlayerDirection) -> Seq<Coord> {
        let x = self.x as int;
        let y = self.y as int;
        let c = |a: int, b: int| Coord { x: a as i16, y: b as i16 };
        if dir == PlayerDirection::NORTH || dir == PlayerDirection::SOUTH {
            seq![
                c(x - 2, y - 2), c(x - 1, y - 2), c(x + 2, y - 2), c(x + 1, y - 2),
                c(x - 2, y - 1), c(x - 1, y - 1), c(x + 2, y - 1), c(x + 1, y - 1),
                c(x - 2, y), c(x - 1, y), c(x + 2, y), c(x + 1, y),
                c(x - 2, y + 1), c(x - 1, y + 1), c(x + 2, y + 1), c(x + 1, y + 1),
                c(x - 2, y + 2), c(x - 1, y + 2), c(x + 2, y + 2), c(x + 1, y + 2),
            ]
        } else {
            seq![
                c(x - 2, y - 2), c(x - 2, y - 1), c(x - 2, y + 2), c(x - 2, y + 1),
                c(x - 1, y - 2), c(x - 1, y - 1), c(x - 1, y + 2), c(x - 1, y + 1),
                c(x, y - 2), c(x, y - 1), c(x, y + 2), c(x, y + 1),
                c(x + 1, y - 2), c(x + 1, y - 1), c(x + 1, y + 2), c(x + 1, y + 1),
                c(x + 2, y - 2), c(x + 2, y - 1), c(x + 2, y + 2), c(x + 2, y + 1),
            ]
        }
    }

    /// Two cells of room on every side.
    pub open spec fn has_room(self) -> bool {
        i16::MIN + 2 <= self.x <= i16::MAX - 2 && i16::MIN + 2 <= self.y <= i16::MAX - 2
    }

    /// The band of twenty cells beside the agent, used to plan an escape.
    pub fn coords_5x2_sides(&self, dir: &PlayerDirection) -> (r: Vec<Coord>)
        requires
            self.has_room(),
        ensures
            r@ == self.spec_sides(*dir),
    {
        let x = self.x;
        let y = self.y;
        let r = match dir {
            PlayerDirection::NORTH | PlayerDirection::SOUTH => vec![
                Coord { x: x - 2, y: y - 2 }, Coord { x: x - 1, y: y - 2 },
                Coord { x: x + 2, y: y - 2 }, Coord { x: x + 1, y: y - 2 },
                Coord { x: x - 2, y: y - 1 }, Coord { x: x - 1, y: y - 1 },
                Coord { x: x + 2, y: y - 1 }, Coord { x: x + 1, y: y - 1 },
                Coord { x: x - 2, y: y }, Coord { x: x - 1, y: y },
                Coord { x: x + 2, y: y }, Coord { x: x + 1, y: y },
                Coord { x: x - 2, y: y + 1 }, Coord { x: x - 1, y: y + 1 },
                Coord { x: x + 2, y: y + 1 }, Coord { x: x + 1, y: y + 1 },
                Coord { x: x - 2, y: y + 2 }, Coord { x: x - 1, y: y + 2 },
                Coord { x: x + 2, y: y + 2 }, Coord { x: x + 1, y: y + 2 },
            ],
            _ => vec![
                Coord { x: x - 2, y: y - 2 }, Coord { x: x - 2, y: y - 1 },
                Coord { x: x - 2, y: y + 2 }, Coord { x: x - 2, y: y + 1 },
                Coord { x: x - 1, y: y - 2 }, Coord { x: x - 1, y: y - 1 },
                Coord { x: x - 1, y: y + 2 }, Coord { x: x - 1, y: y + 1 },
                Coord { x: x, y: y - 2 }, Coord { x: x, y: y - 1 },
                Coord { x: x, y: y + 2 }, Coord { x: x, y: y + 1 },
                Coord { x: x + 1, y: y - 2 }, Coord { x: x + 1, y: y - 1 },
                Coord { x: x + 1, y: y + 2 }, Coord { x: x + 1, y: y + 1 },
                Coord { x: x + 2, y: y - 2 }, Coord { x: x + 2, y: y - 1 },
                Coord { x: x + 2, y: y + 2 }, Coord { x: x + 2, y: y + 1 },
            ],
        };
        assert(r@ =~= self.spec_sides(*dir));
        r
    }
}

/// Row-major index of an arena cell.
pub fn cell_index(c: &Coord) -> (r: usize)
    requires
        c.in_grid(),
    ensures
        r as int == c.index(),
        r < N_CELLS,
{
    (c.y as usize) * 59 + (c.x as usize)
}

/// Two arena cells with the same index are the same cell.
pub proof fn lemma_index_injective(a: Coord, b: Coord)
    requires
        a.in_grid(),
        b.in_grid(),
        a.index() == b.index(),
    ensures
        a == b,
{
}

/// Some entry of a timer list is at `c`.
pub open spec fn has_key(s: Seq<(Coord, u64)>, c: Coord) -> bool {
    exists|i: int| 0 <= i < s.len() && (#[trigger] s[i]).0 == c
}

/// The time kept for `c` in a timer list, if any.
pub open spec fn timer_of(s: Seq<(Coord, u64)>, c: Coord) -> Option<u64> {
    if has_key(s, c) {
        Some(s[choose|i: int| 0 <= i < s.len() && (#[trigger] s[i]).0 == c].1)
    } else {
        None
    }
}

/// A timer list holds each cell at most once, and only cells of the arena.
pub open spec fn timers_wf(s: Seq<(Coord, u64)>) -> bool {
    &&& forall|i: int, j: int| 0 <= i < j < s.len() ==> (#[trigger] s[i]).0 != (#[trigger] s[j]).0
    &&& forall|i: int| 0 <= i < s.len() ==> (#[trigger] s[i]).0.in_grid()
}

/// In a well-formed timer list the entry at `i` is the one `timer_of` reads.
pub proof fn lemma_timer_at(s: Seq<(Coord, u64)>, i: int)
    requires
        timers_wf(s),
        0 <= i < s.len(),
    ensures
        has_key(s, s[i].0),
        timer_of(s, s[i].0) == Some(s[i].1),
{
    let c = s[i].0;
    assert(has_key(s, c));
    let j = choose|j: int| 0 <= j < s.len() && (#[trigger] s[j]).0 == c;
    if j != i {
        if j < i {
            assert(s[j].0 != s[i].0);
        } else {
            assert(s[i].0 != s[j].0);
        }
    }
}

/// What a field holds, as mathematical values.
pub struct FieldModel {
    /// Classification of every arena cell, row-major.
    pub cells: Seq<Position>,
    /// Gold timers, in the order the cells were first seen.
    pub gold: Seq<(Coord, u64)>,
    /// Powerup timers, in the order the cells were first seen.
    pub powerup: Seq<(Coord, u64)>,
    /// Safe overlay, one flag per arena cell.
    pub safe: Seq<bool>,
    /// Unsafe overlay, one tick count per arena cell (0: absent).
    pub unsafe_counts: Seq<u8>,
    /// Spawn cell, once known.
    pub spawn: Option<Coord>,
    /// Gold count at the last midpoint computation.
    pub mid_size: usize,
    /// Last midpoint computed.
    pub mid_coord: Coord,
}

impl FieldModel {
    pub open spec fn wf(self) -> bool {
        &&& self.cells.len() == N_CELLS
        &&& self.safe.len() == N_CELLS
        &&& self.unsafe_counts.len() == N_CELLS
        &&& timers_wf(self.gold)
        &&& timers_wf(self.powerup)
    }

    /// What a query of `c` returns.
    pub open spec fn cell(self, c: Coord) -> Position {
        if c.in_grid() {
            self.cells[c.index()]
        } else {
            Position::WALL
        }
    }

    /// `c` is in the safe overlay.
    pub open spec fn safe(self, c: Coord) -> bool {
        c.in_grid() && self.safe[c.index()]
    }

    /// The tick count of `c` in the unsafe overlay; 0 when absent.
    pub open spec fn unsafe_count(self, c: Coord) -> u8 {
        if c.in_grid() {
            self.unsafe_counts[c.index()]
        } else {
            0
        }
    }

    /// `c` is in the unsafe overlay.
    pub open spec fn is_unsafe(self, c: Coord) -> bool {
        self.unsafe_count(c) > 0
    }

    /// The time kept for a gold cell.
    pub open spec fn gold_timer(self, c: Coord) -> Option<u64> {
        timer_of(self.gold, c)
    }

    /// The time kept for a powerup cell.
    pub open spec fn powerup_timer(self, c: Coord) -> Option<u64> {
        timer_of(self.powerup, c)
    }

    /// Every cell of the safe overlay is marked safe or empty; so none is a
    /// wall, a hazard, a gold or a powerup.
    pub open spec fn safe_consistent(self) -> bool {
        forall|c: Coord| #[trigger] self.safe(c) ==> self.cell(c) == Position::SAFE || self.cell(c) == Position::EMPTY
    }

    /// The field of a new game: every cell unknown, no overlays, no timers.
    pub open spec fn is_fresh(self) -> bool {
        &&& self.wf()
        &&& forall|c: Coord| c.in_grid() ==> #[trigger] self.cell(c) == Position::UNKNOWN
        &&& forall|c: Coord| !#[trigger] self.safe(c)
        &&& forall|c: Coord| #[trigger] self.unsafe_count(c) == 0
        &&& self.gold.len() == 0
        &&& self.powerup.len() == 0
        &&& self.spawn.is_none()
        &&& self.mid_size == 0
        &&& self.mid_coord == (Coord { x: 0, y: 0 })
    }
}

/// A cell of the safe overlay is never a wall, a hazard, a gold or a powerup.
pub proof fn lemma_safe_cells_clear(m: FieldModel, c: Coord)
    requires
        m.safe_consistent(),
        m.safe(c),
    ensures
        m.cell(c) != Position::WALL,
        m.cell(c) != Position::DANGER,
        m.cell(c) != Position::GOLD,
        m.cell(c) != Position::POWERUP,
{
}

/// The drone's model of the arena, built from its own observations.
///
/// The field keeps data for the cells of the arena only: `map`,
/// `safe_positions` and `unsafe_positions` hold one entry per cell, in
/// row-major order, and every timer entry is an arena cell. Outside the
/// arena every cell reads as a wall.
pub struct Field {
    /// Classification of every cell.
    pub map: Vec<Position>,
    /// Known gold cells, with the time in ms since each was last seen filled.
    pub gold_positions: Vec<(Coord, u64)>,
    /// Known powerup cells, with the time in ms since each was last seen filled.
    pub powerup_positions: Vec<(Coord, u64)>,
    /// Cells taken as safe havens.
    pub safe_positions: Vec<bool>,
    /// Ticks since damage was taken near each cell; 0 where none was.
    pub unsafe_positions: Vec<u8>,
    /// Settings, for the timers.
    pub config: Config,
    /// First cell found empty under the drone.
    pub spawn: Option<Coord>,
    /// Number of gold cells when the midpoint was last computed.
    pub buffer_midpoint_size: usize,
    /// Midpoint last computed.
    pub buffer_midpoint_coord: Coord,
}

impl View for Field {
    type V = FieldModel;

    open spec fn view(&self) -> FieldModel {
        FieldModel {
            cells: self.map@,
            gold: self.gold_positions@,
            powerup: self.powerup_positions@,
            safe: self.safe_positions@,
            unsafe_counts: self.unsafe_positions@,
            spawn: self.spawn,
            mid_size: self.buffer_midpoint_size,
            mid_coord: self.buffer_midpoint_coord,
        }
    }
}

impl Field {
    pub open spec fn wf(&self) -> bool {
        self@.wf()
    }

    /// A new, empty field.
    pub fn new(config: &Config) -> (r: Field)
        ensures
            r@.is_fresh(),
            r@.safe_consistent(),
            r.config == *config,
    {
        Field {
            map: filled(Position::UNKNOWN),
            gold_positions: Vec::new(),
            powerup_positions: Vec::new(),
            safe_positions: filled(false),
            unsafe_positions: filled(0u8),
            config: config.copy(),
            spawn: None,
            buffer_midpoint_size: 0,
            buffer_midpoint_coord: Coord { x: 0, y: 0 },
        }
    }

    /// Records the spawn cell, which also becomes the cached midpoint.
    pub fn set_spawn(&mut self, c: &Coord)
        ensures
            final(self).spawn == Some(*c),
            final(self).buffer_midpoint_coord == *c,
            final(self).buffer_midpoint_size == old(self).buffer_midpoint_size,
            final(self).map == old(self).map,
            final(self).gold_positions == old(self).gold_positions,
            final(self).powerup_positions == old(self).powerup_positions,
            final(self).safe_positions == old(self).safe_positions,
            final(self).unsafe_positions == old(self).unsafe_positions,
            final(self).config == old(self).config,
    {
        self.spawn = Some(*c);
        self.buffer_midpoint_coord = *c;
    }

    /// Forgets everything learnt, keeping the settings.
    pub fn restart(&mut self)
        ensures
            final(self)@.is_fresh(),
            final(self)@.safe_consistent(),
            final(self).config == old(self).config,
    {
        self.map = filled(Position::UNKNOWN);
        self.gold_positions = Vec::new();
        self.powerup_positions = Vec::new();
        self.safe_positions = filled(false);
        self.unsafe_positions = filled(0u8);
        self.spawn = None;
        self.buffer_midpoint_size = 0;
        self.buffer_midpoint_coord = Coord { x: 0, y: 0 };
    }
}

/// One value for every cell of the arena.
fn filled<T: Copy>(v: T) -> (r: Vec<T>)
    ensures
        r@.len() == N_CELLS,
        forall|i: int| 0 <= i < N_CELLS ==> r@[i] == v,
{
    let mut r: Vec<T> = Vec::new();
    let mut i: usize = 0;
    while i < N_CELLS
        invariant
            i <= N_CELLS,
            r@.len() == i,
            forall|j: int| 0 <= j < i ==> r@[j] == v,
        decreases N_CELLS - i,
    {
        r.push(v);
        i = i + 1;
    }
    r
}

/// Column change of one step along `dir`.
pub open spec fn dx(dir: PlayerDirection) -> int {
    match dir {
        PlayerDirection::EAST => 1,
        PlayerDirection::WEST => -1,
        _ => 0,
    }
}

/// Row change of one step along `dir`; north is up, towards row 0.
pub open spec fn dy(dir: PlayerDirection) -> int {
    match dir {
        PlayerDirection::NORTH => -1,
        PlayerDirection::SOUTH => 1,
        _ => 0,
    }
}

/// Absolute value of an integer.
pub open spec fn abs(v: int) -> int {
    if v < 0 { -v } else { v }
}

} // verus!
