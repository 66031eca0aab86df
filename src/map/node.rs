use vstd::prelude::*;

use crate::enums::PlayerDirection;
use crate::map::query::{get, is_safe, is_unsafe};
use crate::map::{Coord, Field, FieldModel, Position};

verus! {

/// A state of the planner: where the drone stands and where it faces.
#[derive(Clone, Copy, Debug, PartialEq, Eq, Structural, Hash, PartialOrd, Ord)]
pub struct Node {
    pub coord: Coord,
    pub dir: PlayerDirection,
}

/// Cost of a step onto `c`, in tenths: 1.0 forward or 2.5 backward, times
/// 0.8 on a safe cell, plus 10.0 on an unsafe one.
pub open spec fn move_cost(m: FieldModel, c: Coord, back: bool) -> u32 {
    let base: u32 = if back { 25 } else { 10 };
    let discounted: u32 = if m.safe(c) { (base * 4 / 5) as u32 } else { base };
    if m.is_unsafe(c) { (discounted + 100) as u32 } else { discounted }
}

/// Cost of a rotation, in tenths.
pub const TURN_COST: u32 = 10;

/// Appends `e` when its cell may be entered.
pub open spec fn keep_if_open(m: FieldModel, s: Seq<(Node, u32)>, e: (Node, u32)) -> Seq<(Node, u32)> {
    if m.cell(e.0.coord).passable() {
        s.push(e)
    } else {
        s
    }
}

impl Node {
    pub open spec fn front(self) -> Node {
        Node { coord: self.coord.spec_next(self.dir), dir: self.dir }
    }

    pub open spec fn back(self) -> Node {
        Node { coord: self.coord.spec_next(self.dir.spec_opposite()), dir: self.dir }
    }

    pub open spec fn turned_left(self) -> Node {
        Node { coord: self.coord, dir: self.dir.spec_left() }
    }

    pub open spec fn turned_right(self) -> Node {
        Node { coord: self.coord, dir: self.dir.spec_right() }
    }

    /// The successors of the node with their costs: a step forward, a step
    /// back, a turn left and a turn right, in this order, leaving out those
    /// whose cell is a wall, a hazard or unknown.
    pub open spec fn spec_neighbours(self, m: FieldModel) -> Seq<(Node, u32)> {
        let s0 = Seq::<(Node, u32)>::empty();
        let s1 = keep_if_open(m, s0, (self.front(), move_cost(m, self.front().coord, false)));
        let s2 = keep_if_open(m, s1, (self.back(), move_cost(m, self.back().coord, true)));
        let s3 = keep_if_open(m, s2, (self.turned_left(), TURN_COST));
        keep_if_open(m, s3, (self.turned_right(), TURN_COST))
    }

    /// `b` is one planner move away from this node.
    pub open spec fn steps_to(self, m: FieldModel, b: Node) -> bool {
        &&& self.coord.can_step()
        &&& b == self.front() || b == self.back() || b == self.turned_left() || b == self.turned_right()
        &&& m.cell(b.coord).passable()
    }

    /// Heuristic of the planner, in tenths: the Manhattan distance to the goal.
    pub open spec fn spec_distance_to_goal(self, goal: Coord) -> int {
        10 * self.coord.spec_manhattan(goal)
    }

    /// Heuristic of the planner, in tenths: the Manhattan distance to the goal.
    pub fn distance_to_goal(&self, goal: &Coord) -> (r: u32)
        ensures
            r == self.spec_distance_to_goal(*goal),
    {
        let dx: u32 = if self.coord.x >= goal.x {
            (self.coord.x as i32 - goal.x as i32) as u32
        } else {
            (goal.x as i32 - self.coord.x as i32) as u32
        };
        let dy: u32 = if self.coord.y >= goal.y {
            (self.coord.y as i32 - goal.y as i32) as u32
        } else {
            (goal.y as i32 - self.coord.y as i32) as u32
        };
        10 * (dx + dy)
    }

    /// The node stands on `goal`.
    pub fn is_at(&self, goal: &Coord) -> (r: bool)
        ensures
            r == (self.coord == *goal),
    {
        self.coord == *goal
    }

    /// The successors of the node, with their costs in tenths.
    pub fn neighbours(&self, f: &Field) -> (r: Vec<(Node, u32)>)
        requires
            f.wf(),
            self.coord.can_step(),
        ensures
            r@ == self.spec_neighbours(f@),
            forall|i: int| 0 <= i < r@.len() ==> self.steps_to(f@, #[trigger] r@[i].0),
            forall|b: Node| self.steps_to(f@, b) ==> exists|i: int| 0 <= i < r@.len() && #[trigger] r@[i].0 == b,
    {
        let front = self.coord.next(&self.dir);
        let back = self.coord.next(&self.dir.opposite());
        let mut r: Vec<(Node, u32)> = Vec::new();
        let cands: [(Node, u32); 4] = [
            (Node { coord: front, dir: self.dir }, find_cost(f, &front, false)),
            (Node { coord: back, dir: self.dir }, find_cost(f, &back, true)),
            (Node { coord: self.coord, dir: self.dir.left() }, TURN_COST),
            (Node { coord: self.coord, dir: self.dir.right() }, TURN_COST),
        ];
        let mut i: usize = 0;
        while i < 4
            invariant
                f.wf(),
                i <= 4,
                cands@ == seq![
                    (self.front(), move_cost(f@, self.front().coord, false)),
                    (self.back(), move_cost(f@, self.back().coord, true)),
                    (self.turned_left(), TURN_COST),
                    (self.turned_right(), TURN_COST),
                ],
                r@ == open_prefix(f@, cands@, i as int),
            decreases 4 - i,
        {
            let e = cands[i];
            match get(f, &e.0.coord) {
                Position::DANGER | Position::WALL | Position::UNKNOWN => {},
                _ => r.push(e),
            }
            i = i + 1;
        }
        proof {
            let c = cands@;
            reveal_with_fuel(open_prefix, 5);
            assert(r@ == self.spec_neighbours(f@));
            let s1 = keep_if_open(f@, Seq::empty(), c[0]);
            let s2 = keep_if_open(f@, s1, c[1]);
            let s3 = keep_if_open(f@, s2, c[2]);
            assert forall|b: Node| self.steps_to(f@, b) implies exists|i: int| 0 <= i < r@.len() && #[trigger] r@[i].0 == b by {
                if b == c[0].0 {
                    let k = s1.len() - 1;
                    assert(s1[k].0 == b);
                    assert(s2[k] == s1[k]);
                    assert(s3[k] == s1[k]);
                    assert(r@[k].0 == b);
                } else if b == c[1].0 {
                    let k = s2.len() - 1;
                    assert(s2[k].0 == b);
                    assert(s3[k] == s2[k]);
                    assert(r@[k].0 == b);
                } else if b == c[2].0 {
                    let k = s3.len() - 1;
                    assert(s3[k].0 == b);
                    assert(r@[k].0 == b);
                } else {
                    assert(r@[r@.len() - 1].0 == b);
                }
            }
        }
        r
    }
}

/// The first `i` candidates whose cell may be entered.
pub open spec fn open_prefix(m: FieldModel, c: Seq<(Node, u32)>, i: int) -> Seq<(Node, u32)>
    decreases i,
{
    if i <= 0 {
        Seq::empty()
    } else {
        keep_if_open(m, open_prefix(m, c, i - 1), c[i - 1])
    }
}

/// The cost of a step onto `c`, in tenths.
fn find_cost(f: &Field, c: &Coord, back: bool) -> (r: u32)
    requires
        f.wf(),
    ensures
        r == move_cost(f@, *c, back),
{
    let base: u32 = if back { 25 } else { 10 };
    let discounted: u32 = if is_safe(f, c) { base * 4 / 5 } else { base };
    if is_unsafe(f, c) { discounted + 100 } else { discounted }
}

} // verus!
