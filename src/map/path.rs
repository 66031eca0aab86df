use vstd::prelude::*;

use crate::enums::{Action, PlayerDirection};
use crate::map::node::Node;
use crate::map::{dx, dy, Coord, FieldModel};

verus! {

/// A plan: the actions to take, and the cells visited on the way.
#[derive(Clone, Debug)]
pub struct Path {
    pub actions: Vec<Action>,
    pub size: usize,
    pub dest: Coord,
    pub coords: Vec<Coord>,
}

/// A step forward or backward, which moves to another cell.
pub open spec fn is_move(a: Action) -> bool {
    a == Action::FRONT || a == Action::BACK
}

/// Number of steps forward or backward among `s`.
pub open spec fn moves(s: Seq<Action>) -> nat
    decreases s.len(),
{
    if s.len() == 0 {
        0
    } else {
        (if is_move(s[0]) { 1nat } else { 0nat }) + moves(s.drop_first())
    }
}

/// Appending an action adds one to the count of moves exactly when it is one.
pub proof fn lemma_moves_push(s: Seq<Action>, a: Action)
    ensures
        moves(s.push(a)) == moves(s) + (if is_move(a) { 1nat } else { 0nat }),
    decreases s.len(),
{
    if s.len() == 0 {
        assert(s.push(a).drop_first() =~= Seq::<Action>::empty());
        assert(moves(Seq::<Action>::empty()) == 0);
        assert(s.push(a)[0] == a);
    } else {
        assert(s.push(a).drop_first() =~= s.drop_first().push(a));
        assert(s.push(a)[0] == s[0]);
        lemma_moves_push(s.drop_first(), a);
    }
}

/// The action that leads from node `p` to node `n`: a step forward if `n`
/// stands one cell ahead, a step back if one cell behind, else a turn if
/// `n` faces left or right of `p`; none otherwise.
pub open spec fn spec_between(p: Node, n: Node) -> Option<Action> {
    let o = p.dir.spec_opposite();
    if n.coord.x == p.coord.x + dx(p.dir) && n.coord.y == p.coord.y + dy(p.dir) {
        Some(Action::FRONT)
    } else if n.coord.x == p.coord.x + dx(o) && n.coord.y == p.coord.y + dy(o) {
        Some(Action::BACK)
    } else if p.dir.spec_left() == n.dir {
        Some(Action::LEFT)
    } else if p.dir.spec_right() == n.dir {
        Some(Action::RIGHT)
    } else {
        None
    }
}

/// The actions between consecutive nodes of `ns`.
pub open spec fn actions_of(ns: Seq<Node>) -> Seq<Action>
    decreases ns.len(),
{
    if ns.len() < 2 {
        Seq::empty()
    } else {
        let prev = actions_of(ns.drop_last());
        match spec_between(ns[ns.len() - 2], ns[ns.len() - 1]) {
            Some(a) => prev.push(a),
            None => prev,
        }
    }
}

/// The cells of `ns`, each kept once for every run of nodes standing on it.
pub open spec fn coords_of(ns: Seq<Node>) -> Seq<Coord>
    decreases ns.len(),
{
    if ns.len() == 0 {
        Seq::empty()
    } else if ns.len() == 1 {
        seq![ns[0].coord]
    } else {
        let prev = coords_of(ns.drop_last());
        if ns[ns.len() - 1].coord != ns[ns.len() - 2].coord {
            prev.push(ns[ns.len() - 1].coord)
        } else {
            prev
        }
    }
}

/// The node reached by taking action `a` at `n`.
pub open spec fn apply_action(n: Node, a: Action) -> Node {
    match a {
        Action::FRONT => n.front(),
        Action::BACK => n.back(),
        Action::LEFT => n.turned_left(),
        Action::RIGHT => n.turned_right(),
        _ => n,
    }
}

/// The node reached by taking the actions `acts` from `n`.
pub open spec fn walk_end(n: Node, acts: Seq<Action>) -> Node
    decreases acts.len(),
{
    if acts.len() == 0 {
        n
    } else {
        apply_action(walk_end(n, acts.drop_last()), acts.last())
    }
}

/// Taking the actions `acts` from `n` never enters a wall, a hazard or an
/// unknown cell.
pub open spec fn walk_clear(m: FieldModel, n: Node, acts: Seq<Action>) -> bool
    decreases acts.len(),
{
    if acts.len() == 0 {
        true
    } else {
        walk_clear(m, n, acts.drop_last()) && m.cell(walk_end(n, acts).coord).passable()
    }
}

/// `ns` is a walk of the planner's graph from `start` to a node on `dest`.
pub open spec fn is_route(m: FieldModel, ns: Seq<Node>, start: Node, dest: Coord) -> bool {
    &&& ns.len() >= 1
    &&& ns[0] == start
    &&& ns.last().coord == dest
    &&& forall|i: int| 0 <= i < ns.len() - 1 ==> #[trigger] ns[i].steps_to(m, ns[i + 1])
}

/// One planner move is named by `spec_between`, and taking that action
/// leads to the next node.
pub proof fn lemma_step_action(m: FieldModel, p: Node, n: Node)
    requires
        p.steps_to(m, n),
    ensures
        spec_between(p, n) is Some,
        apply_action(p, spec_between(p, n).unwrap()) == n,
{
    assert(n.coord.in_grid());
    let o = p.dir.spec_opposite();
    if n == p.front() {
        assert(n.coord.x == p.coord.x + dx(p.dir) && n.coord.y == p.coord.y + dy(p.dir));
    } else if n == p.back() {
        assert(n.coord.x == p.coord.x + dx(o) && n.coord.y == p.coord.y + dy(o));
        assert(!(n.coord.x == p.coord.x + dx(p.dir) && n.coord.y == p.coord.y + dy(p.dir)));
    } else if n == p.turned_left() {
        assert(!(n.coord.x == p.coord.x + dx(p.dir) && n.coord.y == p.coord.y + dy(p.dir)));
        assert(!(n.coord.x == p.coord.x + dx(o) && n.coord.y == p.coord.y + dy(o)));
    } else {
        assert(!(n.coord.x == p.coord.x + dx(p.dir) && n.coord.y == p.coord.y + dy(p.dir)));
        assert(!(n.coord.x == p.coord.x + dx(o) && n.coord.y == p.coord.y + dy(o)));
        assert(p.dir.spec_left() != n.dir);
    }
}

/// Following the actions of a route from its start keeps to open cells and
/// ends on its last node.
pub proof fn lemma_route_walk(m: FieldModel, ns: Seq<Node>, start: Node, dest: Coord)
    requires
        is_route(m, ns, start, dest),
    ensures
        walk_clear(m, start, actions_of(ns)),
        walk_end(start, actions_of(ns)) == ns.last(),
    decreases ns.len(),
{
    if ns.len() >= 2 {
        let pre = ns.drop_last();
        assert forall|i: int| 0 <= i < pre.len() - 1 implies #[trigger] pre[i].steps_to(m, pre[i + 1]) by {
            assert(ns[i].steps_to(m, ns[i + 1]));
        }
        lemma_route_walk(m, pre, start, pre.last().coord);
        let k = ns.len() - 2;
        assert(ns[k].steps_to(m, ns[k + 1]));
        lemma_step_action(m, ns[k], ns[k + 1]);
        let a = spec_between(ns[k], ns[k + 1]).unwrap();
        let acts = actions_of(ns);
        assert(acts == actions_of(pre).push(a));
        assert(acts.drop_last() =~= actions_of(pre));
        assert(n_passable(m, ns[k + 1]));
    }
}

/// The cells kept by `coords_of` start with the first node's cell, and
/// every later one is the cell of a later node.
pub proof fn lemma_coords_of_nodes(ns: Seq<Node>)
    ensures
        ns.len() >= 1 ==> coords_of(ns).len() >= 1 && coords_of(ns)[0] == ns[0].coord,
        forall|k: int| 1 <= k < coords_of(ns).len() ==> exists|i: int| 1 <= i < ns.len() && #[trigger] coords_of(ns)[k] == ns[i].coord,
    decreases ns.len(),
{
    if ns.len() >= 2 {
        let pre = ns.drop_last();
        lemma_coords_of_nodes(pre);
        let c = coords_of(ns);
        let cp = coords_of(pre);
        assert forall|k: int| 1 <= k < c.len() implies exists|i: int| 1 <= i < ns.len() && #[trigger] c[k] == ns[i].coord by {
            if k < cp.len() {
                assert(c[k] == cp[k]);
                let i = choose|i: int| 1 <= i < pre.len() && #[trigger] cp[k] == pre[i].coord;
                assert(c[k] == ns[i].coord);
            } else {
                assert(c[k] == ns[ns.len() - 1].coord);
            }
        }
    }
}

/// Every cell of a route after its start may be entered.
pub proof fn lemma_route_cells_open(m: FieldModel, ns: Seq<Node>, start: Node, dest: Coord)
    requires
        is_route(m, ns, start, dest),
    ensures
        coords_of(ns).len() >= 1,
        coords_of(ns)[0] == start.coord,
        forall|k: int| 1 <= k < coords_of(ns).len() ==> m.cell(#[trigger] coords_of(ns)[k]).passable(),
{
    lemma_coords_of_nodes(ns);
    assert forall|k: int| 1 <= k < coords_of(ns).len() implies m.cell(#[trigger] coords_of(ns)[k]).passable() by {
        let i = choose|i: int| 1 <= i < ns.len() && #[trigger] coords_of(ns)[k] == ns[i].coord;
        assert(ns[i - 1].steps_to(m, ns[(i - 1) + 1]));
    }
}

/// The cell of `n` may be entered.
pub open spec fn n_passable(m: FieldModel, n: Node) -> bool {
    m.cell(n.coord).passable()
}

impl Path {
    /// The size matches the actions, and there are more cells than moves.
    pub open spec fn wf(&self) -> bool {
        &&& self.size == self.actions@.len()
        &&& moves(self.actions@) < self.coords@.len()
    }

    /// Drops the first action, and its cell when it is a move.
    pub fn pop_first_action(&mut self)
        requires
            old(self).wf(),
            old(self).actions@.len() > 0,
        ensures
            final(self).wf(),
            final(self).actions@ == old(self).actions@.drop_first(),
            final(self).coords@ == if is_move(old(self).actions@[0]) {
                old(self).coords@.drop_first()
            } else {
                old(self).coords@
            },
            final(self).size == old(self).size - 1,
            final(self).dest == old(self).dest,
    {
        let a = self.actions.remove(0);
        assert(old(self).actions@.drop_first() =~= self.actions@);
        match a {
            Action::FRONT | Action::BACK => {
                self.coords.remove(0);
            },
            _ => {},
        }
        self.size = self.size - 1;
    }

    /// The first action, or `NOTHING` when none is left.
    pub fn get_first(&self) -> (r: Action)
        ensures
            r == if self.actions@.len() > 0 { self.actions@[0] } else { Action::NOTHING },
    {
        if self.actions.len() > 0 {
            self.actions[0]
        } else {
            Action::NOTHING
        }
    }

    /// Builds the plan that walks through `nodes`: one action for each pair
    /// of consecutive nodes, and the cells in the order first stood on.
    /// `None` exactly when `nodes` is empty.
    pub fn from_nodes(nodes: Vec<Node>) -> (r: Option<Path>)
        ensures
            r is None <==> nodes@.len() == 0,
            r matches Some(p) ==> {
                &&& p.wf()
                &&& p.actions@ == actions_of(nodes@)
                &&& p.coords@ == coords_of(nodes@)
                &&& p.dest == nodes@.last().coord
            },
    {
        if nodes.len() == 0 {
            return None;
        }
        let mut v: Vec<Action> = Vec::new();
        let mut v_coords: Vec<Coord> = Vec::new();
        v_coords.push(nodes[0].coord);
        assert(nodes@.subrange(0, 1).drop_last() =~= Seq::<Node>::empty());
        let mut i: usize = 1;
        while i < nodes.len()
            invariant
                1 <= i <= nodes@.len(),
                v@ == actions_of(nodes@.subrange(0, i as int)),
                v_coords@ == coords_of(nodes@.subrange(0, i as int)),
                moves(v@) < v_coords@.len(),
            decreases nodes@.len() - i,
        {
            let p = nodes[i - 1];
            let n = nodes[i];
            let ghost sub = nodes@.subrange(0, i + 1);
            assert(sub.drop_last() =~= nodes@.subrange(0, i as int));
            if n.coord != p.coord {
                v_coords.push(n.coord);
            }
            match action_between(&p, &n) {
                Some(a) => {
                    proof { lemma_moves_push(v@, a); }
                    v.push(a);
                },
                None => {},
            }
            i = i + 1;
        }
        assert(nodes@.subrange(0, nodes@.len() as int) =~= nodes@);
        let size = v.len();
        Some(Path { actions: v, size, dest: nodes[nodes.len() - 1].coord, coords: v_coords })
    }
}

/// The action that leads from `p` to `n`, if any.
fn action_between(p: &Node, n: &Node) -> (r: Option<Action>)
    ensures
        r == spec_between(*p, *n),
{
    let (fx, fy): (i32, i32) = step(p.dir);
    let (bx, by): (i32, i32) = step(p.dir.opposite());
    let (px, py): (i32, i32) = (p.coord.x as i32, p.coord.y as i32);
    let (nx, ny): (i32, i32) = (n.coord.x as i32, n.coord.y as i32);
    if nx == px + fx && ny == py + fy {
        Some(Action::FRONT)
    } else if nx == px + bx && ny == py + by {
        Some(Action::BACK)
    } else if p.dir.left() == n.dir {
        Some(Action::LEFT)
    } else if p.dir.right() == n.dir {
        Some(Action::RIGHT)
    } else {
        None
    }
}

/// Column and row change of one step along `dir`.
fn step(dir: PlayerDirection) -> (r: (i32, i32))
    ensures
        r.0 == dx(dir),
        r.1 == dy(dir),
{
    match dir {
        PlayerDirection::NORTH => (0, -1),
        PlayerDirection::EAST => (1, 0),
        PlayerDirection::SOUTH => (0, 1),
        PlayerDirection::WEST => (-1, 0),
    }
}

} // verus!
