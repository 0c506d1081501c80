use vstd::prelude::*;
use crate::grid::{Cell, Config, Point, cell_to_world, in_range, world_point};
use crate::input::Action;

verus! {

/// The cell a cursor moves to on an action: one step in the action's
/// direction, stopped at the edge of the board. Up moves towards row 0, Left
/// towards column 0; a confirm does not move it.
pub open spec fn step(cfg: Config, c: Cell, a: Action) -> Cell {
    match a {
        Action::Up => Cell { row: if c.row == 0 { 0 } else { (c.row - 1) as u64 }, ..c },
        Action::Down => Cell {
            row: if c.row + 1 >= cfg.grid_size { c.row } else { (c.row + 1) as u64 },
            ..c
        },
        Action::Left => Cell { col: if c.col == 0 { 0 } else { (c.col - 1) as u64 }, ..c },
        Action::Right => Cell {
            col: if c.col + 1 >= cfg.grid_size { c.col } else { (c.col + 1) as u64 },
            ..c
        },
        Action::Confirm => c,
    }
}

/// The cell a cursor reaches from `start` after the actions, in order.
pub open spec fn walk(cfg: Config, start: Cell, actions: Seq<Action>) -> Cell
    decreases actions.len(),
{
    if actions.len() == 0 {
        start
    } else {
        step(cfg, walk(cfg, start, actions.drop_last()), actions.last())
    }
}

/// A step from a cell on the board stays on the board.
pub proof fn lemma_step_stays_on_board(cfg: Config, c: Cell, a: Action)
    requires
        cfg.wf(),
        cfg.contains(c),
    ensures
        cfg.contains(step(cfg, c, a)),
{
}

/// Whatever actions a cursor on the board is given, its row and column stay
/// within [0, N−1] after every one of them.
pub proof fn lemma_walk_stays_on_board(cfg: Config, start: Cell, actions: Seq<Action>)
    requires
        cfg.wf(),
        cfg.contains(start),
    ensures
        forall|i: int| 0 <= i <= actions.len() ==> cfg.contains(#[trigger] walk(cfg, start, actions.take(i))),
    decreases actions.len(),
{
    if actions.len() > 0 {
        let init = actions.drop_last();
        lemma_walk_stays_on_board(cfg, start, init);
        assert forall|i: int| 0 <= i <= actions.len() implies cfg.contains(
            #[trigger] walk(cfg, start, actions.take(i)),
        ) by {
            if i < actions.len() {
                assert(actions.take(i) =~= init.take(i));
            } else {
                assert(actions.take(i) =~= actions);
                assert(init.take(init.len() as int) =~= init);
                lemma_step_stays_on_board(cfg, walk(cfg, start, init), actions.last());
            }
        }
    } else {
        assert(actions.take(0) =~= actions);
    }
}

/// The distance in steps between two cells, moving along rows and columns.
pub open spec fn steps_between(a: Cell, b: Cell) -> nat {
    (if a.row >= b.row { a.row - b.row } else { b.row - a.row }) as nat + (if a.col >= b.col {
        a.col - b.col
    } else {
        b.col - a.col
    }) as nat
}

/// Actions that lead from `start` to `target`: first along the column, then
/// along the row.
pub open spec fn route(start: Cell, target: Cell) -> Seq<Action>
    decreases steps_between(start, target),
{
    if target.row > start.row {
        route(start, Cell { row: (target.row - 1) as u64, ..target }).push(Action::Down)
    } else if target.row < start.row {
        route(start, Cell { row: (target.row + 1) as u64, ..target }).push(Action::Up)
    } else if target.col > start.col {
        route(start, Cell { col: (target.col - 1) as u64, ..target }).push(Action::Right)
    } else if target.col < start.col {
        route(start, Cell { col: (target.col + 1) as u64, ..target }).push(Action::Left)
    } else {
        Seq::empty()
    }
}

proof fn lemma_route_arrives(cfg: Config, start: Cell, target: Cell)
    requires
        cfg.wf(),
        cfg.contains(start),
        cfg.contains(target),
    ensures
        walk(cfg, start, route(start, target)) == target,
    decreases steps_between(start, target),
{
    if target.row > start.row {
        let prev = Cell { row: (target.row - 1) as u64, ..target };
        lemma_route_arrives(cfg, start, prev);
        assert(route(start, target).drop_last() =~= route(start, prev));
    } else if target.row < start.row {
        let prev = Cell { row: (target.row + 1) as u64, ..target };
        lemma_route_arrives(cfg, start, prev);
        assert(route(start, target).drop_last() =~= route(start, prev));
    } else if target.col > start.col {
        let prev = Cell { col: (target.col - 1) as u64, ..target };
        lemma_route_arrives(cfg, start, prev);
        assert(route(start, target).drop_last() =~= route(start, prev));
    } else if target.col < start.col {
        let prev = Cell { col: (target.col + 1) as u64, ..target };
        lemma_route_arrives(cfg, start, prev);
        assert(route(start, target).drop_last() =~= route(start, prev));
    } else {
        assert(start == target);
    }
}

/// Every cell of the board can be reached from every other by directional
/// actions; in particular from the centre cell where the cursor starts.
/// Together with the injectivity of `cell_to_world`, the cursor's reachable
/// world positions are exactly the N² cell centres.
pub proof fn lemma_every_cell_reachable(cfg: Config, start: Cell, target: Cell)
    requires
        cfg.wf(),
        cfg.contains(start),
        cfg.contains(target),
    ensures
        exists|actions: Seq<Action>| walk(cfg, start, actions) == target,
{
    lemma_route_arrives(cfg, start, target);
    assert(walk(cfg, start, route(start, target)) == target);
}

/// The cell under the cursor.
#[derive(Clone, Copy, Debug, PartialEq, Eq, Structural)]
pub struct Cursor {
    pub cell: Cell,
}

impl Cursor {
    pub open spec fn wf(self, cfg: Config) -> bool {
        cfg.contains(self.cell)
    }

    /// A cursor on the centre cell.
    pub fn new(cfg: &Config) -> (r: Cursor)
        requires
            cfg.wf(),
        ensures
            r.cell == cfg.center_cell(),
            r.wf(*cfg),
    {
        Cursor { cell: cfg.center() }
    }

    /// The world position of the cursor.
    pub fn world_position(&self, cfg: &Config) -> (r: Point)
        requires
            cfg.wf(),
            self.wf(*cfg),
        ensures
            r == world_point(*cfg, self.cell),
            in_range(r),
    {
        cell_to_world(cfg, self.cell)
    }

    /// Moves the cursor by one action and returns its world position, also
    /// where it did not move.
    pub fn apply(&mut self, cfg: &Config, a: Action) -> (r: Point)
        requires
            cfg.wf(),
            old(self).wf(*cfg),
        ensures
            final(self).cell == step(*cfg, old(self).cell, a),
            final(self).wf(*cfg),
            r == world_point(*cfg, final(self).cell),
            in_range(r),
    {
        let n = cfg.grid_size;
        match a {
            Action::Up => {
                if self.cell.row > 0 {
                    self.cell.row = self.cell.row - 1;
                }
            },
            Action::Down => {
                if self.cell.row + 1 < n {
                    self.cell.row = self.cell.row + 1;
                }
            },
            Action::Left => {
                if self.cell.col > 0 {
                    self.cell.col = self.cell.col - 1;
                }
            },
            Action::Right => {
                if self.cell.col + 1 < n {
                    self.cell.col = self.cell.col + 1;
                }
            },
            Action::Confirm => {},
        }
        cell_to_world(cfg, self.cell)
    }
}

} // verus!
