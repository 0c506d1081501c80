use vstd::prelude::*;
use crate::grid::{Cell, Config, Point, cell_to_world, world_point};
use crate::symbol::{Glyph, Shape, FULL_OPACITY, PREVIEW_OPACITY, build_glyph, shape_spec};

verus! {

/// The two players; the first draws crosses, the second circles.
#[derive(Clone, Copy, Debug, PartialEq, Eq, Structural)]
pub enum Player {
    First,
    Second,
}

pub open spec fn other_spec(p: Player) -> Player {
    match p {
        Player::First => Player::Second,
        Player::Second => Player::First,
    }
}

pub open spec fn glyph_spec(p: Player) -> Glyph {
    match p {
        Player::First => Glyph::Cross,
        Player::Second => Glyph::Circle,
    }
}

/// The player whose turn it is after `k` marks: the first on even counts.
pub open spec fn player_after(k: nat) -> Player {
    if k % 2 == 0 { Player::First } else { Player::Second }
}

impl Player {
    /// The player who moves next.
    pub fn other(self) -> (r: Player)
        ensures
            r == other_spec(self),
    {
        match self {
            Player::First => Player::Second,
            Player::Second => Player::First,
        }
    }

    /// The glyph this player's marks are drawn with.
    pub fn glyph(self) -> (r: Glyph)
        ensures
            r == glyph_spec(self),
    {
        match self {
            Player::First => Glyph::Cross,
            Player::Second => Glyph::Circle,
        }
    }
}

/// A mark that a player placed on a cell.
#[derive(Clone, Copy, Debug, PartialEq, Eq, Structural)]
pub struct Mark {
    pub cell: Cell,
    pub owner: Player,
}

/// Whose turn it is and the marks placed so far, oldest first.
pub struct Ledger {
    pub active: Player,
    pub marks: Vec<Mark>,
}

pub ghost struct LedgerView {
    pub active: Player,
    pub marks: Seq<Mark>,
}

impl View for Ledger {
    type V = LedgerView;

    open spec fn view(&self) -> LedgerView {
        LedgerView { active: self.active, marks: self.marks@ }
    }
}

/// The ledger at the start of a game: the first player to move, no marks.
pub open spec fn initial_ledger() -> LedgerView {
    LedgerView { active: Player::First, marks: Seq::empty() }
}

/// A confirm on a cell: the active player's mark is appended, whether or not
/// the cell already holds one, and the turn passes to the other player.
pub open spec fn confirm_spec(v: LedgerView, cell: Cell) -> LedgerView {
    LedgerView {
        active: other_spec(v.active),
        marks: v.marks.push(Mark { cell, owner: v.active }),
    }
}

/// The ledger after confirms on the cells, in order.
pub open spec fn confirm_all(v: LedgerView, cells: Seq<Cell>) -> LedgerView
    decreases cells.len(),
{
    if cells.len() == 0 {
        v
    } else {
        confirm_spec(confirm_all(v, cells.drop_last()), cells.last())
    }
}

impl LedgerView {
    /// Marks alternate between the players, the first player's first, every
    /// mark lies on the board, and the active player is the one whose turn
    /// the number of marks gives.
    pub open spec fn wf(self, cfg: Config) -> bool {
        &&& self.active == player_after(self.marks.len())
        &&& forall|i: int|
            0 <= i < self.marks.len() ==> (#[trigger] self.marks[i]).owner == player_after(
                i as nat,
            ) && cfg.contains(self.marks[i].cell)
    }
}

/// After k confirms from the start of a game, k marks stand, they alternate
/// between the players, and the active player is the first if k is even and
/// the second if k is odd.
pub proof fn lemma_turn_alternation(cells: Seq<Cell>)
    ensures
        confirm_all(initial_ledger(), cells).marks.len() == cells.len(),
        confirm_all(initial_ledger(), cells).active == (if cells.len() % 2 == 0 {
            Player::First
        } else {
            Player::Second
        }),
        forall|i: int|
            0 <= i < cells.len() ==> (#[trigger] confirm_all(initial_ledger(), cells).marks[i])
                == (Mark { cell: cells[i], owner: player_after(i as nat) }),
        forall|i: int|
            0 <= i < cells.len() - 1 ==> confirm_all(initial_ledger(), cells).marks[i].owner
                != #[trigger] confirm_all(initial_ledger(), cells).marks[i + 1].owner,
    decreases cells.len(),
{
    if cells.len() > 0 {
        let init = cells.drop_last();
        lemma_turn_alternation(init);
        let prev = confirm_all(initial_ledger(), init);
        let cur = confirm_all(initial_ledger(), cells);
        assert(cur == confirm_spec(prev, cells.last()));
        assert forall|i: int| 0 <= i < cells.len() implies (#[trigger] cur.marks[i]) == (Mark {
            cell: cells[i],
            owner: player_after(i as nat),
        }) by {
            if i < init.len() {
                assert(cur.marks[i] == prev.marks[i]);
                assert(init[i] == cells[i]);
            }
        }
        assert forall|i: int| 0 <= i < cells.len() - 1 implies cur.marks[i].owner
            != #[trigger] cur.marks[i + 1].owner by {
            assert(cur.marks[i].owner == player_after(i as nat));
            assert(cur.marks[i + 1].owner == player_after((i + 1) as nat));
        }
    }
}

/// Two confirms on one cell place two marks on it, one for each player; the
/// second is not refused.
pub proof fn lemma_confirm_twice_same_cell(v: LedgerView, cell: Cell)
    ensures
        confirm_all(v, seq![cell, cell]).marks == v.marks.push(
            Mark { cell, owner: v.active },
        ).push(Mark { cell, owner: other_spec(v.active) }),
        confirm_all(v, seq![cell, cell]).active == v.active,
{
    let s = seq![cell, cell];
    assert(s.drop_last() =~= seq![cell]);
    assert(seq![cell].drop_last() =~= Seq::<Cell>::empty());
    assert(confirm_all(v, Seq::<Cell>::empty()) == v);
    let one = confirm_all(v, seq![cell]);
    assert(one == confirm_spec(v, cell));
    assert(confirm_all(v, s) == confirm_spec(one, cell));
    assert(other_spec(other_spec(v.active)) == v.active);
}

/// A confirm on a cell of the board keeps a well-formed ledger well-formed.
pub proof fn lemma_confirm_keeps_wf(cfg: Config, v: LedgerView, cell: Cell)
    requires
        v.wf(cfg),
        cfg.contains(cell),
    ensures
        confirm_spec(v, cell).wf(cfg),
{
    let w = confirm_spec(v, cell);
    assert forall|i: int| 0 <= i < w.marks.len() implies (#[trigger] w.marks[i]).owner
        == player_after(i as nat) && cfg.contains(w.marks[i].cell) by {
        if i < v.marks.len() {
            assert(w.marks[i] == v.marks[i]);
        }
    }
}

/// What a confirm asks to be drawn: the placed mark at full opacity, and the
/// new preview glyph, translucent and centred on the origin.
#[derive(Clone, Copy, Debug, PartialEq, Eq, Structural)]
pub struct Placement {
    pub mark: Shape,
    pub preview: Shape,
}

pub open spec fn origin() -> Point {
    Point { x: 0, y: 0 }
}

impl Ledger {
    /// A ledger at the start of a game.
    pub fn new() -> (r: Ledger)
        ensures
            r@ == initial_ledger(),
    {
        Ledger { active: Player::First, marks: Vec::new() }
    }

    /// The preview glyph of the active player, centred on the origin.
    pub fn preview(&self, cfg: &Config) -> (r: Shape)
        requires
            cfg.wf(),
        ensures
            r == shape_spec(*cfg, glyph_spec(self.active), origin(), PREVIEW_OPACITY),
    {
        build_glyph(cfg, self.active.glyph(), Point { x: 0, y: 0 }, PREVIEW_OPACITY)
    }

    /// Places the active player's mark on a cell and passes the turn.
    /// Returns the placed mark's shape, centred on the cell, and the preview
    /// glyph of the player who moves next.
    pub fn on_confirm(&mut self, cfg: &Config, cell: Cell) -> (r: Placement)
        requires
            cfg.wf(),
            cfg.contains(cell),
            old(self)@.wf(*cfg),
            old(self).marks@.len() < usize::MAX,
        ensures
            final(self)@ == confirm_spec(old(self)@, cell),
            final(self)@.wf(*cfg),
            r.mark == shape_spec(
                *cfg,
                glyph_spec(old(self).active),
                world_point(*cfg, cell),
                FULL_OPACITY,
            ),
            r.preview == shape_spec(*cfg, glyph_spec(final(self).active), origin(), PREVIEW_OPACITY),
    {
        let at = cell_to_world(cfg, cell);
        let mark = build_glyph(cfg, self.active.glyph(), at, FULL_OPACITY);
        self.marks.push(Mark { cell, owner: self.active });
        self.active = self.active.other();
        let preview = self.preview(cfg);
        proof {
            lemma_confirm_keeps_wf(*cfg, old(self)@, cell);
        }
        Placement { mark, preview }
    }
}

} // verus!
