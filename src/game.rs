use vstd::prelude::*;
use crate::cursor::{Cursor, lemma_step_stays_on_board, step};
use crate::grid::{Cell, Config, Point, Rect, bar_spec, grid_bars, rect_is, world_point};
use crate::input::{Action, action_of, classify};
use crate::ledger::{
    Ledger, LedgerView, Placement, Player, confirm_spec, glyph_spec, initial_ledger,
    lemma_confirm_keeps_wf, origin,
};
use crate::symbol::{Shape, FULL_OPACITY, PREVIEW_OPACITY, shape_spec};

verus! {

/// A key transition from the input source.
#[derive(Clone, Copy, Debug, PartialEq, Eq, Structural)]
pub struct KeyEvent {
    pub code: u32,
    pub pressed: bool,
}

/// What the game asks the render surface to do.
#[derive(Clone, Copy, Debug, PartialEq, Eq, Structural)]
pub enum RenderRequest {
    /// Draw a grid line; grid lines are drawn once and never change.
    Bar(Rect),
    /// Draw a new shape that stays for the rest of the game.
    Spawn(Shape),
    /// Create the preview glyph, or replace its outline.
    SetPreview(Shape),
    /// Move the cursor, and the preview glyph with it, to a world position.
    MoveCursor(Point),
}

/// The whole game: the board's layout, the cursor and the ledger.
pub struct Game {
    pub config: Config,
    pub cursor: Cursor,
    pub ledger: Ledger,
}

pub ghost struct GameView {
    pub config: Config,
    pub cursor: Cell,
    pub ledger: LedgerView,
}

impl View for Game {
    type V = GameView;

    open spec fn view(&self) -> GameView {
        GameView { config: self.config, cursor: self.cursor.cell, ledger: self.ledger@ }
    }
}

impl GameView {
    pub open spec fn wf(self) -> bool {
        &&& self.config.wf()
        &&& self.config.contains(self.cursor)
        &&& self.ledger.wf(self.config)
    }
}

/// The game and the render requests after one key event. Releases and
/// unrecognized keys change nothing and ask for nothing. A direction moves
/// the cursor; a confirm places the active player's mark under the cursor,
/// passes the turn and swaps the preview glyph. Every recognized press then
/// republishes the cursor's world position, moved or not.
pub open spec fn event_spec(g: GameView, ev: KeyEvent) -> (GameView, Seq<RenderRequest>) {
    if !ev.pressed {
        (g, Seq::empty())
    } else {
        match action_of(ev.code) {
            None => (g, Seq::empty()),
            Some(Action::Confirm) => {
                let l = confirm_spec(g.ledger, g.cursor);
                let at = world_point(g.config, g.cursor);
                (
                    GameView { ledger: l, ..g },
                    seq![
                        RenderRequest::Spawn(
                            shape_spec(g.config, glyph_spec(g.ledger.active), at, FULL_OPACITY),
                        ),
                        RenderRequest::SetPreview(
                            shape_spec(g.config, glyph_spec(l.active), origin(), PREVIEW_OPACITY),
                        ),
                        RenderRequest::MoveCursor(at),
                    ],
                )
            },
            Some(a) => {
                let c = step(g.config, g.cursor, a);
                (
                    GameView { cursor: c, ..g },
                    seq![RenderRequest::MoveCursor(world_point(g.config, c))],
                )
            },
        }
    }
}

/// The game and the render requests after the events, handled in order.
pub open spec fn run_spec(g: GameView, events: Seq<KeyEvent>) -> (GameView, Seq<RenderRequest>)
    decreases events.len(),
{
    if events.len() == 0 {
        (g, Seq::empty())
    } else {
        let (mid, out) = run_spec(g, events.drop_last());
        let (next, more) = event_spec(mid, events.last());
        (next, out + more)
    }
}

/// What the render surface is asked for when a game starts: the grid lines,
/// then the first player's preview glyph, then the cursor on the centre cell.
pub open spec fn startup_spec(cfg: Config) -> Seq<RenderRequest> {
    let n = 2 * (cfg.grid_size - 1);
    Seq::new(n as nat, |i: int| {
        let b = bar_spec(cfg, i);
        RenderRequest::Bar(
            Rect { center: Point { x: b.0 as i64, y: b.1 as i64 }, width: b.2 as i64, height: b.3 as i64 },
        )
    }) + seq![
        RenderRequest::SetPreview(
            shape_spec(cfg, glyph_spec(initial_ledger().active), origin(), PREVIEW_OPACITY),
        ),
        RenderRequest::MoveCursor(world_point(cfg, cfg.center_cell())),
    ]
}

/// The number of events that are presses of the confirm key.
pub open spec fn confirm_presses(events: Seq<KeyEvent>) -> nat
    decreases events.len(),
{
    if events.len() == 0 {
        0
    } else {
        let e = events.last();
        confirm_presses(events.drop_last()) + if e.pressed && action_of(e.code) == Some(
            Action::Confirm,
        ) {
            1nat
        } else {
            0nat
        }
    }
}

/// Over any run of events, each confirm press adds exactly one mark and
/// nothing else does, the cursor stays on the board, and the turn follows the
/// number of marks: from the start of a game, after k confirm presses the
/// first player is active if k is even and the second if k is odd.
pub proof fn lemma_run_turns(g: GameView, events: Seq<KeyEvent>)
    requires
        g.wf(),
    ensures
        run_spec(g, events).0.wf(),
        run_spec(g, events).0.config == g.config,
        run_spec(g, events).0.ledger.marks.len() == g.ledger.marks.len() + confirm_presses(events),
        run_spec(g, events).0.ledger.active == (if (g.ledger.marks.len() + confirm_presses(events))
            % 2 == 0 {
            Player::First
        } else {
            Player::Second
        }),
    decreases events.len(),
{
    if events.len() > 0 {
        lemma_run_turns(g, events.drop_last());
        let mid = run_spec(g, events.drop_last()).0;
        let e = events.last();
        if e.pressed {
            match action_of(e.code) {
                Some(Action::Confirm) => {
                    lemma_confirm_keeps_wf(mid.config, mid.ledger, mid.cursor);
                },
                Some(a) => {
                    lemma_step_stays_on_board(mid.config, mid.cursor, a);
                },
                None => {},
            }
        }
    }
}

impl Game {
    /// A game on the given board, at its start.
    pub fn new(config: Config) -> (r: Game)
        requires
            config.wf(),
        ensures
            r@ == (GameView { config, cursor: config.center_cell(), ledger: initial_ledger() }),
            r@.wf(),
    {
        let cursor = Cursor::new(&config);
        Game { config, cursor, ledger: Ledger::new() }
    }

    /// The render requests that set up the board.
    pub fn startup(&self) -> (r: Vec<RenderRequest>)
        requires
            self@.wf(),
            self.ledger@ == initial_ledger(),
            self.cursor.cell == self.config.center_cell(),
        ensures
            r@ == startup_spec(self.config),
    {
        let bars = grid_bars(&self.config);
        let mut out: Vec<RenderRequest> = Vec::new();
        let mut i: usize = 0;
        while i < bars.len()
            invariant
                self.config.wf(),
                bars@.len() == 2 * (self.config.grid_size - 1),
                forall|j: int| 0 <= j < bars@.len() ==> rect_is(#[trigger] bars@[j], bar_spec(self.config, j)),
                i <= bars@.len(),
                out@ =~= startup_spec(self.config).take(i as int),
            decreases bars.len() - i,
        {
            out.push(RenderRequest::Bar(bars[i]));
            i = i + 1;
        }
        out.push(RenderRequest::SetPreview(self.ledger.preview(&self.config)));
        out.push(RenderRequest::MoveCursor(self.cursor.world_position(&self.config)));
        assert(out@ =~= startup_spec(self.config));
        out
    }

    /// Handles one key event and returns what it asks to be drawn.
    pub fn handle_event(&mut self, ev: KeyEvent) -> (r: Vec<RenderRequest>)
        requires
            old(self)@.wf(),
            old(self).ledger.marks@.len() < usize::MAX,
        ensures
            (final(self)@, r@) == event_spec(old(self)@, ev),
            final(self)@.wf(),
    {
        let mut out: Vec<RenderRequest> = Vec::new();
        if !ev.pressed {
            return out;
        }
        match classify(ev.code) {
            Err(_) => {},
            Ok(Action::Confirm) => {
                let at = self.cursor.world_position(&self.config);
                let placed: Placement = self.ledger.on_confirm(&self.config, self.cursor.cell);
                out.push(RenderRequest::Spawn(placed.mark));
                out.push(RenderRequest::SetPreview(placed.preview));
                out.push(RenderRequest::MoveCursor(at));
            },
            Ok(a) => {
                let at = self.cursor.apply(&self.config, a);
                out.push(RenderRequest::MoveCursor(at));
            },
        }
        proof {
            assert(out@ =~= event_spec(old(self)@, ev).1);
        }
        out
    }

    /// Handles a tick's key events in arrival order and returns everything
    /// they ask to be drawn, in order.
    pub fn tick(&mut self, events: &Vec<KeyEvent>) -> (r: Vec<RenderRequest>)
        requires
            old(self)@.wf(),
            old(self).ledger.marks@.len() + events@.len() < usize::MAX,
        ensures
            (final(self)@, r@) == run_spec(old(self)@, events@),
            final(self)@.wf(),
    {
        let ghost start = self@;
        let mut out: Vec<RenderRequest> = Vec::new();
        let mut i: usize = 0;
        while i < events.len()
            invariant
                start == old(self)@,
                start.wf(),
                self@.wf(),
                i <= events@.len(),
                self.ledger.marks@.len() <= start.ledger.marks.len() + i,
                start.ledger.marks.len() + events@.len() < usize::MAX,
                (self@, out@) == run_spec(start, events@.take(i as int)),
            decreases events.len() - i,
        {
            let mut more = self.handle_event(events[i]);
            proof {
                assert(events@.take(i as int + 1).drop_last() =~= events@.take(i as int));
            }
            out.append(&mut more);
            i = i + 1;
        }
        assert(events@.take(events@.len() as int) =~= events@);
        out
    }
}

} // verus!
