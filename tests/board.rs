use tictactoe::cursor::Cursor;
use tictactoe::grid::{cell_at, cell_to_world, grid_bars, world_bounds, Bounds, Cell, Config, Point, Rect};
use tictactoe::input::{classify, Action, UnrecognizedInput};
use tictactoe::symbol::{build_circle, build_cross, Diagonal, Outline, Rgb, Shape, FULL_OPACITY};

fn board() -> Config {
    Config::new(3, 100, 10).unwrap()
}

#[test]
fn classify_known_codes() {
    let cases = [
        (87, Action::Up),
        (38, Action::Up),
        (83, Action::Down),
        (40, Action::Down),
        (65, Action::Left),
        (37, Action::Left),
        (68, Action::Right),
        (39, Action::Right),
        (32, Action::Confirm),
    ];
    for (code, action) in cases {
        assert_eq!(classify(code), Ok(action));
    }
}

#[test]
fn classify_other_codes_unrecognized() {
    let known = [87u32, 38, 83, 40, 65, 37, 68, 39, 32];
    for code in 0u32..=1000 {
        if !known.contains(&code) {
            assert_eq!(classify(code), Err(UnrecognizedInput { code }));
        }
    }
    assert_eq!(classify(u32::MAX), Err(UnrecognizedInput { code: u32::MAX }));
}

#[test]
fn config_rejects_bad_sizes() {
    assert!(Config::new(0, 100, 10).is_none());
    assert!(Config::new(3, 0, 10).is_none());
    assert!(Config::new(1_000_001, 100, 10).is_none());
    assert!(Config::new(3, 1_000_001, 10).is_none());
    assert!(Config::new(3, 100, 1_000_001).is_none());
    let c = Config::new(1_000_000, 1_000_000, 0).unwrap();
    assert_eq!(c.grid_size, 1_000_000);
}

#[test]
fn cursor_starts_at_center() {
    let cfg = board();
    let c = Cursor::new(&cfg);
    assert_eq!(c.cell, Cell { row: 1, col: 1 });
    assert_eq!(c.world_position(&cfg), Point { x: 0, y: 0 });
    let even = Config::new(4, 10, 1).unwrap();
    assert_eq!(Cursor::new(&even).cell, Cell { row: 2, col: 2 });
}

#[test]
fn right_three_times_clamps_at_last_column() {
    let cfg = board();
    let mut c = Cursor::new(&cfg);
    c.apply(&cfg, Action::Right);
    c.apply(&cfg, Action::Right);
    let p = c.apply(&cfg, Action::Right);
    assert_eq!(c.cell, Cell { row: 1, col: 2 });
    assert_eq!(p, Point { x: 100, y: 0 });
}

#[test]
fn cursor_stays_on_board_for_long_walks() {
    let cfg = board();
    let dirs = [Action::Up, Action::Down, Action::Left, Action::Right, Action::Confirm];
    let mut c = Cursor::new(&cfg);
    let mut seed: u32 = 12345;
    for _ in 0..2000 {
        seed = seed.wrapping_mul(1103515245).wrapping_add(12345);
        let a = dirs[((seed >> 16) % 5) as usize];
        let before = c.cell;
        let p = c.apply(&cfg, a);
        assert!(c.cell.row < 3 && c.cell.col < 3);
        assert_eq!(p, cell_to_world(&cfg, c.cell));
        let moved = (c.cell.row as i64 - before.row as i64).abs()
            + (c.cell.col as i64 - before.col as i64).abs();
        assert!(moved <= 1);
    }
}

#[test]
fn cursor_moves_and_clamps_each_way() {
    let cfg = board();
    let mut c = Cursor { cell: Cell { row: 0, col: 0 } };
    assert_eq!(c.apply(&cfg, Action::Up), Point { x: -100, y: 100 });
    assert_eq!(c.apply(&cfg, Action::Left), Point { x: -100, y: 100 });
    assert_eq!(c.apply(&cfg, Action::Down), Point { x: -100, y: 0 });
    assert_eq!(c.apply(&cfg, Action::Down), Point { x: -100, y: -100 });
    assert_eq!(c.apply(&cfg, Action::Down), Point { x: -100, y: -100 });
    assert_eq!(c.apply(&cfg, Action::Confirm), Point { x: -100, y: -100 });
    assert_eq!(c.cell, Cell { row: 2, col: 0 });
}

#[test]
fn cell_to_world_values() {
    let cfg = board();
    assert_eq!(cell_to_world(&cfg, Cell { row: 1, col: 1 }), Point { x: 0, y: 0 });
    assert_eq!(cell_to_world(&cfg, Cell { row: 0, col: 1 }), Point { x: 0, y: 100 });
    assert_eq!(cell_to_world(&cfg, Cell { row: 0, col: 2 }), Point { x: 100, y: 100 });
    assert_eq!(cell_to_world(&cfg, Cell { row: 2, col: 0 }), Point { x: -100, y: -100 });
}

#[test]
fn cell_to_world_round_trip() {
    for n in [1u64, 2, 3, 4, 5] {
        let cfg = Config::new(n, 7, 1).unwrap();
        let mut seen = Vec::new();
        for row in 0..n {
            for col in 0..n {
                let c = Cell { row, col };
                let p = cell_to_world(&cfg, c);
                assert_eq!(cell_at(&cfg, p), Some(c));
                assert!(!seen.contains(&p));
                seen.push(p);
            }
        }
        assert_eq!(seen.len() as u64, n * n);
    }
}

#[test]
fn cell_at_off_centre_is_none() {
    let cfg = board();
    assert_eq!(cell_at(&cfg, Point { x: 50, y: 0 }), None);
    assert_eq!(cell_at(&cfg, Point { x: 0, y: 1 }), None);
    assert_eq!(cell_at(&cfg, Point { x: 200, y: 0 }), None);
    assert_eq!(cell_at(&cfg, Point { x: 0, y: -200 }), None);
    assert_eq!(cell_at(&cfg, Point { x: i64::MIN, y: i64::MAX }), None);
    assert_eq!(cell_at(&cfg, Point { x: -100, y: 100 }), Some(Cell { row: 0, col: 0 }));
}

#[test]
fn grid_bars_for_three_by_three() {
    let cfg = board();
    let bars = grid_bars(&cfg);
    // sixths of a world unit: 300 is 50, 1800 is 300, 60 is 10
    assert_eq!(
        bars,
        vec![
            Rect { center: Point { x: -300, y: 0 }, width: 60, height: 1800 },
            Rect { center: Point { x: 300, y: 0 }, width: 60, height: 1800 },
            Rect { center: Point { x: 0, y: 300 }, width: 1800, height: 60 },
            Rect { center: Point { x: 0, y: -300 }, width: 1800, height: 60 },
        ]
    );
}

#[test]
fn grid_bars_general_sizes() {
    let one = Config::new(1, 100, 10).unwrap();
    assert!(grid_bars(&one).is_empty());
    let four = Config::new(4, 6, 1).unwrap();
    let bars = grid_bars(&four);
    assert_eq!(bars.len(), 6);
    // columns sit at x = -12, -6, 0, 6; lines between them at -9, -3, 3
    assert_eq!(bars[0].center, Point { x: -54, y: 18 });
    assert_eq!(bars[1].center, Point { x: -18, y: 18 });
    assert_eq!(bars[2].center, Point { x: 18, y: 18 });
    // rows sit at y = 12, 6, 0, -6; lines between them at 9, 3, -3
    assert_eq!(bars[3].center, Point { x: -18, y: 54 });
    assert_eq!(bars[5].center, Point { x: -18, y: -18 });
    assert_eq!(bars[3].width, 144);
}

#[test]
fn circle_glyph_geometry() {
    let cfg = board();
    let s = build_circle(&cfg, Point { x: 0, y: 100 }, FULL_OPACITY);
    assert_eq!(
        s,
        Shape {
            outline: Outline::Circle { center: Point { x: 0, y: 600 }, radius: 200 },
            color: Rgb { red: 0, green: 0, blue: 0 },
            stroke_width: 60,
            opacity: 100,
        }
    );
}

#[test]
fn cross_glyph_geometry() {
    let cfg = board();
    let s = build_cross(&cfg, Point { x: 100, y: 100 }, 20);
    // half diagonal a third of the slot: 100 / 3 world units, 200 sixths
    assert_eq!(
        s.outline,
        Outline::Cross {
            first: Diagonal { center: Point { x: 600, y: 600 }, half_diagonal: 200, rising: true },
            second: Diagonal { center: Point { x: 600, y: 600 }, half_diagonal: 200, rising: false },
        }
    );
    assert_eq!(s.color, Rgb { red: 0, green: 0, blue: 0 });
    assert_eq!(s.opacity, 20);
    assert_eq!(s.stroke_width, 60);
}

#[test]
fn world_bounds_span_the_cell_centres() {
    assert_eq!(
        world_bounds(&board()),
        Bounds { min_x: -100, max_x: 100, min_y: -100, max_y: 100 }
    );
    let four = Config::new(4, 10, 1).unwrap();
    assert_eq!(world_bounds(&four), Bounds { min_x: -20, max_x: 10, min_y: -10, max_y: 20 });
    let one = Config::new(1, 10, 1).unwrap();
    assert_eq!(world_bounds(&one), Bounds { min_x: 0, max_x: 0, min_y: 0, max_y: 0 });
}
