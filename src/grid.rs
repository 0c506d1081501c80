use vstd::prelude::*;

verus! {

/// The largest grid size, slot size or bar thickness a configuration accepts,
/// so that every coordinate of the board fits an `i64`.
pub const MAX_DIMENSION: u64 = 1_000_000;

/// Shapes are laid out in sixths of a world unit, so that half a slot (where
/// the grid lines stand) and a third of a slot (the glyph size) are exact.
pub const FINE_PER_UNIT: i64 = 6;

/// The fixed layout of the board: an N×N grid of square slots.
#[derive(Clone, Copy, Debug, PartialEq, Eq, Structural)]
pub struct Config {
    pub grid_size: u64,
    pub slot_size: u64,
    pub bar_thickness: u64,
}

/// One cell of the grid; row 0 is the top row, column 0 the leftmost.
#[derive(Clone, Copy, Debug, PartialEq, Eq, Structural)]
pub struct Cell {
    pub row: u64,
    pub col: u64,
}

/// A point of the plane, with y growing upwards.
#[derive(Clone, Copy, Debug, PartialEq, Eq, Structural)]
pub struct Point {
    pub x: i64,
    pub y: i64,
}

/// An axis-aligned filled rectangle, in sixths of a world unit.
#[derive(Clone, Copy, Debug, PartialEq, Eq, Structural)]
pub struct Rect {
    pub center: Point,
    pub width: i64,
    pub height: i64,
}

impl Config {
    pub open spec fn wf(self) -> bool {
        &&& 0 < self.grid_size <= MAX_DIMENSION
        &&& 0 < self.slot_size <= MAX_DIMENSION
        &&& self.bar_thickness <= MAX_DIMENSION
    }

    /// Whether a cell lies on the board.
    pub open spec fn contains(self, c: Cell) -> bool {
        c.row < self.grid_size && c.col < self.grid_size
    }

    pub open spec fn half(self) -> int {
        self.grid_size as int / 2
    }

    /// The centre cell, which sits at the origin.
    pub open spec fn center_cell(self) -> Cell {
        Cell { row: (self.grid_size / 2) as u64, col: (self.grid_size / 2) as u64 }
    }

    /// A configuration, or `None` where a size is zero or above `MAX_DIMENSION`.
    pub fn new(grid_size: u64, slot_size: u64, bar_thickness: u64) -> (r: Option<Config>)
        ensures
            r matches Some(c) ==> c.wf() && c.grid_size == grid_size && c.slot_size == slot_size
                && c.bar_thickness == bar_thickness,
            r is None <==> !(Config { grid_size, slot_size, bar_thickness }).wf(),
    {
        if 0 < grid_size && grid_size <= MAX_DIMENSION && 0 < slot_size && slot_size
            <= MAX_DIMENSION && bar_thickness <= MAX_DIMENSION {
            Some(Config { grid_size, slot_size, bar_thickness })
        } else {
            None
        }
    }

    /// The centre cell of the board.
    pub fn center(&self) -> (r: Cell)
        ensures
            r == self.center_cell(),
    {
        Cell { row: self.grid_size / 2, col: self.grid_size / 2 }
    }
}

/// The world x of a column: the centre column sits at 0, neighbours one slot apart.
pub open spec fn column_x(cfg: Config, col: int) -> int {
    (col - cfg.half()) * cfg.slot_size
}

/// The world y of a row: the centre row sits at 0, rows above it at positive y.
pub open spec fn row_y(cfg: Config, row: int) -> int {
    (cfg.half() - row) * cfg.slot_size
}

/// The world position of the centre of a cell, as a pair of integers.
pub open spec fn world_of(cfg: Config, c: Cell) -> (int, int) {
    (column_x(cfg, c.col as int), row_y(cfg, c.row as int))
}

/// The world position of the centre of a cell, as a point.
pub open spec fn world_point(cfg: Config, c: Cell) -> Point {
    Point { x: column_x(cfg, c.col as int) as i64, y: row_y(cfg, c.row as int) as i64 }
}

/// Whether a point stands at the given coordinates.
pub open spec fn point_is(p: Point, xy: (int, int)) -> bool {
    p.x as int == xy.0 && p.y as int == xy.1
}

/// The largest coordinate of a cell centre on any board a configuration accepts.
pub const MAX_COORD: i64 = 1_000_000_000_000;

/// Whether both coordinates of a point are at most `MAX_COORD` in size.
pub open spec fn in_range(p: Point) -> bool {
    -MAX_COORD <= p.x <= MAX_COORD && -MAX_COORD <= p.y <= MAX_COORD
}

proof fn lemma_coordinate_bound(cfg: Config, k: int)
    requires
        cfg.wf(),
        0 <= k < cfg.grid_size,
    ensures
        -1_000_000_000_000 <= (k - cfg.half()) * cfg.slot_size <= 1_000_000_000_000,
        -1_000_000_000_000 <= (cfg.half() - k) * cfg.slot_size <= 1_000_000_000_000,
{
    let d = k - cfg.half();
    let s = cfg.slot_size as int;
    assert(-1_000_000 <= d <= 1_000_000);
    assert(-1_000_000_000_000 <= d * s <= 1_000_000_000_000) by (nonlinear_arith)
        requires
            -1_000_000 <= d <= 1_000_000,
            0 < s <= 1_000_000,
    ;
    let h = cfg.half();
    assert((h - k) * s == -(d * s)) by (nonlinear_arith)
        requires d == k - h;
}

/// The world position of the centre of a cell.
pub fn cell_to_world(cfg: &Config, c: Cell) -> (r: Point)
    requires
        cfg.wf(),
        cfg.contains(c),
    ensures
        point_is(r, world_of(*cfg, c)),
        r == world_point(*cfg, c),
        in_range(r),
{
    proof {
        lemma_coordinate_bound(*cfg, c.col as int);
        lemma_coordinate_bound(*cfg, c.row as int);
    }
    let half = (cfg.grid_size / 2) as i64;
    let s = cfg.slot_size as i64;
    Point { x: (c.col as i64 - half) * s, y: (half - c.row as i64) * s }
}

/// The extent of the cell centres of the board: the cursor's world position
/// never leaves it.
#[derive(Clone, Copy, Debug, PartialEq, Eq, Structural)]
pub struct Bounds {
    pub min_x: i64,
    pub max_x: i64,
    pub min_y: i64,
    pub max_y: i64,
}

/// The leftmost and rightmost columns, the bottom and top rows.
pub open spec fn bounds_spec(cfg: Config) -> (int, int, int, int) {
    let last = cfg.grid_size - 1;
    (column_x(cfg, 0), column_x(cfg, last), row_y(cfg, last), row_y(cfg, 0))
}

/// The smallest and largest x and y of a cell centre.
pub fn world_bounds(cfg: &Config) -> (r: Bounds)
    requires
        cfg.wf(),
    ensures
        (r.min_x as int, r.max_x as int, r.min_y as int, r.max_y as int) == bounds_spec(*cfg),
{
    let last = cfg.grid_size - 1;
    let low = cell_to_world(cfg, Cell { row: last, col: 0 });
    let high = cell_to_world(cfg, Cell { row: 0, col: last });
    Bounds { min_x: low.x, max_x: high.x, min_y: low.y, max_y: high.y }
}

/// Every cell centre lies within the bounds of the board.
pub proof fn lemma_cell_within_bounds(cfg: Config, c: Cell)
    requires
        cfg.wf(),
        cfg.contains(c),
    ensures
        bounds_spec(cfg).0 <= world_of(cfg, c).0 <= bounds_spec(cfg).1,
        bounds_spec(cfg).2 <= world_of(cfg, c).1 <= bounds_spec(cfg).3,
{
    lemma_monotone(cfg, c.col as int);
    lemma_monotone(cfg, c.row as int);
    lemma_offset(cfg, 0);
    lemma_offset(cfg, cfg.grid_size - 1);
}

/// The cell whose centre is the given point, if there is one.
pub fn cell_at(cfg: &Config, p: Point) -> (r: Option<Cell>)
    requires
        cfg.wf(),
    ensures
        r matches Some(c) ==> cfg.contains(c) && point_is(p, world_of(*cfg, c)),
        r is None ==> forall|c: Cell| cfg.contains(c) ==> !point_is(p, world_of(*cfg, c)),
        forall|c: Cell| cfg.contains(c) && point_is(p, world_of(*cfg, c)) ==> r == Some(c),
{
    let half = (cfg.grid_size / 2) as i64;
    let s = cfg.slot_size as i64;
    let last = (cfg.grid_size - 1) as i64;
    proof {
        lemma_coordinate_bound(*cfg, 0);
        lemma_coordinate_bound(*cfg, last as int);
        assert(half * s <= 1_000_000_000_000) by (nonlinear_arith)
            requires 0 <= half <= 1_000_000, 0 < s <= 1_000_000;
        assert(last * s <= 1_000_000_000_000) by (nonlinear_arith)
            requires 0 <= last <= 1_000_000, 0 < s <= 1_000_000;
    }
    let lo = -(half * s);
    let hi = (last - half) * s;
    if p.x < lo || p.x > hi || p.y < -hi || p.y > -lo {
        proof {
            assert forall|c: Cell| cfg.contains(c) implies !point_is(p, world_of(*cfg, c)) by {
                lemma_monotone(*cfg, c.col as int);
                lemma_monotone(*cfg, c.row as int);
            }
        }
        return None;
    }
    let dx = p.x + half * s;
    let dy = half * s - p.y;
    if dx % s != 0 || dy % s != 0 {
        proof {
            assert forall|c: Cell| cfg.contains(c) implies !point_is(p, world_of(*cfg, c)) by {
                if point_is(p, world_of(*cfg, c)) {
                    lemma_offset(*cfg, c.col as int);
                    lemma_offset(*cfg, c.row as int);
                    assert(dx == c.col as int * s);
                    assert(dy == c.row as int * s);
                    vstd::arithmetic::div_mod::lemma_mod_multiples_basic(c.col as int, s as int);
                    vstd::arithmetic::div_mod::lemma_mod_multiples_basic(c.row as int, s as int);
                }
            }
        }
        return None;
    }
    let col = dx / s;
    let row = dy / s;
    proof {
        vstd::arithmetic::div_mod::lemma_fundamental_div_mod(dx as int, s as int);
        vstd::arithmetic::div_mod::lemma_fundamental_div_mod(dy as int, s as int);
        assert(col * s == dx) by (nonlinear_arith)
            requires dx == s * col + 0;
        assert(row * s == dy) by (nonlinear_arith)
            requires dy == s * row + 0;
        assert((last - half) * s + half * s == last * s) by (nonlinear_arith);
        assert(0 <= col <= last) by (nonlinear_arith)
            requires col * s == dx, 0 <= dx <= last * s, 0 < s;
        assert(0 <= row <= last) by (nonlinear_arith)
            requires row * s == dy, 0 <= dy <= last * s, 0 < s;
        lemma_offset(*cfg, col as int);
        lemma_offset(*cfg, row as int);
    }
    let found = Cell { row: row as u64, col: col as u64 };
    proof {
        assert forall|c: Cell| cfg.contains(c) && point_is(p, world_of(*cfg, c)) implies Some(found)
            == Some(c) by {
            lemma_cell_to_world_injective(*cfg, found, c);
        }
    }
    Some(found)
}

/// Cells of the board have pairwise distinct world positions, so that
/// `cell_to_world` is a bijection from the N² cells onto their centres, and
/// the only cell whose centre is `cell_to_world(c)` is `c` itself.
pub proof fn lemma_cell_to_world_injective(cfg: Config, a: Cell, b: Cell)
    requires
        cfg.wf(),
        cfg.contains(a),
        cfg.contains(b),
        world_of(cfg, a) == world_of(cfg, b),
    ensures
        a == b,
{
    let s = cfg.slot_size as int;
    let h = cfg.half();
    let (ac, bc, ar, br) = (a.col as int, b.col as int, a.row as int, b.row as int);
    assert(ac == bc) by (nonlinear_arith)
        requires (ac - h) * s == (bc - h) * s, s > 0;
    assert(ar == br) by (nonlinear_arith)
        requires (h - ar) * s == (h - br) * s, s > 0;
}

/// Column and row positions grow and shrink one slot per step.
proof fn lemma_offset(cfg: Config, k: int)
    ensures
        column_x(cfg, k) == k * cfg.slot_size - cfg.half() * cfg.slot_size,
        row_y(cfg, k) == cfg.half() * cfg.slot_size - k * cfg.slot_size,
{
    assert((k - cfg.half()) * cfg.slot_size == k * cfg.slot_size - cfg.half() * cfg.slot_size)
        by (nonlinear_arith);
    assert((cfg.half() - k) * cfg.slot_size == cfg.half() * cfg.slot_size - k * cfg.slot_size)
        by (nonlinear_arith);
}

/// Every cell centre lies within the span of the first and last cell centres.
proof fn lemma_monotone(cfg: Config, k: int)
    requires
        cfg.wf(),
        0 <= k < cfg.grid_size,
    ensures
        -(cfg.half() * cfg.slot_size) <= column_x(cfg, k) <= (cfg.grid_size - 1 - cfg.half())
            * cfg.slot_size,
        -((cfg.grid_size - 1 - cfg.half()) * cfg.slot_size) <= row_y(cfg, k) <= cfg.half()
            * cfg.slot_size,
{
    let s = cfg.slot_size as int;
    let h = cfg.half();
    let n = cfg.grid_size as int;
    assert(-(h * s) <= (k - h) * s <= (n - 1 - h) * s) by (nonlinear_arith)
        requires 0 <= k <= n - 1, 0 < s;
    assert(-((n - 1 - h) * s) <= (h - k) * s <= h * s) by (nonlinear_arith)
        requires 0 <= k <= n - 1, 0 < s, 0 <= h, 2 * h <= n;
}

/// One line of the board, as (centre x, centre y, width, height) in sixths of
/// a world unit. The first N−1 are the vertical lines between columns k−1 and
/// k, left to right; the next N−1 the horizontal lines between rows k−1 and k,
/// top to bottom. Each spans the whole board and is `bar_thickness` wide.
pub open spec fn bar_spec(cfg: Config, i: int) -> (int, int, int, int) {
    let n = cfg.grid_size as int;
    let h = cfg.half();
    let s = cfg.slot_size as int;
    let t = cfg.bar_thickness as int;
    let m = n - 1;
    if i < m {
        let k = i + 1;
        ((6 * (k - h) - 3) * s, (6 * h - 3 * m) * s, 6 * t, 6 * n * s)
    } else {
        let k = i - m + 1;
        ((3 * m - 6 * h) * s, (6 * (h - k) + 3) * s, 6 * n * s, 6 * t)
    }
}

pub open spec fn rect_is(r: Rect, b: (int, int, int, int)) -> bool {
    &&& r.center.x as int == b.0
    &&& r.center.y as int == b.1
    &&& r.width as int == b.2
    &&& r.height as int == b.3
}

proof fn lemma_scaled(a: int, s: int)
    requires
        -7_000_000 <= a <= 7_000_000,
        0 <= s <= 1_000_000,
    ensures
        -7_000_000_000_000 <= a * s <= 7_000_000_000_000,
{
    assert(-7_000_000_000_000 <= a * s <= 7_000_000_000_000) by (nonlinear_arith)
        requires -7_000_000 <= a <= 7_000_000, 0 <= s <= 1_000_000;
}

/// The line of the board at position `i` of `grid_bars`.
fn bar_at(cfg: &Config, i: u64) -> (r: Rect)
    requires
        cfg.wf(),
        i < 2 * (cfg.grid_size - 1),
    ensures
        rect_is(r, bar_spec(*cfg, i as int)),
{
    let n = cfg.grid_size as i64;
    let h = (cfg.grid_size / 2) as i64;
    let s = cfg.slot_size as i64;
    let t = cfg.bar_thickness as i64;
    let m = n - 1;
    let ii = i as i64;
    proof {
        lemma_scaled(6 * n as int, s as int);
        lemma_scaled(3 * m as int - 6 * h as int, s as int);
        lemma_scaled(6 * h as int - 3 * m as int, s as int);
    }
    if ii < m {
        let k = ii + 1;
        proof {
            lemma_scaled(6 * (k as int - h as int) - 3, s as int);
        }
        Rect {
            center: Point { x: (6 * (k - h) - 3) * s, y: (6 * h - 3 * m) * s },
            width: 6 * t,
            height: 6 * n * s,
        }
    } else {
        let k = ii - m + 1;
        proof {
            lemma_scaled(6 * (h as int - k as int) + 3, s as int);
        }
        Rect {
            center: Point { x: (3 * m - 6 * h) * s, y: (6 * (h - k) + 3) * s },
            width: 6 * n * s,
            height: 6 * t,
        }
    }
}

/// The lines drawn between the cells of the board: N−1 vertical ones, then
/// N−1 horizontal ones (two of each on a 3×3 board).
pub fn grid_bars(cfg: &Config) -> (r: Vec<Rect>)
    requires
        cfg.wf(),
    ensures
        r@.len() == 2 * (cfg.grid_size - 1),
        forall|i: int| 0 <= i < r@.len() ==> rect_is(#[trigger] r@[i], bar_spec(*cfg, i)),
{
    let total = 2 * (cfg.grid_size - 1);
    let mut bars: Vec<Rect> = Vec::new();
    let mut i: u64 = 0;
    while i < total
        invariant
            cfg.wf(),
            total == 2 * (cfg.grid_size - 1),
            i <= total,
            bars@.len() == i,
            forall|j: int| 0 <= j < i ==> rect_is(#[trigger] bars@[j], bar_spec(*cfg, j)),
        decreases total - i,
    {
        let b = bar_at(cfg, i);
        bars.push(b);
        i = i + 1;
    }
    bars
}

} // verus!
