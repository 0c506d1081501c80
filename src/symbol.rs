use vstd::prelude::*;
use crate::grid::{Config, Point, in_range};

verus! {

/// The two glyphs a mark can be drawn with.
#[derive(Clone, Copy, Debug, PartialEq, Eq, Structural)]
pub enum Glyph {
    Cross,
    Circle,
}

/// A diagonal stroke of the square around a glyph, from one corner through
/// the centre to the opposite corner. Each corner is `half_diagonal` away
/// from the centre, on the line of slope +1 if `rising`, else of slope −1.
#[derive(Clone, Copy, Debug, PartialEq, Eq, Structural)]
pub struct Diagonal {
    pub center: Point,
    pub half_diagonal: i64,
    pub rising: bool,
}

/// The strokes of a glyph, in sixths of a world unit.
#[derive(Clone, Copy, Debug, PartialEq, Eq, Structural)]
pub enum Outline {
    Circle { center: Point, radius: i64 },
    Cross { first: Diagonal, second: Diagonal },
}

/// A colour as red, green and blue components.
#[derive(Clone, Copy, Debug, PartialEq, Eq, Structural)]
pub struct Rgb {
    pub red: u8,
    pub green: u8,
    pub blue: u8,
}

/// The colour of every glyph.
pub open spec fn black() -> Rgb {
    Rgb { red: 0, green: 0, blue: 0 }
}

/// An outline with the colour and width of its strokes (the width in sixths
/// of a world unit) and its opacity in percent.
#[derive(Clone, Copy, Debug, PartialEq, Eq, Structural)]
pub struct Shape {
    pub outline: Outline,
    pub color: Rgb,
    pub stroke_width: i64,
    pub opacity: u8,
}

/// The opacity of a placed mark.
pub const FULL_OPACITY: u8 = 100;

/// The opacity of the preview glyph that follows the cursor.
pub const PREVIEW_OPACITY: u8 = 20;

/// A point given in world units, in sixths of a world unit.
pub open spec fn fine(p: Point) -> Point {
    Point { x: (6 * p.x) as i64, y: (6 * p.y) as i64 }
}

/// The radius of a circle and the half diagonal of a cross: a third of a
/// slot, that is twice the slot size in sixths.
pub open spec fn glyph_extent(cfg: Config) -> int {
    2 * cfg.slot_size
}

pub open spec fn circle_spec(cfg: Config, center: Point) -> Outline {
    Outline::Circle { center: fine(center), radius: glyph_extent(cfg) as i64 }
}

/// The stroke from the lower left to the upper right corner of the glyph square.
pub open spec fn rising_spec(cfg: Config, center: Point) -> Diagonal {
    Diagonal { center: fine(center), half_diagonal: glyph_extent(cfg) as i64, rising: true }
}

/// The stroke from the lower right to the upper left corner of the glyph square.
pub open spec fn falling_spec(cfg: Config, center: Point) -> Diagonal {
    Diagonal { center: fine(center), half_diagonal: glyph_extent(cfg) as i64, rising: false }
}

pub open spec fn cross_spec(cfg: Config, center: Point) -> Outline {
    Outline::Cross { first: rising_spec(cfg, center), second: falling_spec(cfg, center) }
}

pub open spec fn outline_spec(cfg: Config, glyph: Glyph, center: Point) -> Outline {
    match glyph {
        Glyph::Cross => cross_spec(cfg, center),
        Glyph::Circle => circle_spec(cfg, center),
    }
}

pub open spec fn shape_spec(cfg: Config, glyph: Glyph, center: Point, opacity: u8) -> Shape {
    Shape {
        outline: outline_spec(cfg, glyph, center),
        color: black(),
        stroke_width: (6 * cfg.bar_thickness) as i64,
        opacity,
    }
}

/// The circle glyph centred on a point.
pub fn circle_outline(cfg: &Config, center: Point) -> (r: Outline)
    requires
        cfg.wf(),
        in_range(center),
    ensures
        r == circle_spec(*cfg, center),
{
    Outline::Circle {
        center: Point { x: 6 * center.x, y: 6 * center.y },
        radius: 2 * cfg.slot_size as i64,
    }
}

/// The rising diagonal of the cross glyph centred on a point.
pub fn rising_diagonal(cfg: &Config, center: Point) -> (r: Diagonal)
    requires
        cfg.wf(),
        in_range(center),
    ensures
        r == rising_spec(*cfg, center),
{
    Diagonal {
        center: Point { x: 6 * center.x, y: 6 * center.y },
        half_diagonal: 2 * cfg.slot_size as i64,
        rising: true,
    }
}

/// The falling diagonal of the cross glyph centred on a point.
pub fn falling_diagonal(cfg: &Config, center: Point) -> (r: Diagonal)
    requires
        cfg.wf(),
        in_range(center),
    ensures
        r == falling_spec(*cfg, center),
{
    Diagonal {
        center: Point { x: 6 * center.x, y: 6 * center.y },
        half_diagonal: 2 * cfg.slot_size as i64,
        rising: false,
    }
}

/// The outline of a glyph centred on a point.
pub fn glyph_outline(cfg: &Config, glyph: Glyph, center: Point) -> (r: Outline)
    requires
        cfg.wf(),
        in_range(center),
    ensures
        r == outline_spec(*cfg, glyph, center),
{
    match glyph {
        Glyph::Cross => Outline::Cross {
            first: rising_diagonal(cfg, center),
            second: falling_diagonal(cfg, center),
        },
        Glyph::Circle => circle_outline(cfg, center),
    }
}

/// A glyph centred on a point, stroked as thick as the grid lines, at the
/// given opacity.
pub fn build_glyph(cfg: &Config, glyph: Glyph, center: Point, opacity: u8) -> (r: Shape)
    requires
        cfg.wf(),
        in_range(center),
    ensures
        r == shape_spec(*cfg, glyph, center, opacity),
{
    Shape {
        outline: glyph_outline(cfg, glyph, center),
        color: Rgb { red: 0, green: 0, blue: 0 },
        stroke_width: 6 * cfg.bar_thickness as i64,
        opacity,
    }
}

/// A circle centred on a point.
pub fn build_circle(cfg: &Config, center: Point, opacity: u8) -> (r: Shape)
    requires
        cfg.wf(),
        in_range(center),
    ensures
        r == shape_spec(*cfg, Glyph::Circle, center, opacity),
{
    build_glyph(cfg, Glyph::Circle, center, opacity)
}

/// A cross centred on a point.
pub fn build_cross(cfg: &Config, center: Point, opacity: u8) -> (r: Shape)
    requires
        cfg.wf(),
        in_range(center),
    ensures
        r == shape_spec(*cfg, Glyph::Cross, center, opacity),
{
    build_glyph(cfg, Glyph::Cross, center, opacity)
}

} // verus!
