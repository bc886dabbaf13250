use vstd::prelude::*;
use vstd::string::StringExecFns;

use crate::axes::Axes;
use crate::fixed::{abs, MAX_SPAN, MAX_WORLD, UNIT};
use crate::grid::Grid;
use crate::text::{digits, numbered};

verus! {

/// Relies on rand's `random`, which draws from the thread-local generator:
/// any value of `T` may come back, so nothing is stated of it. The
/// generator panics only if the operating system cannot seed it.
pub assume_specification<T>[ rand::random::<T> ]() -> (r: T)
    where
        rand::distr::StandardUniform: rand::distr::Distribution<T>,
;

/// A position in the plane, in millionths.
#[derive(Clone, Copy, Debug, PartialEq, Eq, Structural)]
pub struct Position2D {
    pub x: i64,
    pub y: i64,
}

/// An sRGB colour with alpha; each channel in millionths, `UNIT` being full.
#[derive(Clone, Copy, Debug, PartialEq, Eq, Structural)]
pub struct Rgba {
    pub red: i64,
    pub green: i64,
    pub blue: i64,
    pub alpha: i64,
}

impl Rgba {
    /// Opaque white.
    pub fn white() -> (r: Rgba)
        ensures
            r == (Rgba { red: UNIT, green: UNIT, blue: UNIT, alpha: UNIT }),
    {
        Rgba { red: UNIT, green: UNIT, blue: UNIT, alpha: UNIT }
    }
}

/// What every drawable object carries: an id, whether it is shown, and the
/// layer it is drawn in (lower is further back).
#[derive(Debug)]
pub struct MathObject {
    pub id: String,
    pub visible: bool,
    pub layer: i32,
}

/// How an object is stroked and filled.
#[derive(Clone, Copy, Debug, PartialEq, Eq, Structural)]
pub struct Style {
    pub stroke_color: Rgba,
    pub fill_color: Option<Rgba>,
    /// Stroke width, in millionths of a pixel.
    pub stroke_width: i64,
    pub opacity: i64,
}

impl Default for Style {
    /// A white stroke two pixels wide, no fill, opaque.
    fn default() -> (r: Style)
        ensures
            r == (Style {
                stroke_color: Rgba { red: UNIT, green: UNIT, blue: UNIT, alpha: UNIT },
                fill_color: None,
                stroke_width: (2 * UNIT) as i64,
                opacity: UNIT,
            }),
    {
        Style { stroke_color: Rgba::white(), fill_color: None, stroke_width: 2 * UNIT, opacity: UNIT }
    }
}

/// The kinds of drawable object.
#[derive(Clone, Copy, Debug, PartialEq, Eq, Structural)]
pub enum MathObjectType {
    Circle,
    Line,
    Rectangle,
    FunctionGraph,
    Axes,
    Text,
}

/// A circle around its object's position.
#[derive(Clone, Copy, Debug, PartialEq, Eq, Structural)]
pub struct MathCircle {
    pub radius: i64,
    pub color: Rgba,
    pub filled: bool,
    /// Number of segments to draw it with; `None` lets the renderer choose.
    pub resolution: Option<u32>,
}

impl Default for MathCircle {
    /// A filled white circle of radius 1.
    fn default() -> (r: MathCircle)
        ensures
            r == (MathCircle {
                radius: UNIT,
                color: Rgba { red: UNIT, green: UNIT, blue: UNIT, alpha: UNIT },
                filled: true,
                resolution: None,
            }),
    {
        MathCircle { radius: UNIT, color: Rgba::white(), filled: true, resolution: None }
    }
}

/// A line segment between two points.
#[derive(Clone, Copy, Debug, PartialEq, Eq, Structural)]
pub struct Line {
    pub start: Position2D,
    pub end: Position2D,
}

/// An axis-aligned rectangle around its object's position.
#[derive(Clone, Copy, Debug, PartialEq, Eq, Structural)]
pub struct Rectangle {
    pub width: i64,
    pub height: i64,
}

impl Default for Rectangle {
    /// Two units wide, one unit high.
    fn default() -> (r: Rectangle)
        ensures
            r == (Rectangle { width: (2 * UNIT) as i64, height: UNIT }),
    {
        Rectangle { width: 2 * UNIT, height: UNIT }
    }
}

/// A drawable object with its shape, position and style, ready to be added
/// to a scene.
#[derive(Debug)]
pub struct MathEntity<T> {
    pub object: MathObject,
    pub shape: T,
    pub position: Position2D,
    pub style: Style,
}

/// `prefix` followed by some number, as the ids of new objects are made.
pub open spec fn is_id_with_prefix(id: Seq<char>, prefix: Seq<char>) -> bool {
    exists|n: nat| n <= u32::MAX && id == prefix + #[trigger] digits(n)
}

/// A fresh id: `prefix` followed by a random number.
pub(crate) fn fresh_id(prefix: &str) -> (r: String)
    ensures
        is_id_with_prefix(r@, prefix@),
{
    let n: u32 = rand::random::<u32>();
    let r = numbered(prefix, n);
    assert(r@ == prefix@ + digits(n as nat));
    r
}

/// The midpoint of `a` and `b`, rounded down.
pub open spec fn midpoint(a: int, b: int) -> int {
    (a + b) / 2
}

fn midpoint_of(a: i64, b: i64) -> (r: i64)
    ensures
        r == midpoint(a as int, b as int),
{
    let s: i128 = a as i128 + b as i128;
    if s >= 0 {
        ((s as u128) / 2) as i64
    } else {
        let q: u128 = (-s + 1) as u128 / 2;
        assert(-(q as int) == s / 2) by (nonlinear_arith)
            requires
                q == (-s + 1) / 2,
                s < 0,
        ;
        (-(q as i128)) as i64
    }
}

/// Axes as `create_axes_with_labels` makes them, before the id.
pub open spec fn spec_new_axes(
    x_range: (i64, i64),
    y_range: (i64, i64),
    x_label: Seq<char>,
    y_label: Seq<char>,
    axes: Axes,
) -> bool {
    &&& axes.x_range == x_range
    &&& axes.y_range == y_range
    &&& axes.show_numbers
    &&& axes.show_arrows
    &&& axes.tick_spacing == UNIT
    &&& axes.x_label@ == x_label
    &&& axes.y_label@ == y_label
    &&& axes.base_range.0 == abs(x_range.1 - x_range.0)
    &&& axes.base_range.1 == abs(y_range.1 - y_range.0)
}

/// Ranges that axes can be made from: within the projectable world and no
/// wider than `MAX_SPAN`.
pub open spec fn ranges_ok(x_range: (i64, i64), y_range: (i64, i64)) -> bool {
    &&& -MAX_WORLD <= x_range.0 <= MAX_WORLD
    &&& -MAX_WORLD <= x_range.1 <= MAX_WORLD
    &&& -MAX_WORLD <= y_range.0 <= MAX_WORLD
    &&& -MAX_WORLD <= y_range.1 <= MAX_WORLD
    &&& abs(x_range.1 - x_range.0) <= MAX_SPAN
    &&& abs(y_range.1 - y_range.0) <= MAX_SPAN
}

/// New axes over the given ranges, named `x_label` and `y_label`, ticks one
/// unit apart; the ranges' widths become the reference extent. They sit in
/// layer -1, at the origin, with an id `axes_<number>`.
pub fn create_axes_with_labels(
    x_range: (i64, i64),
    y_range: (i64, i64),
    x_label: String,
    y_label: String,
    style: Style,
) -> (r: MathEntity<Axes>)
    requires
        ranges_ok(x_range, y_range),
    ensures
        spec_new_axes(x_range, y_range, x_label@, y_label@, r.shape),
        r.shape.wf(),
        is_id_with_prefix(r.object.id@, "axes_"@),
        r.object.visible && r.object.layer == -1,
        r.position == (Position2D { x: 0, y: 0 }),
        r.style == style,
{
    let wx: i64 = x_range.1 - x_range.0;
    let wy: i64 = y_range.1 - y_range.0;
    let base_x: i64 = if wx < 0 {
        -wx
    } else {
        wx
    };
    let base_y: i64 = if wy < 0 {
        -wy
    } else {
        wy
    };
    MathEntity {
        object: MathObject { id: fresh_id("axes_"), visible: true, layer: -1 },
        shape: Axes {
            x_range,
            y_range,
            show_numbers: true,
            tick_spacing: UNIT,
            x_label,
            y_label,
            show_arrows: true,
            base_range: (base_x, base_y),
        },
        position: Position2D { x: 0, y: 0 },
        style,
    }
}

/// New axes as `create_axes_with_labels` makes them, named `x` and `y`.
pub fn create_axes(x_range: (i64, i64), y_range: (i64, i64), style: Style) -> (r: MathEntity<Axes>)
    requires
        ranges_ok(x_range, y_range),
    ensures
        spec_new_axes(x_range, y_range, seq!['x'], seq!['y'], r.shape),
        r.shape.wf(),
        is_id_with_prefix(r.object.id@, "axes_"@),
        r.object.visible && r.object.layer == -1,
        r.position == (Position2D { x: 0, y: 0 }),
        r.style == style,
{
    proof {
        reveal_strlit("x");
        reveal_strlit("y");
    }
    assert("x"@ =~= seq!['x']);
    assert("y"@ =~= seq!['y']);
    create_axes_with_labels(x_range, y_range, String::from_str("x"), String::from_str("y"), style)
}

/// A new grid of the given spacing (see `Grid::new`), in layer -2 behind
/// everything, with an id `grid_<number>`.
pub fn create_grid(spacing: i64, style: Style) -> (r: MathEntity<Grid>)
    requires
        5 <= spacing <= MAX_SPAN,
    ensures
        r.shape.wf(),
        r.shape == Grid::spec_new(spacing as int),
        r.shape.spacing == spacing && r.shape.base_spacing == spacing,
        r.shape.minor_spacing == spacing / 5,
        r.shape.opacity == UNIT * 3 / 10,
        r.shape.show_minor_grid,
        is_id_with_prefix(r.object.id@, "grid_"@),
        r.object.visible && r.object.layer == -2,
        r.position == (Position2D { x: 0, y: 0 }),
        r.style == style,
{
    MathEntity {
        object: MathObject { id: fresh_id("grid_"), visible: true, layer: -2 },
        shape: Grid::new(spacing),
        position: Position2D { x: 0, y: 0 },
        style,
    }
}

/// The coordinate system a new view starts with: a grey grid of unit
/// spacing, and white axes over `(-10, 10)` by `(-8, 8)` named `x` and `y`.
pub fn create_coordinate_system() -> (r: (MathEntity<Grid>, MathEntity<Axes>))
    ensures
        r.0.shape.wf() && r.0.shape == Grid::spec_new(UNIT as int),
        r.0.object.visible && r.0.object.layer == -2,
        is_id_with_prefix(r.0.object.id@, "grid_"@),
        r.0.style == (Style {
            stroke_color: Rgba { red: 300_000, green: 300_000, blue: 300_000, alpha: UNIT },
            fill_color: None,
            stroke_width: UNIT,
            opacity: 300_000,
        }),
        r.1.shape.wf(),
        spec_new_axes(
            ((-10 * UNIT) as i64, (10 * UNIT) as i64),
            ((-8 * UNIT) as i64, (8 * UNIT) as i64),
            seq!['x'],
            seq!['y'],
            r.1.shape,
        ),
        r.1.object.visible && r.1.object.layer == -1,
        is_id_with_prefix(r.1.object.id@, "axes_"@),
        r.1.style == (Style {
            stroke_color: Rgba { red: UNIT, green: UNIT, blue: UNIT, alpha: UNIT },
            fill_color: None,
            stroke_width: (2 * UNIT) as i64,
            opacity: UNIT,
        }),
{
    let grid_style = Style {
        stroke_color: Rgba { red: 300_000, green: 300_000, blue: 300_000, alpha: UNIT },
        fill_color: None,
        stroke_width: UNIT,
        opacity: 300_000,
    };
    let axes_style = Style {
        stroke_color: Rgba::white(),
        fill_color: None,
        stroke_width: 2 * UNIT,
        opacity: UNIT,
    };
    let grid = create_grid(UNIT, grid_style);
    let axes = create_axes((-10 * UNIT, 10 * UNIT), (-8 * UNIT, 8 * UNIT), axes_style);
    (grid, axes)
}

/// A circle at `position` in the style's stroke colour, filled when the
/// style has a fill, in layer 0 with an id `circle_<number>`.
pub fn create_circle_with_resolution(
    position: Position2D,
    radius: i64,
    style: Style,
    resolution: Option<u32>,
) -> (r: MathEntity<MathCircle>)
    ensures
        r.shape == (MathCircle {
            radius,
            color: style.stroke_color,
            filled: style.fill_color is Some,
            resolution,
        }),
        is_id_with_prefix(r.object.id@, "circle_"@),
        r.object.visible && r.object.layer == 0,
        r.position == position,
        r.style == style,
{
    MathEntity {
        object: MathObject { id: fresh_id("circle_"), visible: true, layer: 0 },
        shape: MathCircle {
            radius,
            color: style.stroke_color,
            filled: style.fill_color.is_some(),
            resolution,
        },
        position,
        style,
    }
}

/// A circle as `create_circle_with_resolution` makes it, with the
/// resolution left to the renderer.
pub fn create_circle(position: Position2D, radius: i64, style: Style) -> (r: MathEntity<MathCircle>)
    ensures
        r.shape == (MathCircle {
            radius,
            color: style.stroke_color,
            filled: style.fill_color is Some,
            resolution: None,
        }),
        is_id_with_prefix(r.object.id@, "circle_"@),
        r.object.visible && r.object.layer == 0,
        r.position == position,
        r.style == style,
{
    create_circle_with_resolution(position, radius, style, None)
}

/// A line from `start` to `end`, positioned at its midpoint, in layer 0
/// with an id `line_<number>`.
pub fn create_line(start: Position2D, end: Position2D, style: Style) -> (r: MathEntity<Line>)
    ensures
        r.shape == (Line { start, end }),
        r.position == (Position2D {
            x: midpoint(start.x as int, end.x as int) as i64,
            y: midpoint(start.y as int, end.y as int) as i64,
        }),
        is_id_with_prefix(r.object.id@, "line_"@),
        r.object.visible && r.object.layer == 0,
        r.style == style,
{
    MathEntity {
        object: MathObject { id: fresh_id("line_"), visible: true, layer: 0 },
        shape: Line { start, end },
        position: Position2D { x: midpoint_of(start.x, end.x), y: midpoint_of(start.y, end.y) },
        style,
    }
}

/// Settings for the next circle to add, and where it will go.
#[derive(Clone, Copy, Debug, PartialEq, Eq, Structural)]
pub struct CircleState {
    pub next_position: Position2D,
    pub default_radius: i64,
    pub default_color: Rgba,
    pub show_fill: bool,
    pub resolution: Option<u32>,
}

/// Opacity of a circle's fill.
pub const FILL_ALPHA: i64 = 300_000;

/// The placement after one circle is added: two units to the right; past
/// 8 it wraps to -8 one row (two units) up; past 6 rows wrap to -6.
pub open spec fn spec_next_position(p: Position2D) -> Position2D {
    let x = p.x + 2 * UNIT;
    let (x1, y1) = if x > 8 * UNIT {
        (-8 * UNIT, p.y + 2 * UNIT)
    } else {
        (x, p.y as int)
    };
    let y2 = if y1 > 6 * UNIT {
        -6 * UNIT
    } else {
        y1
    };
    Position2D { x: x1 as i64, y: y2 as i64 }
}

impl CircleState {
    /// The style of a new circle: stroked in the chosen colour, two pixels
    /// wide and opaque, filled with that colour at opacity 0.3 when fill is on.
    pub fn circle_style(&self) -> (r: Style)
        ensures
            r == (Style {
                stroke_color: self.default_color,
                fill_color: if self.show_fill {
                    Some(Rgba { alpha: FILL_ALPHA, ..self.default_color })
                } else {
                    None
                },
                stroke_width: (2 * UNIT) as i64,
                opacity: UNIT,
            }),
    {
        Style {
            stroke_color: self.default_color,
            fill_color: if self.show_fill {
                Some(Rgba { alpha: FILL_ALPHA, ..self.default_color })
            } else {
                None
            },
            stroke_width: 2 * UNIT,
            opacity: UNIT,
        }
    }

    /// Moves the placement on after a circle has been added.
    pub fn advance(&mut self)
        requires
            -MAX_WORLD <= old(self).next_position.x <= MAX_WORLD,
            -MAX_WORLD <= old(self).next_position.y <= MAX_WORLD,
        ensures
            final(self).next_position == spec_next_position(old(self).next_position),
            -MAX_WORLD <= final(self).next_position.x <= MAX_WORLD,
            -MAX_WORLD <= final(self).next_position.y <= MAX_WORLD,
            *final(self) == (CircleState { next_position: final(self).next_position, ..*old(self) }),
    {
        let mut x = self.next_position.x + 2 * UNIT;
        let mut y = self.next_position.y;
        if x > 8 * UNIT {
            x = -8 * UNIT;
            y = y + 2 * UNIT;
        }
        if y > 6 * UNIT {
            y = -6 * UNIT;
        }
        self.next_position = Position2D { x, y };
    }

    /// Puts the placement back at the origin, as when all circles are cleared.
    pub fn reset_position(&mut self)
        ensures
            *final(self) == (CircleState { next_position: Position2D { x: 0, y: 0 }, ..*old(self) }),
    {
        self.next_position = Position2D { x: 0, y: 0 };
    }
}

impl Default for CircleState {
    /// Unfilled green circles of radius 1, placed from the origin, with the
    /// resolution left to the renderer.
    fn default() -> (r: CircleState)
        ensures
            r == (CircleState {
                next_position: Position2D { x: 0, y: 0 },
                default_radius: UNIT,
                default_color: Rgba { red: 200_000, green: 800_000, blue: 200_000, alpha: UNIT },
                show_fill: false,
                resolution: None,
            }),
    {
        CircleState {
            next_position: Position2D { x: 0, y: 0 },
            default_radius: UNIT,
            default_color: Rgba { red: 200_000, green: 800_000, blue: 200_000, alpha: UNIT },
            show_fill: false,
            resolution: None,
        }
    }
}

} // verus!
