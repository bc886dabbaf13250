use vstd::prelude::*;

use crate::axes::Axes;
use crate::fixed::{abs, MAX_SCREEN, MAX_WORLD, TICK_EPSILON, UNIT};
use crate::grid::Grid;
use crate::objects::{Position2D, Rgba};
use crate::text::{label_text, label_text_of};

verus! {

/// Pixels per world unit; the zoom changes the visible range, never this.
pub const PIXELS_PER_UNIT: i64 = 50;

/// Half length of a tick mark, in millionths of a pixel.
pub const TICK_HALF_LENGTH: i64 = 8_000_000;

/// Distance of an arrow tip from the end of its axis line, in millionths of a pixel.
pub const ARROW_MARGIN: i64 = 30_000_000;

/// Length of an arrow head, in millionths of a pixel.
pub const ARROW_SIZE: i64 = 15_000_000;

/// A point on screen, in millionths of a pixel, origin at the centre.
#[derive(Clone, Copy, Debug, PartialEq, Eq, Structural)]
pub struct ScreenPoint {
    pub x: i64,
    pub y: i64,
}

/// A straight line between two screen points.
#[derive(Clone, Copy, Debug, PartialEq, Eq, Structural)]
pub struct Segment {
    pub start: ScreenPoint,
    pub end: ScreenPoint,
}

/// Which multiples of a spacing are left out.
#[derive(Clone, Copy, Debug, PartialEq, Eq, Structural)]
pub enum Skip {
    /// None.
    Nothing,
    /// Those within `TICK_EPSILON` of the origin.
    Origin,
    /// Those within `TICK_EPSILON` of a multiple of the given spacing.
    MultiplesOf(i64),
}

pub open spec fn is_skipped(v: int, skip: Skip) -> bool {
    match skip {
        Skip::Nothing => false,
        Skip::Origin => abs(v) <= TICK_EPSILON,
        Skip::MultiplesOf(p) => abs(v) % (p as int) <= TICK_EPSILON,
    }
}

/// `ceil(lo / s)` for `s > 0`.
pub open spec fn first_index(lo: int, s: int) -> int {
    if lo >= 0 {
        (lo + s - 1) / s
    } else {
        -((-lo) / s)
    }
}

/// `floor(hi / s)` for `s > 0`.
pub open spec fn last_index(hi: int, s: int) -> int {
    if hi >= 0 {
        hi / s
    } else {
        -((-hi + s - 1) / s)
    }
}

/// The multiples `k * s`, `(k + 1) * s`, ... (`n` of them), less the skipped ones.
pub open spec fn multiples_from(k: int, n: nat, s: int, skip: Skip) -> Seq<int>
    decreases n,
{
    if n == 0 {
        Seq::empty()
    } else {
        let rest = multiples_from(k + 1, (n - 1) as nat, s, skip);
        if is_skipped(k * s, skip) {
            rest
        } else {
            seq![k * s] + rest
        }
    }
}

/// The multiples of `s` in `[lo, hi]`, in increasing order, less the skipped ones.
pub open spec fn multiples_in(lo: int, hi: int, s: int, skip: Skip) -> Seq<int> {
    let first = first_index(lo, s);
    let last = last_index(hi, s);
    if last < first {
        Seq::empty()
    } else {
        multiples_from(first, (last - first + 1) as nat, s, skip)
    }
}

/// A segment across the line of coordinate `v`: for `along_x`, the vertical
/// segment at screen `x = v * PIXELS_PER_UNIT + offset.x` from
/// `offset.y + from` to `offset.y + to`; otherwise the horizontal one.
pub open spec fn cross_segment(v: int, along_x: bool, offset: Position2D, from: int, to: int) -> Segment {
    let at = v * PIXELS_PER_UNIT;
    if along_x {
        Segment {
            start: ScreenPoint { x: (at + offset.x) as i64, y: (offset.y + from) as i64 },
            end: ScreenPoint { x: (at + offset.x) as i64, y: (offset.y + to) as i64 },
        }
    } else {
        Segment {
            start: ScreenPoint { x: (offset.x + from) as i64, y: (at + offset.y) as i64 },
            end: ScreenPoint { x: (offset.x + to) as i64, y: (at + offset.y) as i64 },
        }
    }
}

pub open spec fn cross_segments(
    vs: Seq<int>,
    along_x: bool,
    offset: Position2D,
    from: int,
    to: int,
) -> Seq<Segment> {
    vs.map_values(|v: int| cross_segment(v, along_x, offset, from, to))
}

/// An offset within the screen bounds.
pub open spec fn offset_ok(p: Position2D) -> bool {
    -MAX_SCREEN <= p.x <= MAX_SCREEN && -MAX_SCREEN <= p.y <= MAX_SCREEN
}

/// Whether an offset and a window size are within what the projection accepts.
pub fn view_fits(offset: Position2D, width: i64, height: i64) -> (r: bool)
    ensures
        r == (offset_ok(offset) && 0 <= width <= MAX_SCREEN && 0 <= height <= MAX_SCREEN),
{
    -MAX_SCREEN <= offset.x && offset.x <= MAX_SCREEN && -MAX_SCREEN <= offset.y && offset.y
        <= MAX_SCREEN && 0 <= width && width <= MAX_SCREEN && 0 <= height && height <= MAX_SCREEN
}

/// Half extent of the axis lines for a window side: six tenths of it.
pub open spec fn axis_extent(side: int) -> int {
    side * 6 / 10
}

/// Half extent of the grid for a window side: seven tenths of it.
pub open spec fn grid_extent(side: int) -> int {
    side * 7 / 10
}

/// The two axis lines through `offset`, spanning six tenths of the window
/// on each side.
pub open spec fn spec_axis_lines(width: int, height: int, offset: Position2D) -> Seq<Segment> {
    let ex = axis_extent(width);
    let ey = axis_extent(height);
    seq![
        Segment {
            start: ScreenPoint { x: (offset.x - ex) as i64, y: offset.y },
            end: ScreenPoint { x: (offset.x + ex) as i64, y: offset.y },
        },
        Segment {
            start: ScreenPoint { x: offset.x, y: (offset.y - ey) as i64 },
            end: ScreenPoint { x: offset.x, y: (offset.y + ey) as i64 },
        },
    ]
}

/// The two arrow heads, fixed to the screen near the positive ends of the
/// axis lines whatever the offset: two strokes each, from the tip back by
/// `ARROW_SIZE` and sideways by half of it.
pub open spec fn spec_arrow_heads(width: int, height: int) -> Seq<Segment> {
    let xt = axis_extent(width) - ARROW_MARGIN;
    let yt = axis_extent(height) - ARROW_MARGIN;
    let h = ARROW_SIZE / 2;
    seq![
        Segment {
            start: ScreenPoint { x: xt as i64, y: 0 },
            end: ScreenPoint { x: (xt - ARROW_SIZE) as i64, y: (-h) as i64 },
        },
        Segment {
            start: ScreenPoint { x: xt as i64, y: 0 },
            end: ScreenPoint { x: (xt - ARROW_SIZE) as i64, y: h as i64 },
        },
        Segment {
            start: ScreenPoint { x: 0, y: yt as i64 },
            end: ScreenPoint { x: (-h) as i64, y: (yt - ARROW_SIZE) as i64 },
        },
        Segment {
            start: ScreenPoint { x: 0, y: yt as i64 },
            end: ScreenPoint { x: h as i64, y: (yt - ARROW_SIZE) as i64 },
        },
    ]
}

/// Tick marks at every multiple of the tick spacing within the ranges, but
/// the origin: the x ticks, then the y ticks.
pub open spec fn spec_tick_marks(axes: Axes, offset: Position2D) -> Seq<Segment> {
    let s = axes.tick_spacing as int;
    cross_segments(
        multiples_in(axes.x_range.0 as int, axes.x_range.1 as int, s, Skip::Origin),
        true,
        offset,
        -TICK_HALF_LENGTH,
        TICK_HALF_LENGTH as int,
    ) + cross_segments(
        multiples_in(axes.y_range.0 as int, axes.y_range.1 as int, s, Skip::Origin),
        false,
        offset,
        -TICK_HALF_LENGTH,
        TICK_HALF_LENGTH as int,
    )
}

/// The multiples of `s` within `[lo, hi]`, in increasing order, less the
/// skipped ones.
pub fn multiples_in_range(lo: i64, hi: i64, s: i64, skip: Skip) -> (r: Vec<i64>)
    requires
        -MAX_WORLD <= lo <= MAX_WORLD,
        -MAX_WORLD <= hi <= MAX_WORLD,
        s > 0,
        skip matches Skip::MultiplesOf(p) ==> p > 0,
    ensures
        r@.map_values(|v: i64| v as int) == multiples_in(lo as int, hi as int, s as int, skip),
        forall|i: int| 0 <= i < r@.len() ==> lo <= #[trigger] r@[i] <= hi,
{
    let first: i128 = if lo >= 0 {
        ((lo as i128 + s as i128 - 1) as u128 / s as u128) as i128
    } else {
        -(((-(lo as i128)) as u128 / s as u128) as i128)
    };
    let last: i128 = if hi >= 0 {
        (hi as u128 / s as u128) as i128
    } else {
        -(((-(hi as i128) + s as i128 - 1) as u128 / s as u128) as i128)
    };
    proof {
        lemma_index_bounds(lo as int, hi as int, s as int);
    }
    let mut r: Vec<i64> = Vec::new();
    if last < first {
        assert(r@.map_values(|v: i64| v as int) =~= Seq::<int>::empty());
        return r;
    }
    let ghost total: nat = (last - first + 1) as nat;
    let mut k: i128 = first;
    assert(-0x1000_0000_0000_0000_0000_0000_0000_0000 <= first * s
        <= 0x1000_0000_0000_0000_0000_0000_0000_0000) by (nonlinear_arith)
        requires
            -MAX_WORLD <= first <= MAX_WORLD + 1,
            0 < s <= 0x7fff_ffff_ffff_ffff,
    ;
    let mut v: i128 = first * s as i128;
    while k <= last
        invariant
            first <= k <= last + 1,
            last <= MAX_WORLD,
            v == k * s,
            s > 0,
            first * s >= lo,
            last * s <= hi,
            total == last - first + 1,
            skip matches Skip::MultiplesOf(p) ==> p > 0,
            -MAX_WORLD <= lo <= MAX_WORLD,
            -MAX_WORLD <= hi <= MAX_WORLD,
            forall|i: int| 0 <= i < r@.len() ==> lo <= #[trigger] r@[i] <= hi,
            r@.map_values(|x: i64| x as int) + multiples_from(k as int, (last + 1 - k) as nat, s as int, skip)
                == multiples_from(first as int, total, s as int, skip),
        decreases last + 1 - k,
    {
        proof {
            assert(k * s >= first * s) by (nonlinear_arith)
                requires
                    k >= first,
                    s > 0,
            ;
            assert(k * s <= last * s) by (nonlinear_arith)
                requires
                    k <= last,
                    s > 0,
            ;
            assert((k + 1) * s == k * s + s) by (nonlinear_arith);
        }
        let vv: i64 = v as i64;
        let skipped = match skip {
            Skip::Nothing => false,
            Skip::Origin => vv <= TICK_EPSILON && vv >= -TICK_EPSILON,
            Skip::MultiplesOf(p) => {
                let m: u64 = if vv < 0 {
                    (-vv) as u64
                } else {
                    vv as u64
                };
                m % (p as u64) <= TICK_EPSILON as u64
            },
        };
        let ghost before = r@;
        if !skipped {
            r.push(vv);
            assert(r@.map_values(|x: i64| x as int) =~= before.map_values(|x: i64| x as int) + seq![
                v as int,
            ]);
        }
        k = k + 1;
        v = v + s as i128;
    }
    r
}

/// The segments across each of `vs`, as `cross_segment` places them.
pub fn cross_segments_of(
    vs: &Vec<i64>,
    along_x: bool,
    offset: Position2D,
    from: i64,
    to: i64,
) -> (r: Vec<Segment>)
    requires
        forall|i: int| 0 <= i < vs@.len() ==> -MAX_WORLD <= #[trigger] vs@[i] <= MAX_WORLD,
        offset_ok(offset),
        -MAX_SCREEN <= from <= MAX_SCREEN,
        -MAX_SCREEN <= to <= MAX_SCREEN,
    ensures
        r@ == cross_segments(vs@.map_values(|v: i64| v as int), along_x, offset, from as int, to as int),
{
    let mut r: Vec<Segment> = Vec::new();
    let mut i: usize = 0;
    while i < vs.len()
        invariant
            i <= vs@.len(),
            forall|j: int| 0 <= j < vs@.len() ==> -MAX_WORLD <= #[trigger] vs@[j] <= MAX_WORLD,
            offset_ok(offset),
            -MAX_SCREEN <= from <= MAX_SCREEN,
            -MAX_SCREEN <= to <= MAX_SCREEN,
            r@ == cross_segments(
                vs@.take(i as int).map_values(|v: i64| v as int),
                along_x,
                offset,
                from as int,
                to as int,
            ),
        decreases vs@.len() - i,
    {
        let v = vs[i];
        let at: i64 = v * PIXELS_PER_UNIT;
        let seg = if along_x {
            Segment {
                start: ScreenPoint { x: at + offset.x, y: offset.y + from },
                end: ScreenPoint { x: at + offset.x, y: offset.y + to },
            }
        } else {
            Segment {
                start: ScreenPoint { x: offset.x + from, y: at + offset.y },
                end: ScreenPoint { x: offset.x + to, y: at + offset.y },
            }
        };
        r.push(seg);
        assert(vs@.take(i as int + 1) == vs@.take(i as int).push(v));
        assert(vs@.take(i as int + 1).map_values(|v: i64| v as int) =~= vs@.take(i as int).map_values(
            |v: i64| v as int,
        ).push(v as int));
        assert(r@ =~= cross_segments(
            vs@.take(i as int + 1).map_values(|v: i64| v as int),
            along_x,
            offset,
            from as int,
            to as int,
        ));
        i = i + 1;
    }
    assert(vs@.take(vs@.len() as int) == vs@);
    r
}

/// The axis lines, then the arrow heads when the axes show arrows, then the
/// tick marks when they show numbers.
pub fn axes_segments(axes: &Axes, offset: Position2D, width: i64, height: i64) -> (r: Vec<Segment>)
    requires
        axes.wf(),
        offset_ok(offset),
        0 <= width <= MAX_SCREEN,
        0 <= height <= MAX_SCREEN,
    ensures
        r@ == spec_axis_lines(width as int, height as int, offset) + (if axes.show_arrows {
            spec_arrow_heads(width as int, height as int)
        } else {
            Seq::empty()
        }) + (if axes.show_numbers {
            spec_tick_marks(*axes, offset)
        } else {
            Seq::empty()
        }),
{
    let ex: i64 = width * 6 / 10;
    let ey: i64 = height * 6 / 10;
    let mut r: Vec<Segment> = Vec::new();
    r.push(
        Segment {
            start: ScreenPoint { x: offset.x - ex, y: offset.y },
            end: ScreenPoint { x: offset.x + ex, y: offset.y },
        },
    );
    r.push(
        Segment {
            start: ScreenPoint { x: offset.x, y: offset.y - ey },
            end: ScreenPoint { x: offset.x, y: offset.y + ey },
        },
    );
    assert(r@ =~= spec_axis_lines(width as int, height as int, offset));
    let ghost lines = r@;
    if axes.show_arrows {
        let xt: i64 = ex - ARROW_MARGIN;
        let yt: i64 = ey - ARROW_MARGIN;
        let h: i64 = ARROW_SIZE / 2;
        r.push(
            Segment {
                start: ScreenPoint { x: xt, y: 0 },
                end: ScreenPoint { x: xt - ARROW_SIZE, y: -h },
            },
        );
        r.push(
            Segment { start: ScreenPoint { x: xt, y: 0 }, end: ScreenPoint { x: xt - ARROW_SIZE, y: h } },
        );
        r.push(
            Segment {
                start: ScreenPoint { x: 0, y: yt },
                end: ScreenPoint { x: -h, y: yt - ARROW_SIZE },
            },
        );
        r.push(
            Segment { start: ScreenPoint { x: 0, y: yt }, end: ScreenPoint { x: h, y: yt - ARROW_SIZE } },
        );
        assert(r@ =~= lines + spec_arrow_heads(width as int, height as int));
    } else {
        assert(r@ =~= lines + Seq::<Segment>::empty());
    }
    let ghost with_arrows = r@;
    if axes.show_numbers {
        let xs = multiples_in_range(axes.x_range.0, axes.x_range.1, axes.tick_spacing, Skip::Origin);
        let ys = multiples_in_range(axes.y_range.0, axes.y_range.1, axes.tick_spacing, Skip::Origin);
        let mut xt = cross_segments_of(&xs, true, offset, -TICK_HALF_LENGTH, TICK_HALF_LENGTH);
        let mut yt = cross_segments_of(&ys, false, offset, -TICK_HALF_LENGTH, TICK_HALF_LENGTH);
        r.append(&mut xt);
        r.append(&mut yt);
        assert(r@ =~= with_arrows + spec_tick_marks(*axes, offset));
    } else {
        assert(r@ =~= with_arrows + Seq::<Segment>::empty());
    }
    r
}

/// Major grid lines at every multiple of the spacing within seven tenths of
/// the window on each side: the vertical ones, then the horizontal ones.
pub open spec fn spec_major_lines(grid: Grid, offset: Position2D, width: int, height: int) -> Seq<
    Segment,
> {
    let ex = grid_extent(width);
    let ey = grid_extent(height);
    let gx = ex / PIXELS_PER_UNIT as int;
    let gy = ey / PIXELS_PER_UNIT as int;
    let s = grid.spacing as int;
    cross_segments(multiples_in(-gx, gx, s, Skip::Nothing), true, offset, -ey, ey) + cross_segments(
        multiples_in(-gy, gy, s, Skip::Nothing),
        false,
        offset,
        -ex,
        ex,
    )
}

/// Minor grid lines, when shown, at every multiple of the minor spacing in
/// the same area that does not fall on a major line.
pub open spec fn spec_minor_lines(grid: Grid, offset: Position2D, width: int, height: int) -> Seq<
    Segment,
> {
    let ex = grid_extent(width);
    let ey = grid_extent(height);
    let gx = ex / PIXELS_PER_UNIT as int;
    let gy = ey / PIXELS_PER_UNIT as int;
    let m = grid.minor_spacing as int;
    let skip = Skip::MultiplesOf(grid.spacing);
    if grid.show_minor_grid && m > 0 {
        cross_segments(multiples_in(-gx, gx, m, skip), true, offset, -ey, ey) + cross_segments(
            multiples_in(-gy, gy, m, skip),
            false,
            offset,
            -ex,
            ex,
        )
    } else {
        Seq::empty()
    }
}

/// The lines of a grid, in the colours to draw them in.
#[derive(Debug)]
pub struct GridLines {
    pub major: Vec<Segment>,
    pub minor: Vec<Segment>,
    pub major_color: Rgba,
    pub minor_color: Rgba,
}

/// The grid's lines for a window of `width` by `height`: the major lines in
/// the stroke colour at the grid's opacity, the minor ones at three tenths
/// of that opacity.
pub fn grid_lines(grid: &Grid, stroke: Rgba, offset: Position2D, width: i64, height: i64) -> (r: GridLines)
    requires
        grid.wf(),
        offset_ok(offset),
        0 <= width <= MAX_SCREEN,
        0 <= height <= MAX_SCREEN,
    ensures
        r.major@ == spec_major_lines(*grid, offset, width as int, height as int),
        r.minor@ == spec_minor_lines(*grid, offset, width as int, height as int),
        r.major_color == (Rgba { alpha: grid.opacity, ..stroke }),
        r.minor_color == (Rgba { alpha: (grid.opacity * 3 / 10) as i64, ..stroke }),
{
    let ex: i64 = width * 7 / 10;
    let ey: i64 = height * 7 / 10;
    let gx: i64 = ex / PIXELS_PER_UNIT;
    let gy: i64 = ey / PIXELS_PER_UNIT;
    let vx = multiples_in_range(-gx, gx, grid.spacing, Skip::Nothing);
    let vy = multiples_in_range(-gy, gy, grid.spacing, Skip::Nothing);
    let mut major = cross_segments_of(&vx, true, offset, -ey, ey);
    let mut horizontal = cross_segments_of(&vy, false, offset, -ex, ex);
    major.append(&mut horizontal);
    let mut minor: Vec<Segment> = Vec::new();
    if grid.show_minor_grid && grid.minor_spacing > 0 {
        let skip = Skip::MultiplesOf(grid.spacing);
        let mx = multiples_in_range(-gx, gx, grid.minor_spacing, skip);
        let my = multiples_in_range(-gy, gy, grid.minor_spacing, skip);
        minor = cross_segments_of(&mx, true, offset, -ey, ey);
        let mut minor_horizontal = cross_segments_of(&my, false, offset, -ex, ex);
        minor.append(&mut minor_horizontal);
    } else {
        assert(minor@ =~= spec_minor_lines(*grid, offset, width as int, height as int));
    }
    GridLines {
        major,
        minor,
        major_color: Rgba { alpha: grid.opacity, ..stroke },
        minor_color: Rgba { alpha: grid.opacity * 3 / 10, ..stroke },
    }
}

/// Which axis a label belongs to.
#[derive(Clone, Copy, Debug, PartialEq, Eq, Structural)]
pub enum AxisName {
    X,
    Y,
    Origin,
}

/// Font size of the numbers on the axes, in millionths of a pixel.
pub const NUMBER_FONT_SIZE: i64 = 14_000_000;

/// Font size of the axis names.
pub const NAME_FONT_SIZE: i64 = 24_000_000;

/// Font size of the origin mark.
pub const ORIGIN_FONT_SIZE: i64 = 18_000_000;

/// Distance of the x numbers below the x axis, in millionths of a pixel.
pub const X_NUMBER_OFFSET: i64 = 25_000_000;

/// Distance of the y numbers left of the y axis.
pub const Y_NUMBER_OFFSET: i64 = 30_000_000;

/// Distance of an axis name past the end of its range.
pub const NAME_GAP: i64 = 25_000_000;

/// Distance of an axis name, and of the origin mark, off the axes.
pub const NAME_SIDE_OFFSET: i64 = 15_000_000;

/// A number written next to a tick.
#[derive(Debug)]
pub struct AxisLabel {
    pub axis: AxisName,
    pub value: i64,
    pub text: String,
    pub position: ScreenPoint,
}

/// The name of an axis, or the origin mark.
#[derive(Debug)]
pub struct AxisNameLabel {
    pub axis: AxisName,
    pub text: String,
    pub font_size: i64,
    pub position: ScreenPoint,
}

/// Where the name of an axis (or the origin mark) stands: past the positive
/// end of its range and off to the side.
pub open spec fn spec_name_position(axes: Axes, axis: AxisName) -> ScreenPoint {
    match axis {
        AxisName::X => ScreenPoint {
            x: (axes.x_range.1 * PIXELS_PER_UNIT + NAME_GAP) as i64,
            y: (-NAME_SIDE_OFFSET) as i64,
        },
        AxisName::Y => ScreenPoint {
            x: (-NAME_SIDE_OFFSET) as i64,
            y: (axes.y_range.1 * PIXELS_PER_UNIT + NAME_GAP) as i64,
        },
        AxisName::Origin => ScreenPoint {
            x: (-NAME_SIDE_OFFSET) as i64,
            y: (-NAME_SIDE_OFFSET) as i64,
        },
    }
}

/// Position of the name of `axis` for the current ranges.
pub fn name_label_position(axes: &Axes, axis: AxisName) -> (r: ScreenPoint)
    requires
        axes.wf(),
    ensures
        r == spec_name_position(*axes, axis),
{
    match axis {
        AxisName::X => ScreenPoint {
            x: axes.x_range.1 * PIXELS_PER_UNIT + NAME_GAP,
            y: -NAME_SIDE_OFFSET,
        },
        AxisName::Y => ScreenPoint {
            x: -NAME_SIDE_OFFSET,
            y: axes.y_range.1 * PIXELS_PER_UNIT + NAME_GAP,
        },
        AxisName::Origin => ScreenPoint { x: -NAME_SIDE_OFFSET, y: -NAME_SIDE_OFFSET },
    }
}

/// The three name labels of a pair of axes: the x name, the y name and the
/// origin mark `O`.
pub fn axis_name_labels(axes: &Axes) -> (r: Vec<AxisNameLabel>)
    requires
        axes.wf(),
    ensures
        r@.len() == 3,
        r@[0].axis == AxisName::X && r@[0].text@ == axes.x_label@,
        r@[1].axis == AxisName::Y && r@[1].text@ == axes.y_label@,
        r@[2].axis == AxisName::Origin && r@[2].text@ == seq!['O'],
        r@[0].font_size == NAME_FONT_SIZE && r@[1].font_size == NAME_FONT_SIZE,
        r@[2].font_size == ORIGIN_FONT_SIZE,
        forall|i: int| 0 <= i < 3 ==> #[trigger] r@[i].position == spec_name_position(*axes, r@[i].axis),
{
    proof {
        reveal_strlit("O");
    }
    let mut r: Vec<AxisNameLabel> = Vec::new();
    r.push(
        AxisNameLabel {
            axis: AxisName::X,
            text: axes.x_label.clone(),
            font_size: NAME_FONT_SIZE,
            position: name_label_position(axes, AxisName::X),
        },
    );
    r.push(
        AxisNameLabel {
            axis: AxisName::Y,
            text: axes.y_label.clone(),
            font_size: NAME_FONT_SIZE,
            position: name_label_position(axes, AxisName::Y),
        },
    );
    r.push(
        AxisNameLabel {
            axis: AxisName::Origin,
            text: String::from_str("O"),
            font_size: ORIGIN_FONT_SIZE,
            position: name_label_position(axes, AxisName::Origin),
        },
    );
    r
}

/// The x tick value that the `i`-th number label stands for, then the y ones.
pub open spec fn spec_label_values(axes: Axes) -> Seq<int> {
    let s = axes.tick_spacing as int;
    multiples_in(axes.x_range.0 as int, axes.x_range.1 as int, s, Skip::Origin) + multiples_in(
        axes.y_range.0 as int,
        axes.y_range.1 as int,
        s,
        Skip::Origin,
    )
}

/// How many of the number labels belong to the x axis.
pub open spec fn spec_x_label_count(axes: Axes) -> int {
    multiples_in(
        axes.x_range.0 as int,
        axes.x_range.1 as int,
        axes.tick_spacing as int,
        Skip::Origin,
    ).len() as int
}

/// The number label for `value` on `axis`: its text has the decimals that
/// the tick spacing calls for, and it stands below the x axis or left of the
/// y axis.
pub open spec fn is_number_label(l: AxisLabel, axes: Axes, axis: AxisName, value: int) -> bool {
    &&& l.axis == axis
    &&& l.value == value
    &&& l.text@ == label_text_of(value, axes.tick_spacing as int)
    &&& l.position == if axis == AxisName::X {
        ScreenPoint { x: (value * PIXELS_PER_UNIT) as i64, y: (-X_NUMBER_OFFSET) as i64 }
    } else {
        ScreenPoint { x: (-Y_NUMBER_OFFSET) as i64, y: (value * PIXELS_PER_UNIT) as i64 }
    }
}

fn number_labels(values: &Vec<i64>, axes: &Axes, axis: AxisName, out: &mut Vec<AxisLabel>)
    requires
        axes.wf(),
        axis != AxisName::Origin,
        forall|i: int| 0 <= i < values@.len() ==> -MAX_WORLD <= #[trigger] values@[i] <= MAX_WORLD,
    ensures
        final(out)@.len() == old(out)@.len() + values@.len(),
        forall|i: int| 0 <= i < old(out)@.len() ==> #[trigger] final(out)@[i] == old(out)@[i],
        forall|i: int|
            0 <= i < values@.len() ==> is_number_label(
                #[trigger] final(out)@[old(out)@.len() + i],
                *axes,
                axis,
                values@[i] as int,
            ),
{
    let ghost start = out@.len();
    let mut i: usize = 0;
    while i < values.len()
        invariant
            i <= values@.len(),
            axes.wf(),
            axis != AxisName::Origin,
            forall|j: int| 0 <= j < values@.len() ==> -MAX_WORLD <= #[trigger] values@[j] <= MAX_WORLD,
            start == old(out)@.len(),
            out@.len() == start + i,
            forall|j: int| 0 <= j < start ==> #[trigger] out@[j] == old(out)@[j],
            forall|j: int|
                0 <= j < i ==> is_number_label(#[trigger] out@[start + j], *axes, axis, values@[j] as int),
        decreases values@.len() - i,
    {
        let v = values[i];
        let position = match axis {
            AxisName::X => ScreenPoint { x: v * PIXELS_PER_UNIT, y: -X_NUMBER_OFFSET },
            _ => ScreenPoint { x: -Y_NUMBER_OFFSET, y: v * PIXELS_PER_UNIT },
        };
        out.push(AxisLabel { axis, value: v, text: label_text(v, axes.tick_spacing), position });
        proof {
            assert forall|j: int| 0 <= j < i + 1 implies is_number_label(
                #[trigger] out@[start + j],
                *axes,
                axis,
                values@[j] as int,
            ) by {
                if j < i {
                } else {
                    assert(out@[start + j] == out@.last());
                }
            }
        }
        i = i + 1;
    }
}

/// The number labels of the axes, rebuilt from scratch: one for each tick of
/// the x axis, then each tick of the y axis; none when numbers are hidden.
pub fn axis_labels(axes: &Axes) -> (r: Vec<AxisLabel>)
    requires
        axes.wf(),
    ensures
        !axes.show_numbers ==> r@.len() == 0,
        axes.show_numbers ==> r@.len() == spec_label_values(*axes).len(),
        axes.show_numbers ==> forall|i: int|
            0 <= i < r@.len() ==> is_number_label(
                #[trigger] r@[i],
                *axes,
                if i < spec_x_label_count(*axes) {
                    AxisName::X
                } else {
                    AxisName::Y
                },
                spec_label_values(*axes)[i],
            ),
{
    let mut r: Vec<AxisLabel> = Vec::new();
    if axes.show_numbers {
        let xs = multiples_in_range(axes.x_range.0, axes.x_range.1, axes.tick_spacing, Skip::Origin);
        let ys = multiples_in_range(axes.y_range.0, axes.y_range.1, axes.tick_spacing, Skip::Origin);
        number_labels(&xs, axes, AxisName::X, &mut r);
        number_labels(&ys, axes, AxisName::Y, &mut r);
        proof {
            let xv = xs@.map_values(|v: i64| v as int);
            let yv = ys@.map_values(|v: i64| v as int);
            assert(spec_label_values(*axes) == xv + yv);
            assert forall|i: int| 0 <= i < r@.len() implies is_number_label(
                #[trigger] r@[i],
                *axes,
                if i < spec_x_label_count(*axes) {
                    AxisName::X
                } else {
                    AxisName::Y
                },
                spec_label_values(*axes)[i],
            ) by {
                if i < xs@.len() {
                    assert(r@[0 + i] == r@[i]);
                    assert(xv[i] == xs@[i] as int);
                } else {
                    let j = i - xs@.len();
                    assert(yv[j] == ys@[j] as int);
                    assert(r@[xs@.len() + j] == r@[i]);
                }
            }
        }
    }
    r
}

proof fn lemma_index_bounds(lo: int, hi: int, s: int)
    requires
        -MAX_WORLD <= lo <= MAX_WORLD,
        -MAX_WORLD <= hi <= MAX_WORLD,
        s > 0,
    ensures
        first_index(lo, s) * s >= lo,
        last_index(hi, s) * s <= hi,
        -MAX_WORLD <= first_index(lo, s) <= MAX_WORLD + 1,
        -MAX_WORLD - 1 <= last_index(hi, s) <= MAX_WORLD,
{
    if lo >= 0 {
        let q = (lo + s - 1) / s;
        assert(q * s >= lo && 0 <= q <= lo + 1) by (nonlinear_arith)
            requires
                q == (lo + s - 1) / s,
                lo >= 0,
                s > 0,
        ;
    } else {
        let q = (-lo) / s;
        assert(q * s <= -lo && 0 <= q <= -lo) by (nonlinear_arith)
            requires
                q == (-lo) / s,
                lo < 0,
                s > 0,
        ;
        assert((-q) * s >= lo) by (nonlinear_arith)
            requires
                q * s <= -lo,
        ;
    }
    if hi >= 0 {
        let q = hi / s;
        assert(q * s <= hi && 0 <= q <= hi) by (nonlinear_arith)
            requires
                q == hi / s,
                hi >= 0,
                s > 0,
        ;
    } else {
        let q = (-hi + s - 1) / s;
        assert(q * s >= -hi && 0 <= q <= -hi + 1) by (nonlinear_arith)
            requires
                q == (-hi + s - 1) / s,
                hi < 0,
                s > 0,
        ;
        assert((-q) * s <= hi) by (nonlinear_arith)
            requires
                q * s >= -hi,
        ;
    }
}

/// The listed multiples are exactly the multiples of `s` within `[lo, hi]`
/// that are not skipped, each once, in strictly increasing order: tick marks
/// and grid lines stand at every multiple of their spacing in view and
/// nowhere else.
pub proof fn lemma_multiples_in_exact(lo: int, hi: int, s: int, skip: Skip)
    requires
        s > 0,
    ensures
        forall|v: int|
            #[trigger] multiples_in(lo, hi, s, skip).contains(v) <==> (v % s == 0 && lo <= v <= hi
                && !is_skipped(v, skip)),
        forall|i: int, j: int|
            0 <= i < j < multiples_in(lo, hi, s, skip).len() ==> multiples_in(lo, hi, s, skip)[i]
                < multiples_in(lo, hi, s, skip)[j],
{
    let first = first_index(lo, s);
    let last = last_index(hi, s);
    lemma_first_last(lo, hi, s);
    if last < first {
        assert forall|v: int|
            #[trigger] multiples_in(lo, hi, s, skip).contains(v) <==> (v % s == 0 && lo <= v <= hi
                && !is_skipped(v, skip)) by {
            if v % s == 0 && lo <= v <= hi {
                lemma_multiple_between(v, s, first, last);
            }
        }
    } else {
        let n = (last - first + 1) as nat;
        lemma_multiples_from(first, n, s, skip);
        assert forall|v: int|
            #[trigger] multiples_in(lo, hi, s, skip).contains(v) <==> (v % s == 0 && lo <= v <= hi
                && !is_skipped(v, skip)) by {
            if v % s == 0 && lo <= v <= hi {
                lemma_multiple_between(v, s, first, last);
            }
            if v % s == 0 && first * s <= v < (first + n) * s {
                assert((first + n) * s == (last + 1) * s);
                lemma_below_next(v, s, last);
            }
        }
    }
}

/// `first_index` and `last_index` are the ceiling and floor of the quotients.
proof fn lemma_first_last(lo: int, hi: int, s: int)
    requires
        s > 0,
    ensures
        first_index(lo, s) * s >= lo,
        (first_index(lo, s) - 1) * s < lo,
        last_index(hi, s) * s <= hi,
        (last_index(hi, s) + 1) * s > hi,
{
    if lo >= 0 {
        let q = (lo + s - 1) / s;
        assert(q * s >= lo && (q - 1) * s < lo) by (nonlinear_arith)
            requires
                q == (lo + s - 1) / s,
                lo >= 0,
                s > 0,
        ;
    } else {
        let q = (-lo) / s;
        assert((-q) * s >= lo && (-q - 1) * s < lo) by (nonlinear_arith)
            requires
                q == (-lo) / s,
                lo < 0,
                s > 0,
        ;
    }
    if hi >= 0 {
        let q = hi / s;
        assert(q * s <= hi && (q + 1) * s > hi) by (nonlinear_arith)
            requires
                q == hi / s,
                hi >= 0,
                s > 0,
        ;
    } else {
        let q = (-hi + s - 1) / s;
        assert((-q) * s <= hi && (-q + 1) * s > hi) by (nonlinear_arith)
            requires
                q == (-hi + s - 1) / s,
                hi < 0,
                s > 0,
        ;
    }
}

/// A multiple of `s` above `(first - 1) * s` and below `(last + 1) * s`
/// lies in `[first * s, last * s]`.
proof fn lemma_multiple_between(v: int, s: int, first: int, last: int)
    requires
        s > 0,
        v % s == 0,
        (first - 1) * s < v < (last + 1) * s,
    ensures
        first * s <= v <= last * s,
        first <= last,
{
    let q = v / s;
    assert(v == q * s) by (nonlinear_arith)
        requires
            q == v / s,
            v % s == 0,
            s > 0,
    ;
    assert(first - 1 < q < last + 1) by (nonlinear_arith)
        requires
            v == q * s,
            (first - 1) * s < v < (last + 1) * s,
            s > 0,
    ;
    assert(first * s <= q * s <= last * s) by (nonlinear_arith)
        requires
            first <= q <= last,
            s > 0,
    ;
}

/// A multiple of `s` below `(last + 1) * s` is at most `last * s`.
proof fn lemma_below_next(v: int, s: int, last: int)
    requires
        s > 0,
        v % s == 0,
        v < (last + 1) * s,
    ensures
        v <= last * s,
{
    let q = v / s;
    assert(v == q * s) by (nonlinear_arith)
        requires
            q == v / s,
            v % s == 0,
            s > 0,
    ;
    assert(q <= last) by (nonlinear_arith)
        requires
            v == q * s,
            v < (last + 1) * s,
            s > 0,
    ;
    assert(q * s <= last * s) by (nonlinear_arith)
        requires
            q <= last,
            s > 0,
    ;
}

/// What `multiples_from` holds, and that it is increasing.
proof fn lemma_multiples_from(k: int, n: nat, s: int, skip: Skip)
    requires
        s > 0,
    ensures
        forall|v: int|
            #[trigger] multiples_from(k, n, s, skip).contains(v) <==> (v % s == 0 && k * s <= v < (k
                + n) * s && !is_skipped(v, skip)),
        forall|i: int|
            0 <= i < multiples_from(k, n, s, skip).len() ==> #[trigger] multiples_from(
                k,
                n,
                s,
                skip,
            )[i] >= k * s,
        forall|i: int, j: int|
            0 <= i < j < multiples_from(k, n, s, skip).len() ==> multiples_from(k, n, s, skip)[i]
                < multiples_from(k, n, s, skip)[j],
    decreases n,
{
    let seq_all = multiples_from(k, n, s, skip);
    if n == 0 {
        assert((k + n) * s == k * s);
    } else {
        let rest = multiples_from(k + 1, (n - 1) as nat, s, skip);
        lemma_multiples_from(k + 1, (n - 1) as nat, s, skip);
        assert((k + 1) * s == k * s + s) by (nonlinear_arith);
        assert((k + 1 + (n - 1)) * s == (k + n) * s);
        assert((k * s) % s == 0) by (nonlinear_arith)
            requires
                s > 0,
        ;
        assert((k + n) * s >= k * s + s) by (nonlinear_arith)
            requires
                n >= 1,
                s > 0,
        ;
        assert forall|v: int| #[trigger] seq_all.contains(v) <==> (v % s == 0 && k * s <= v < (k + n)
            * s && !is_skipped(v, skip)) by {
            if v % s == 0 && k * s <= v < k * s + s {
                lemma_below_next(v, s, k);
            }
            if !is_skipped(k * s, skip) {
                assert(seq_all == seq![k * s] + rest);
                if seq_all.contains(v) {
                    let i = choose|i: int| 0 <= i < seq_all.len() && seq_all[i] == v;
                    if i > 0 {
                        assert(rest[i - 1] == v);
                        assert(rest.contains(v));
                    }
                }
                if v % s == 0 && k * s <= v < (k + n) * s && !is_skipped(v, skip) {
                    if v == k * s {
                        assert(seq_all[0] == v);
                    } else {
                        assert(rest.contains(v));
                        let i = choose|i: int| 0 <= i < rest.len() && rest[i] == v;
                        assert(seq_all[i + 1] == v);
                    }
                }
            } else {
                assert(seq_all == rest);
                if v % s == 0 && k * s <= v < (k + n) * s && !is_skipped(v, skip) {
                    assert(v != k * s);
                    assert(rest.contains(v));
                }
            }
        }
        assert forall|i: int| 0 <= i < seq_all.len() implies #[trigger] seq_all[i] >= k * s by {
            if !is_skipped(k * s, skip) && i > 0 {
                assert(seq_all[i] == rest[i - 1]);
            }
        }
        assert forall|i: int, j: int| 0 <= i < j < seq_all.len() implies seq_all[i] < seq_all[j] by {
            if !is_skipped(k * s, skip) {
                assert(seq_all[j] == rest[j - 1]);
                assert(rest[j - 1] >= (k + 1) * s);
                if i > 0 {
                    assert(seq_all[i] == rest[i - 1]);
                }
            }
        }
    }
}

} // verus!
