use vstd::prelude::*;

use crate::fixed::{MAX_SPAN, MAX_WORLD, UNIT};

verus! {

/// Distance between axis ticks for a reference width `base_x` seen at
/// `zoom`: a step of the ladder 10, 5, 2, 1, 0.5, 0.2, 0.1 chosen by the
/// visible width `base_x / zoom`, each threshold exclusive.
pub open spec fn tick_spacing_for(base_x: int, zoom: int) -> int {
    if base_x > 100 * zoom {
        10 * UNIT
    } else if base_x > 50 * zoom {
        5 * UNIT
    } else if base_x > 20 * zoom {
        2 * UNIT
    } else if base_x > 10 * zoom {
        UNIT as int
    } else if base_x > 5 * zoom {
        UNIT / 2
    } else if base_x > 2 * zoom {
        UNIT / 5
    } else {
        UNIT / 10
    }
}

/// Half of the visible extent `base / zoom`, rounded down.
pub open spec fn half_extent(base: int, zoom: int) -> int {
    base * UNIT / (2 * zoom)
}

/// A pair of coordinate axes with their visible ranges and tick spacing.
#[derive(Debug)]
pub struct Axes {
    pub x_range: (i64, i64),
    pub y_range: (i64, i64),
    pub show_numbers: bool,
    pub tick_spacing: i64,
    pub x_label: String,
    pub y_label: String,
    pub show_arrows: bool,
    /// Visible extent at zoom 1, kept from creation.
    pub base_range: (i64, i64),
}

impl Axes {
    /// Ranges within the projectable world, a representable reference
    /// extent and a positive tick spacing.
    pub open spec fn wf(&self) -> bool {
        &&& -MAX_WORLD <= self.x_range.0 <= MAX_WORLD
        &&& -MAX_WORLD <= self.x_range.1 <= MAX_WORLD
        &&& -MAX_WORLD <= self.y_range.0 <= MAX_WORLD
        &&& -MAX_WORLD <= self.y_range.1 <= MAX_WORLD
        &&& 0 <= self.base_range.0 <= MAX_SPAN
        &&& 0 <= self.base_range.1 <= MAX_SPAN
        &&& 0 < self.tick_spacing
    }

    /// The axes recomputed for `zoom`: ranges symmetric about the origin and
    /// the tick spacing of the ladder, everything else kept.
    pub open spec fn spec_for_zoom(self, zoom: int) -> Axes {
        let hw = half_extent(self.base_range.0 as int, zoom);
        let hh = half_extent(self.base_range.1 as int, zoom);
        Axes {
            x_range: ((-hw) as i64, hw as i64),
            y_range: ((-hh) as i64, hh as i64),
            tick_spacing: tick_spacing_for(self.base_range.0 as int, zoom) as i64,
            ..self
        }
    }

    /// Whether the axes are well formed.
    pub fn is_valid(&self) -> (r: bool)
        ensures
            r == self.wf(),
    {
        let (x0, x1) = self.x_range;
        let (y0, y1) = self.y_range;
        -MAX_WORLD <= x0 && x0 <= MAX_WORLD && -MAX_WORLD <= x1 && x1 <= MAX_WORLD && -MAX_WORLD <= y0
            && y0 <= MAX_WORLD && -MAX_WORLD <= y1 && y1 <= MAX_WORLD && 0 <= self.base_range.0
            && self.base_range.0 <= MAX_SPAN && 0 <= self.base_range.1 && self.base_range.1
            <= MAX_SPAN && 0 < self.tick_spacing
    }

    /// Tick spacing for `zoom`, chosen from the ladder by the visible width.
    pub fn calculate_tick_spacing(&self, zoom: i64) -> (r: i64)
        requires
            zoom > 0,
            0 <= self.base_range.0 <= MAX_SPAN,
        ensures
            r == tick_spacing_for(self.base_range.0 as int, zoom as int),
    {
        let base = self.base_range.0 as i128;
        let z = zoom as i128;
        if base > 100 * z {
            10 * UNIT
        } else if base > 50 * z {
            5 * UNIT
        } else if base > 20 * z {
            2 * UNIT
        } else if base > 10 * z {
            UNIT
        } else if base > 5 * z {
            UNIT / 2
        } else if base > 2 * z {
            UNIT / 5
        } else {
            UNIT / 10
        }
    }

    /// Recomputes the visible ranges and the tick spacing for `zoom`.
    pub fn update_for_zoom(&mut self, zoom: i64)
        requires
            old(self).wf(),
            zoom > 0,
        ensures
            final(self).wf(),
            *final(self) == old(self).spec_for_zoom(zoom as int),
    {
        let hw = half_extent_of(self.base_range.0, zoom);
        let hh = half_extent_of(self.base_range.1, zoom);
        self.tick_spacing = self.calculate_tick_spacing(zoom);
        self.x_range = (-hw, hw);
        self.y_range = (-hh, hh);
    }
}

/// `base / zoom / 2` in fixed point, rounded down: half of the extent that
/// a reference extent `base` covers at `zoom`.
pub fn half_extent_of(base: i64, zoom: i64) -> (r: i64)
    requires
        0 <= base <= MAX_SPAN,
        zoom > 0,
    ensures
        r == half_extent(base as int, zoom as int),
        0 <= r <= MAX_WORLD,
{
    let num: u128 = (base as u128) * (UNIT as u128);
    let den: u128 = 2 * (zoom as u128);
    assert(num as int / den as int <= num as int / 2) by (nonlinear_arith)
        requires
            num >= 0,
            den >= 2,
    ;
    (num / den) as i64
}

impl Clone for Axes {
    fn clone(&self) -> (r: Axes)
        ensures
            r == *self,
    {
        Axes {
            x_range: self.x_range,
            y_range: self.y_range,
            show_numbers: self.show_numbers,
            tick_spacing: self.tick_spacing,
            x_label: self.x_label.clone(),
            y_label: self.y_label.clone(),
            show_arrows: self.show_arrows,
            base_range: self.base_range,
        }
    }
}

impl Default for Axes {
    /// Ranges `(-10, 10)` on both axes, ticks one unit apart, labelled `x`
    /// and `y`, with numbers and arrows.
    fn default() -> (r: Axes)
        ensures
            r.wf(),
            r.x_range == ((-10 * UNIT) as i64, (10 * UNIT) as i64),
            r.y_range == ((-10 * UNIT) as i64, (10 * UNIT) as i64),
            r.show_numbers && r.show_arrows,
            r.tick_spacing == UNIT,
            r.x_label@ == seq!['x'],
            r.y_label@ == seq!['y'],
            r.base_range == ((20 * UNIT) as i64, (20 * UNIT) as i64),
    {
        proof {
            reveal_strlit("x");
            reveal_strlit("y");
        }
        Axes {
            x_range: (-10 * UNIT, 10 * UNIT),
            y_range: (-10 * UNIT, 10 * UNIT),
            show_numbers: true,
            tick_spacing: UNIT,
            x_label: String::from_str("x"),
            y_label: String::from_str("y"),
            show_arrows: true,
            base_range: (20 * UNIT, 20 * UNIT),
        }
    }
}

/// The visible ranges after a recomputation are symmetric about the origin,
/// and they never widen as the zoom grows: for `zoom1 <= zoom2` the half
/// extent at `zoom2` is at most that at `zoom1`. It is strictly smaller
/// whenever the exact widths differ by at least one millionth, that is when
/// `base * UNIT * (zoom2 - zoom1) >= 2 * zoom1 * zoom2`; closer zoom levels
/// can round to the same millionth.
pub proof fn lemma_range_shrinks_with_zoom(axes: Axes, zoom1: int, zoom2: int)
    requires
        axes.wf(),
        0 < zoom1 <= zoom2,
    ensures
        axes.spec_for_zoom(zoom1).x_range.0 == -axes.spec_for_zoom(zoom1).x_range.1,
        axes.spec_for_zoom(zoom1).y_range.0 == -axes.spec_for_zoom(zoom1).y_range.1,
        half_extent(axes.base_range.0 as int, zoom2) <= half_extent(axes.base_range.0 as int, zoom1),
        half_extent(axes.base_range.1 as int, zoom2) <= half_extent(axes.base_range.1 as int, zoom1),
        axes.base_range.0 * UNIT * (zoom2 - zoom1) >= 2 * zoom1 * zoom2 ==> half_extent(
            axes.base_range.0 as int,
            zoom2,
        ) < half_extent(axes.base_range.0 as int, zoom1),
        axes.base_range.1 * UNIT * (zoom2 - zoom1) >= 2 * zoom1 * zoom2 ==> half_extent(
            axes.base_range.1 as int,
            zoom2,
        ) < half_extent(axes.base_range.1 as int, zoom1),
{
    lemma_half_extent_bounds(axes.base_range.0 as int, zoom1);
    lemma_half_extent_bounds(axes.base_range.1 as int, zoom1);
    lemma_half_extent_antitone(axes.base_range.0 as int * UNIT, zoom1, zoom2);
    lemma_half_extent_antitone(axes.base_range.1 as int * UNIT, zoom1, zoom2);
}

/// The tick spacing is always a step of the ladder 10, 5, 2, 1, 0.5, 0.2, 0.1.
pub proof fn lemma_tick_spacing_on_ladder(base_x: int, zoom: int)
    ensures
        ({
            let t = tick_spacing_for(base_x, zoom);
            t == 10 * UNIT || t == 5 * UNIT || t == 2 * UNIT || t == UNIT || t == UNIT / 2 || t == UNIT
                / 5 || t == UNIT / 10
        }),
{
}

proof fn lemma_half_extent_bounds(base: int, zoom: int)
    requires
        0 <= base <= MAX_SPAN,
        zoom > 0,
    ensures
        0 <= half_extent(base, zoom) <= MAX_WORLD,
{
    assert(base * UNIT / (2 * zoom) <= base * UNIT / 2) by (nonlinear_arith)
        requires
            base >= 0,
            zoom >= 1,
    ;
}

proof fn lemma_half_extent_antitone(b: int, z1: int, z2: int)
    requires
        b >= 0,
        0 < z1 <= z2,
    ensures
        b / (2 * z2) <= b / (2 * z1),
        b * (z2 - z1) >= 2 * z1 * z2 ==> b / (2 * z2) < b / (2 * z1),
{
    let q2 = b / (2 * z2);
    assert(2 * z2 * q2 <= b) by (nonlinear_arith)
        requires
            q2 == b / (2 * z2),
            z2 > 0,
    ;
    assert(q2 >= 0) by (nonlinear_arith)
        requires
            q2 == b / (2 * z2),
            z2 > 0,
            b >= 0,
    ;
    assert(2 * z1 * q2 <= b) by (nonlinear_arith)
        requires
            2 * z2 * q2 <= b,
            q2 >= 0,
            0 < z1 <= z2,
    ;
    assert(q2 <= b / (2 * z1)) by (nonlinear_arith)
        requires
            2 * z1 * q2 <= b,
            z1 > 0,
    ;
    if b * (z2 - z1) >= 2 * z1 * z2 {
        assert(z2 * (2 * z1 * q2 + 2 * z1) <= z2 * b) by (nonlinear_arith)
            requires
                2 * z2 * q2 <= b,
                q2 >= 0,
                b * (z2 - z1) >= 2 * z1 * z2,
                0 < z1 <= z2,
        ;
        assert(2 * z1 * (q2 + 1) <= b) by (nonlinear_arith)
            requires
                z2 * (2 * z1 * q2 + 2 * z1) <= z2 * b,
                z2 > 0,
        ;
        assert(q2 + 1 <= b / (2 * z1)) by (nonlinear_arith)
            requires
                2 * z1 * (q2 + 1) <= b,
                z1 > 0,
        ;
    }
}

} // verus!
