use vstd::prelude::*;

use crate::fixed::{MAX_SPAN, UNIT};

verus! {

/// Major grid spacing for a reference spacing `base` at `zoom`: a step of
/// the ladder 0.2, 0.5, 1, 2, 5 times `base`, chosen by the zoom itself,
/// each threshold exclusive.
pub open spec fn grid_spacing_for(base: int, zoom: int) -> int {
    if zoom > 5 * UNIT {
        base * 2 / 10
    } else if zoom > 2 * UNIT {
        base * 5 / 10
    } else if zoom > UNIT / 2 {
        base
    } else if zoom > UNIT / 5 {
        base * 2
    } else {
        base * 5
    }
}

/// A background grid of major lines and finer minor lines.
#[derive(Clone, Copy, Debug, PartialEq, Eq, Structural)]
pub struct Grid {
    /// Distance between major lines.
    pub spacing: i64,
    /// Opacity of the major lines, `UNIT` being opaque.
    pub opacity: i64,
    pub show_minor_grid: bool,
    /// Distance between minor lines, a fifth of `spacing`.
    pub minor_spacing: i64,
    /// Spacing at zoom 1, kept from creation.
    pub base_spacing: i64,
}

impl Grid {
    /// A reference spacing large enough that every step of the ladder is
    /// positive, a positive spacing with its minor fifth, and an opacity in
    /// `[0, 1]`.
    pub open spec fn wf(&self) -> bool {
        &&& 5 <= self.base_spacing <= MAX_SPAN
        &&& 0 < self.spacing <= 5 * MAX_SPAN
        &&& self.minor_spacing == self.spacing / 5
        &&& 0 <= self.opacity <= UNIT
    }

    /// The grid recomputed for `zoom`: spacing from the ladder, minor spacing
    /// a fifth of it, everything else kept.
    pub open spec fn spec_for_zoom(self, zoom: int) -> Grid {
        let s = grid_spacing_for(self.base_spacing as int, zoom);
        Grid { spacing: s as i64, minor_spacing: (s / 5) as i64, ..self }
    }

    /// Whether the grid is well formed.
    pub fn is_valid(&self) -> (r: bool)
        ensures
            r == self.wf(),
    {
        5 <= self.base_spacing && self.base_spacing <= MAX_SPAN && 0 < self.spacing && self.spacing
            <= 5 * MAX_SPAN && self.minor_spacing == self.spacing / 5 && 0 <= self.opacity
            && self.opacity <= UNIT
    }

    /// A grid of major spacing `spacing` as `new` makes it.
    pub open spec fn spec_new(spacing: int) -> Grid {
        Grid {
            spacing: spacing as i64,
            opacity: (UNIT * 3 / 10) as i64,
            show_minor_grid: true,
            minor_spacing: (spacing / 5) as i64,
            base_spacing: spacing as i64,
        }
    }

    /// A grid of the given major spacing, at opacity 0.3 with minor lines.
    pub fn new(spacing: i64) -> (r: Grid)
        requires
            5 <= spacing <= MAX_SPAN,
        ensures
            r.wf(),
            r == Grid::spec_new(spacing as int),
            r.spacing == spacing && r.base_spacing == spacing,
            r.minor_spacing == spacing / 5,
            r.opacity == UNIT * 3 / 10,
            r.show_minor_grid,
    {
        Grid {
            spacing,
            opacity: UNIT * 3 / 10,
            show_minor_grid: true,
            minor_spacing: spacing / 5,
            base_spacing: spacing,
        }
    }

    /// Recomputes the major and minor spacing for `zoom`.
    pub fn update_for_zoom(&mut self, zoom: i64)
        requires
            old(self).wf(),
        ensures
            final(self).wf(),
            *final(self) == old(self).spec_for_zoom(zoom as int),
    {
        let base = self.base_spacing;
        let spacing: i64 = if zoom > 5 * UNIT {
            base * 2 / 10
        } else if zoom > 2 * UNIT {
            base * 5 / 10
        } else if zoom > UNIT / 2 {
            base
        } else if zoom > UNIT / 5 {
            base * 2
        } else {
            base * 5
        };
        self.spacing = spacing;
        self.minor_spacing = spacing / 5;
    }
}

impl Default for Grid {
    /// Unit spacing at opacity 0.3, with minor lines.
    fn default() -> (r: Grid)
        ensures
            r.wf(),
            r.spacing == UNIT && r.base_spacing == UNIT,
            r.minor_spacing == UNIT / 5,
            r.opacity == UNIT * 3 / 10,
            r.show_minor_grid,
    {
        Grid::new(UNIT)
    }
}

} // verus!
