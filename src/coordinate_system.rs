use vstd::prelude::*;

use crate::axes::Axes;
use crate::camera::CameraState;
use crate::grid::Grid;

verus! {

/// Which parts of the coordinate system are shown.
#[derive(Clone, Copy, Debug, PartialEq, Eq, Structural)]
pub struct CoordinateSystemState {
    pub show_axes: bool,
    pub show_grid: bool,
}

impl CoordinateSystemState {
    /// Flips whether the axes are shown and returns the new setting.
    pub fn toggle_axes(&mut self) -> (r: bool)
        ensures
            r == final(self).show_axes,
            *final(self) == (CoordinateSystemState { show_axes: !old(self).show_axes, ..*old(self) }),
    {
        self.show_axes = !self.show_axes;
        self.show_axes
    }

    /// Flips whether the grid is shown and returns the new setting.
    pub fn toggle_grid(&mut self) -> (r: bool)
        ensures
            r == final(self).show_grid,
            *final(self) == (CoordinateSystemState { show_grid: !old(self).show_grid, ..*old(self) }),
    {
        self.show_grid = !self.show_grid;
        self.show_grid
    }
}

impl Default for CoordinateSystemState {
    /// Axes and grid both shown.
    fn default() -> (r: CoordinateSystemState)
        ensures
            r.show_axes && r.show_grid,
    {
        CoordinateSystemState { show_axes: true, show_grid: true }
    }
}

/// Whether the control panel is shown.
#[derive(Clone, Copy, Debug, PartialEq, Eq, Structural)]
pub struct UiVisibility {
    pub show_ui: bool,
}

impl UiVisibility {
    /// Flips whether the panel is shown and returns the new setting.
    pub fn toggle(&mut self) -> (r: bool)
        ensures
            r == final(self).show_ui,
            final(self).show_ui == !old(self).show_ui,
    {
        self.show_ui = !self.show_ui;
        self.show_ui
    }
}

impl Default for UiVisibility {
    /// The panel is shown.
    fn default() -> (r: UiVisibility)
        ensures
            r.show_ui,
    {
        UiVisibility { show_ui: true }
    }
}

/// Every axes value is well formed.
pub open spec fn all_axes_wf(axes: Seq<Axes>) -> bool {
    forall|i: int| 0 <= i < axes.len() ==> (#[trigger] axes[i]).wf()
}

/// Every grid is well formed.
pub open spec fn all_grids_wf(grids: Seq<Grid>) -> bool {
    forall|i: int| 0 <= i < grids.len() ==> (#[trigger] grids[i]).wf()
}

/// The state after one recomputation step, as `(camera, axes, grids)`: when
/// the zoom has moved more than the tolerance since the last recomputation,
/// every axes and grid is recomputed for it and the change is consumed;
/// otherwise nothing changes.
pub open spec fn spec_update(camera: CameraState, axes: Seq<Axes>, grids: Seq<Grid>) -> (
    CameraState,
    Seq<Axes>,
    Seq<Grid>,
) {
    if camera.spec_zoom_changed() {
        (
            CameraState { previous_zoom: camera.zoom, ..camera },
            axes.map_values(|a: Axes| a.spec_for_zoom(camera.zoom as int)),
            grids.map_values(|g: Grid| g.spec_for_zoom(camera.zoom as int)),
        )
    } else {
        (camera, axes, grids)
    }
}

/// Recomputes the ranges, tick spacing and grid spacing when the zoom has
/// changed since the last recomputation; returns whether it did.
pub fn update_coordinate_system(
    camera: &mut CameraState,
    axes: &mut Vec<Axes>,
    grids: &mut Vec<Grid>,
) -> (r: bool)
    requires
        old(camera).wf(),
        all_axes_wf(old(axes)@),
        all_grids_wf(old(grids)@),
    ensures
        r == old(camera).spec_zoom_changed(),
        (*final(camera), final(axes)@, final(grids)@) == spec_update(
            *old(camera),
            old(axes)@,
            old(grids)@,
        ),
        final(camera).wf(),
        all_axes_wf(final(axes)@),
        all_grids_wf(final(grids)@),
{
    if !camera.zoom_changed() {
        return false;
    }
    let zoom = camera.zoom;
    let mut i: usize = 0;
    while i < axes.len()
        invariant
            0 < zoom,
            i <= axes.len() == old(axes)@.len(),
            forall|j: int| 0 <= j < i ==> axes@[j] == old(axes)@[j].spec_for_zoom(zoom as int),
            forall|j: int| i <= j < axes@.len() ==> axes@[j] == old(axes)@[j],
            all_axes_wf(old(axes)@),
            all_axes_wf(axes@),
        decreases axes.len() - i,
    {
        axes[i].update_for_zoom(zoom);
        i = i + 1;
    }
    let mut k: usize = 0;
    while k < grids.len()
        invariant
            k <= grids.len() == old(grids)@.len(),
            forall|j: int| 0 <= j < k ==> grids@[j] == old(grids)@[j].spec_for_zoom(zoom as int),
            forall|j: int| k <= j < grids@.len() ==> grids@[j] == old(grids)@[j],
            all_grids_wf(old(grids)@),
            all_grids_wf(grids@),
        decreases grids.len() - k,
    {
        grids[k].update_for_zoom(zoom);
        k = k + 1;
    }
    camera.previous_zoom = zoom;
    assert(axes@ == old(axes)@.map_values(|a: Axes| a.spec_for_zoom(zoom as int)));
    assert(grids@ == old(grids)@.map_values(|g: Grid| g.spec_for_zoom(zoom as int)));
    true
}

/// Recomputing twice in a row is the same as recomputing once: the first step
/// consumes the change of zoom, so the second leaves the camera, the ranges,
/// the tick spacing and the grid spacing as they are.
pub proof fn lemma_update_idempotent(camera: CameraState, axes: Seq<Axes>, grids: Seq<Grid>)
    requires
        camera.wf(),
    ensures
        ({
            let once = spec_update(camera, axes, grids);
            spec_update(once.0, once.1, once.2) == once
        }),
{
}

} // verus!
