use rim::axes::Axes;
use rim::camera::CameraState;
use rim::coordinate_system::{update_coordinate_system, CoordinateSystemState, UiVisibility};
use rim::fixed::UNIT;
use rim::grid::Grid;

#[test]
fn tick_spacing_at_threshold_falls_to_lower_tier() {
    let axes = Axes::default();
    assert_eq!(axes.base_range, (20 * UNIT, 20 * UNIT));
    assert_eq!(axes.calculate_tick_spacing(UNIT), UNIT);
}

#[test]
fn tick_spacing_at_double_zoom_is_half() {
    let axes = Axes::default();
    assert_eq!(axes.calculate_tick_spacing(2 * UNIT), UNIT / 2);
}

#[test]
fn tick_spacing_ladder_tiers() {
    let axes = Axes::default();
    assert_eq!(axes.calculate_tick_spacing(UNIT / 10), 10 * UNIT);
    assert_eq!(axes.calculate_tick_spacing(UNIT / 5), 5 * UNIT);
    assert_eq!(axes.calculate_tick_spacing(UNIT / 2), 2 * UNIT);
    assert_eq!(axes.calculate_tick_spacing(1_500_000), UNIT);
    assert_eq!(axes.calculate_tick_spacing(3 * UNIT), UNIT / 2);
    assert_eq!(axes.calculate_tick_spacing(4 * UNIT), UNIT / 5);
    assert_eq!(axes.calculate_tick_spacing(10 * UNIT), UNIT / 10);
}

#[test]
fn update_for_zoom_sets_symmetric_ranges() {
    let mut axes = Axes::default();
    axes.base_range = (20 * UNIT, 16 * UNIT);
    axes.update_for_zoom(2 * UNIT);
    assert_eq!(axes.x_range, (-5 * UNIT, 5 * UNIT));
    assert_eq!(axes.y_range, (-4 * UNIT, 4 * UNIT));
    assert_eq!(axes.tick_spacing, UNIT / 2);
    assert_eq!(axes.x_label, "x");
}

#[test]
fn ranges_shrink_as_zoom_grows() {
    let mut widths = Vec::new();
    for zoom in [UNIT / 10, UNIT / 2, UNIT, 2 * UNIT, 7 * UNIT, 10 * UNIT] {
        let mut axes = Axes::default();
        axes.update_for_zoom(zoom);
        assert_eq!(axes.x_range.0, -axes.x_range.1);
        assert_eq!(axes.y_range.0, -axes.y_range.1);
        widths.push(axes.x_range.1 - axes.x_range.0);
    }
    for pair in widths.windows(2) {
        assert!(pair[1] < pair[0]);
    }
}

#[test]
fn grid_ladder_at_zoom_three() {
    let mut grid = Grid::default();
    grid.update_for_zoom(3 * UNIT);
    assert_eq!(grid.spacing, UNIT / 2);
    assert_eq!(grid.minor_spacing, UNIT / 10);
}

#[test]
fn grid_ladder_tiers() {
    let cases = [
        (6 * UNIT, UNIT / 5),
        (5 * UNIT, UNIT / 2),
        (2 * UNIT, UNIT),
        (UNIT / 2, 2 * UNIT),
        (UNIT / 5, 5 * UNIT),
        (UNIT / 10, 5 * UNIT),
    ];
    for (zoom, spacing) in cases {
        let mut grid = Grid::default();
        grid.update_for_zoom(zoom);
        assert_eq!(grid.spacing, spacing);
        assert_eq!(grid.minor_spacing, spacing / 5);
        assert_eq!(grid.base_spacing, UNIT);
    }
}

#[test]
fn grid_defaults() {
    let grid = Grid::default();
    assert_eq!(grid.spacing, UNIT);
    assert_eq!(grid.minor_spacing, 200_000);
    assert_eq!(grid.opacity, 300_000);
    assert!(grid.show_minor_grid);
}

#[test]
fn recompute_twice_changes_nothing_the_second_time() {
    let mut camera = CameraState::default();
    camera.zoom = 2 * UNIT;
    let mut axes = vec![Axes::default()];
    let mut grids = vec![Grid::default()];
    assert!(update_coordinate_system(&mut camera, &mut axes, &mut grids));
    assert_eq!(camera.previous_zoom, 2 * UNIT);
    assert_eq!(axes[0].x_range, (-5 * UNIT, 5 * UNIT));
    assert_eq!(axes[0].tick_spacing, UNIT / 2);
    assert_eq!(grids[0].spacing, UNIT);
    let before_axes = axes[0].clone();
    let before_grid = grids[0];
    assert!(!update_coordinate_system(&mut camera, &mut axes, &mut grids));
    assert_eq!(axes[0].x_range, before_axes.x_range);
    assert_eq!(axes[0].y_range, before_axes.y_range);
    assert_eq!(axes[0].tick_spacing, before_axes.tick_spacing);
    assert_eq!(grids[0], before_grid);
}

#[test]
fn small_zoom_change_is_ignored() {
    let mut camera = CameraState::default();
    camera.zoom = UNIT + 500;
    let mut axes = vec![Axes::default()];
    let mut grids = vec![Grid::default()];
    assert!(!update_coordinate_system(&mut camera, &mut axes, &mut grids));
    assert_eq!(camera.previous_zoom, UNIT);
    assert_eq!(axes[0].x_range, (-10 * UNIT, 10 * UNIT));
}

#[test]
fn visibility_toggles_flip() {
    let mut state = CoordinateSystemState::default();
    assert!(!state.toggle_axes());
    assert!(state.show_grid);
    assert!(!state.toggle_grid());
    assert!(state.toggle_axes());
    let mut ui = UiVisibility::default();
    assert!(!ui.toggle());
    assert!(ui.toggle());
}
