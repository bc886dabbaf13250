use rim::axes::{half_extent_of, Axes};
use rim::camera::CameraState;
use rim::fixed::UNIT;
use rim::function_graph::{create_function_graph, create_parametric_curve, FunctionGraph};
use rim::grid::Grid;
use rim::objects::{
    create_axes, create_axes_with_labels, create_circle, create_circle_with_resolution,
    create_coordinate_system, create_grid, create_line, CircleState, MathCircle, Position2D,
    Rectangle, Rgba, Style,
};
use rim::render::view_fits;

fn id_has_prefix_and_number(id: &str, prefix: &str) -> bool {
    id.starts_with(prefix)
        && id.len() > prefix.len()
        && id[prefix.len()..].chars().all(|c| c.is_ascii_digit())
        && id[prefix.len()..].parse::<u32>().is_ok()
}

#[test]
fn axes_take_base_range_from_their_ranges() {
    let e = create_axes((-10 * UNIT, 10 * UNIT), (-8 * UNIT, 8 * UNIT), Style::default());
    assert_eq!(e.shape.base_range, (20 * UNIT, 16 * UNIT));
    assert_eq!(e.shape.tick_spacing, UNIT);
    assert_eq!(e.shape.x_label, "x");
    assert_eq!(e.shape.y_label, "y");
    assert!(e.shape.show_numbers && e.shape.show_arrows);
    assert_eq!(e.object.layer, -1);
    assert!(e.object.visible);
    assert!(id_has_prefix_and_number(&e.object.id, "axes_"));
}

#[test]
fn axes_with_labels_keep_names_and_reversed_widths() {
    let e = create_axes_with_labels(
        (3 * UNIT, -UNIT),
        (0, 2 * UNIT),
        "t".to_string(),
        "f(t)".to_string(),
        Style::default(),
    );
    assert_eq!(e.shape.base_range, (4 * UNIT, 2 * UNIT));
    assert_eq!(e.shape.x_label, "t");
    assert_eq!(e.shape.y_label, "f(t)");
}

#[test]
fn grid_object_sits_in_back_layer() {
    let e = create_grid(UNIT, Style::default());
    assert_eq!(e.shape.spacing, UNIT);
    assert_eq!(e.shape.minor_spacing, UNIT / 5);
    assert_eq!(e.shape.base_spacing, UNIT);
    assert_eq!(e.object.layer, -2);
    assert!(id_has_prefix_and_number(&e.object.id, "grid_"));
}

#[test]
fn circle_takes_colour_and_fill_from_style() {
    let red = Rgba { red: UNIT, green: 0, blue: 0, alpha: UNIT };
    let style = Style { stroke_color: red, fill_color: Some(red), stroke_width: UNIT, opacity: UNIT };
    let pos = Position2D { x: UNIT, y: -UNIT };
    let e = create_circle_with_resolution(pos, 2 * UNIT, style, Some(32));
    assert_eq!(
        e.shape,
        MathCircle { radius: 2 * UNIT, color: red, filled: true, resolution: Some(32) }
    );
    assert_eq!(e.position, pos);
    let plain = create_circle(pos, UNIT, Style::default());
    assert!(!plain.shape.filled);
    assert_eq!(plain.shape.resolution, None);
    assert!(id_has_prefix_and_number(&plain.object.id, "circle_"));
}

#[test]
fn line_is_positioned_at_its_midpoint() {
    let e = create_line(
        Position2D { x: -3 * UNIT, y: 0 },
        Position2D { x: UNIT, y: 4 * UNIT },
        Style::default(),
    );
    assert_eq!(e.position, Position2D { x: -UNIT, y: 2 * UNIT });
    assert!(id_has_prefix_and_number(&e.object.id, "line_"));
    let odd = create_line(Position2D { x: -1, y: 1 }, Position2D { x: -2, y: 2 }, Style::default());
    assert_eq!(odd.position, Position2D { x: -2, y: 1 });
}

#[test]
fn shape_defaults() {
    assert_eq!(Rectangle::default(), Rectangle { width: 2 * UNIT, height: UNIT });
    let c = MathCircle::default();
    assert_eq!(c.radius, UNIT);
    assert!(c.filled);
    let s = Style::default();
    assert_eq!(s.stroke_width, 2 * UNIT);
    assert_eq!(s.fill_color, None);
}

#[test]
fn function_graph_samples_domain_evenly() {
    let e = create_function_graph(|x: i64| 2 * x, (-5 * UNIT, 5 * UNIT), Style::default());
    let pts = &e.shape.points;
    assert_eq!(pts.len(), 100);
    assert_eq!(pts[0], Position2D { x: -5 * UNIT, y: -10 * UNIT });
    assert_eq!(pts[99], Position2D { x: 5 * UNIT, y: 10 * UNIT });
    assert_eq!(pts[1].x, -5 * UNIT + 101_010);
    assert!(id_has_prefix_and_number(&e.object.id, "function_"));
}

#[test]
fn parametric_curve_evaluates_both_functions() {
    let e = create_parametric_curve(|t: i64| t, |t: i64| -t, (0, UNIT), Style::default());
    let pts = &e.shape.points;
    assert_eq!(pts.len(), 100);
    assert_eq!(pts[0], Position2D { x: 0, y: 0 });
    assert_eq!(pts[99], Position2D { x: UNIT, y: -UNIT });
    assert_eq!(pts[50].x, 505_050);
    assert!(id_has_prefix_and_number(&e.object.id, "curve_"));
}

#[test]
fn empty_graph_is_resampled_along_identity() {
    let mut g = FunctionGraph::default();
    g.update_function_graph();
    assert_eq!(g.points.len(), 100);
    assert_eq!(g.points[0], Position2D { x: -5 * UNIT, y: -5 * UNIT });
    assert_eq!(g.points[99], Position2D { x: 5 * UNIT, y: 5 * UNIT });
    let before = g.points.clone();
    g.update_function_graph();
    assert_eq!(g.points, before);
}

#[test]
fn circle_placement_wraps_rows() {
    let mut c = CircleState::default();
    assert!(c.circle_style().fill_color.is_none());
    c.show_fill = true;
    let style = c.circle_style();
    assert_eq!(style.fill_color.unwrap().alpha, 300_000);
    assert_eq!(style.fill_color.unwrap().green, 800_000);
    assert_eq!(style.stroke_color.alpha, UNIT);
    for _ in 0..4 {
        c.advance();
    }
    assert_eq!(c.next_position, Position2D { x: 8 * UNIT, y: 0 });
    c.advance();
    assert_eq!(c.next_position, Position2D { x: -8 * UNIT, y: 2 * UNIT });
    c.next_position = Position2D { x: 8 * UNIT, y: 6 * UNIT };
    c.advance();
    assert_eq!(c.next_position, Position2D { x: -8 * UNIT, y: -6 * UNIT });
    c.reset_position();
    assert_eq!(c.next_position, Position2D { x: 0, y: 0 });
}

#[test]
fn validity_checks() {
    assert!(CameraState::default().is_valid());
    let mut bad = CameraState::default();
    bad.min_zoom = 0;
    assert!(!bad.is_valid());
    assert!(Axes::default().is_valid());
    let mut axes = Axes::default();
    axes.tick_spacing = 0;
    assert!(!axes.is_valid());
    assert!(Grid::default().is_valid());
    assert!(view_fits(Position2D { x: 0, y: 0 }, 1_200_000_000, 800_000_000));
    assert!(!view_fits(Position2D { x: 0, y: 0 }, -1, 800_000_000));
    assert_eq!(half_extent_of(20 * UNIT, 4 * UNIT), 2_500_000);
}

#[test]
fn start_up_coordinate_system() {
    let (grid, axes) = create_coordinate_system();
    assert_eq!(grid.shape, Grid::new(UNIT));
    assert_eq!(grid.object.layer, -2);
    assert_eq!(grid.style.stroke_color.red, 300_000);
    assert_eq!(grid.style.opacity, 300_000);
    assert!(id_has_prefix_and_number(&grid.object.id, "grid_"));
    assert_eq!(axes.shape.x_range, (-10 * UNIT, 10 * UNIT));
    assert_eq!(axes.shape.y_range, (-8 * UNIT, 8 * UNIT));
    assert_eq!(axes.shape.base_range, (20 * UNIT, 16 * UNIT));
    assert_eq!(axes.shape.x_label, "x");
    assert_eq!(axes.style.stroke_width, 2 * UNIT);
    assert_eq!(axes.object.layer, -1);
    assert!(id_has_prefix_and_number(&axes.object.id, "axes_"));
}
