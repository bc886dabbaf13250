use rim::axes::Axes;
use rim::fixed::UNIT;
use rim::grid::Grid;
use rim::objects::{Position2D, Rgba};
use rim::render::{
    axes_segments, axis_labels, axis_name_labels, grid_lines, multiples_in_range,
    name_label_position, AxisName, ScreenPoint, Segment, Skip,
};
use rim::text::label_text;

const PX: i64 = 1_000_000;

fn origin() -> Position2D {
    Position2D { x: 0, y: 0 }
}

#[test]
fn ticks_skip_the_origin() {
    let v = multiples_in_range(-10 * UNIT, 10 * UNIT, UNIT, Skip::Origin);
    assert_eq!(v.len(), 20);
    assert_eq!(v[0], -10 * UNIT);
    assert_eq!(v[9], -UNIT);
    assert_eq!(v[10], UNIT);
    assert_eq!(v[19], 10 * UNIT);
}

#[test]
fn ticks_start_at_first_multiple_inside_range() {
    let v = multiples_in_range(-2_500_000, 2_500_000, UNIT, Skip::Origin);
    assert_eq!(v, vec![-2 * UNIT, -UNIT, UNIT, 2 * UNIT]);
    let w = multiples_in_range(300_000, 1_700_000, UNIT / 2, Skip::Nothing);
    assert_eq!(w, vec![500_000, UNIT, 1_500_000]);
    let n = multiples_in_range(-1_700_000, -300_000, UNIT / 2, Skip::Nothing);
    assert_eq!(n, vec![-1_500_000, -UNIT, -500_000]);
    let empty = multiples_in_range(100_000, 400_000, UNIT, Skip::Nothing);
    assert!(empty.is_empty());
}

#[test]
fn minor_lines_skip_major_positions() {
    let v = multiples_in_range(-UNIT, UNIT, UNIT / 5, Skip::MultiplesOf(UNIT));
    assert_eq!(
        v,
        vec![-800_000, -600_000, -400_000, -200_000, 200_000, 400_000, 600_000, 800_000]
    );
}

#[test]
fn axes_segments_of_default_axes() {
    let axes = Axes::default();
    let segs = axes_segments(&axes, origin(), 1200 * PX, 800 * PX);
    assert_eq!(segs.len(), 2 + 4 + 40);
    assert_eq!(
        segs[0],
        Segment {
            start: ScreenPoint { x: -720 * PX, y: 0 },
            end: ScreenPoint { x: 720 * PX, y: 0 }
        }
    );
    assert_eq!(
        segs[1],
        Segment {
            start: ScreenPoint { x: 0, y: -480 * PX },
            end: ScreenPoint { x: 0, y: 480 * PX }
        }
    );
    assert_eq!(
        segs[2],
        Segment {
            start: ScreenPoint { x: 690 * PX, y: 0 },
            end: ScreenPoint { x: 675 * PX, y: -7_500_000 }
        }
    );
    assert_eq!(
        segs[5],
        Segment {
            start: ScreenPoint { x: 0, y: 450 * PX },
            end: ScreenPoint { x: 7_500_000, y: 435 * PX }
        }
    );
    assert_eq!(
        segs[6],
        Segment {
            start: ScreenPoint { x: -500 * PX, y: -8 * PX },
            end: ScreenPoint { x: -500 * PX, y: 8 * PX }
        }
    );
    assert_eq!(
        segs[45],
        Segment {
            start: ScreenPoint { x: -8 * PX, y: 500 * PX },
            end: ScreenPoint { x: 8 * PX, y: 500 * PX }
        }
    );
}

#[test]
fn axes_offset_moves_lines_but_not_arrows() {
    let mut axes = Axes::default();
    axes.show_numbers = false;
    let off = Position2D { x: 10 * PX, y: -4 * PX };
    let segs = axes_segments(&axes, off, 1000 * PX, 1000 * PX);
    assert_eq!(segs.len(), 6);
    assert_eq!(segs[0].start, ScreenPoint { x: -590 * PX, y: -4 * PX });
    assert_eq!(segs[2].start, ScreenPoint { x: 570 * PX, y: 0 });
    axes.show_arrows = false;
    assert_eq!(axes_segments(&axes, off, 1000 * PX, 1000 * PX).len(), 2);
}

#[test]
fn grid_lines_cover_seven_tenths_of_window() {
    let grid = Grid::default();
    let white = Rgba { red: UNIT, green: UNIT, blue: UNIT, alpha: UNIT };
    let lines = grid_lines(&grid, white, origin(), 100 * PX, 100 * PX);
    assert_eq!(lines.major.len(), 6);
    assert_eq!(
        lines.major[0],
        Segment {
            start: ScreenPoint { x: -50 * PX, y: -70 * PX },
            end: ScreenPoint { x: -50 * PX, y: 70 * PX }
        }
    );
    assert_eq!(
        lines.major[3],
        Segment {
            start: ScreenPoint { x: -70 * PX, y: -50 * PX },
            end: ScreenPoint { x: 70 * PX, y: -50 * PX }
        }
    );
    assert_eq!(lines.minor.len(), 24);
    assert_eq!(lines.minor[0].start.x, -70 * PX);
    assert_eq!(lines.major_color.alpha, 300_000);
    assert_eq!(lines.minor_color.alpha, 90_000);
    assert_eq!(lines.minor_color.red, UNIT);
}

#[test]
fn grid_without_minor_lines() {
    let mut grid = Grid::default();
    grid.show_minor_grid = false;
    let white = Rgba { red: UNIT, green: UNIT, blue: UNIT, alpha: UNIT };
    let lines = grid_lines(&grid, white, origin(), 100 * PX, 100 * PX);
    assert!(lines.minor.is_empty());
}

#[test]
fn label_precision_follows_spacing() {
    assert_eq!(label_text(2 * UNIT, UNIT), "2");
    assert_eq!(label_text(UNIT / 2, UNIT / 2), "0.5");
    assert_eq!(label_text(-3 * UNIT, UNIT / 2), "-3.0");
    assert_eq!(label_text(-1_500_000, UNIT / 2), "-1.5");
    assert_eq!(label_text(50_000, 50_000), "0.05");
    assert_eq!(label_text(10 * UNIT, 10 * UNIT), "10");
    assert_eq!(label_text(2_500_000, UNIT), "3");
    assert_eq!(label_text(UNIT / 5, UNIT / 10), "0.2");
}

#[test]
fn number_labels_of_default_axes() {
    let axes = Axes::default();
    let labels = axis_labels(&axes);
    assert_eq!(labels.len(), 40);
    assert_eq!(labels[0].axis, AxisName::X);
    assert_eq!(labels[0].value, -10 * UNIT);
    assert_eq!(labels[0].text, "-10");
    assert_eq!(labels[0].position, ScreenPoint { x: -500 * PX, y: -25 * PX });
    assert_eq!(labels[20].axis, AxisName::Y);
    assert_eq!(labels[20].position, ScreenPoint { x: -30 * PX, y: -500 * PX });
    assert_eq!(labels[39].text, "10");
}

#[test]
fn number_labels_hidden_without_numbers() {
    let mut axes = Axes::default();
    axes.show_numbers = false;
    assert!(axis_labels(&axes).is_empty());
}

#[test]
fn name_labels_stand_past_range_ends() {
    let axes = Axes::default();
    let names = axis_name_labels(&axes);
    assert_eq!(names.len(), 3);
    assert_eq!(names[0].text, "x");
    assert_eq!(names[0].position, ScreenPoint { x: 525 * PX, y: -15 * PX });
    assert_eq!(names[1].text, "y");
    assert_eq!(names[1].position, ScreenPoint { x: -15 * PX, y: 525 * PX });
    assert_eq!(names[2].text, "O");
    assert_eq!(names[2].font_size, 18 * PX);
    assert_eq!(
        name_label_position(&axes, AxisName::Origin),
        ScreenPoint { x: -15 * PX, y: -15 * PX }
    );
}
