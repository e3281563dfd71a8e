use bezier_editor::bezier::interpolated_point;
use bezier_editor::geometry::from_normalized_control_point;
use bezier_editor::geometry::to_normalized_control_point;
use bezier_editor::geometry::ControlPoint;
use bezier_editor::geometry::HALF_SCALE;
use bezier_editor::geometry::SCALE;

fn points_from_pixels(pixels: &[(u32, u32)], size: (u32, u32)) -> Vec<ControlPoint> {
    pixels.iter().map(|&p| to_normalized_control_point(p, size)).collect()
}

#[test]
fn evaluate_at_zero_returns_first_point() {
    let size = (1024, 1024);
    let pts = points_from_pixels(&[(100, 100), (200, 50), (300, 100), (512, 700)], size);
    let first = pts[0];
    let e = interpolated_point(&pts, 0);
    assert_eq!(e, first);
}

#[test]
fn evaluate_at_one_returns_last_point() {
    let size = (1024, 1024);
    let pts = points_from_pixels(&[(100, 100), (200, 50), (300, 100), (512, 700)], size);
    let last = pts[pts.len() - 1];
    let e = interpolated_point(&pts, SCALE);
    assert_eq!(e, last);
}

#[test]
fn endpoint_interpolation_on_two_points() {
    let size = (640, 480);
    let pts = points_from_pixels(&[(33, 44), (555, 66)], size);
    assert_eq!(interpolated_point(&pts, 0), pts[0]);
    assert_eq!(interpolated_point(&pts, SCALE), pts[1]);
}

#[test]
fn quadratic_midpoint_is_exact() {
    // Control points (100,100), (200,50), (300,100) in pixel space at
    // ratio one half: the quadratic Bezier midpoint is exactly (200, 75).
    let size = (1024, 1024);
    let pts = points_from_pixels(&[(100, 100), (200, 50), (300, 100)], size);
    let e = interpolated_point(&pts, HALF_SCALE);
    let pixel = from_normalized_control_point(e, size);
    assert_eq!(pixel, (200, 75));
}

#[test]
fn midpoint_of_segment_is_exact() {
    let size = (1024, 1024);
    let pts = points_from_pixels(&[(100, 100), (300, 300)], size);
    let e = interpolated_point(&pts, HALF_SCALE);
    let pixel = from_normalized_control_point(e, size);
    assert_eq!(pixel, (200, 200));
}

#[test]
fn evaluation_stays_normalized() {
    let size = (800, 600);
    let pts = points_from_pixels(&[(0, 0), (799, 0), (0, 599), (799, 599)], size);
    for &t in &[0u32, 1, 1000, HALF_SCALE, 65535, SCALE] {
        let e = interpolated_point(&pts, t);
        assert!(e.x <= SCALE);
        assert!(e.y <= 0 && e.y >= -(SCALE as i32));
    }
}
