use bezier_editor::geometry::from_normalized_control_point;
use bezier_editor::geometry::hit_test;
use bezier_editor::geometry::to_normalized_control_point;
use bezier_editor::geometry::ControlPoint;
use bezier_editor::geometry::HALF_SCALE;
use bezier_editor::geometry::SCALE;

#[test]
fn scale_constants() {
    assert_eq!(SCALE, 65536);
    assert_eq!(HALF_SCALE, 32768);
}

#[test]
fn normalized_point_sign_convention() {
    // x scales with the width; y is stored with inverted sign.
    let p = to_normalized_control_point((512, 256), (1024, 1024));
    assert_eq!(p.x, 32768);
    assert_eq!(p.y, -16384);
}

#[test]
fn round_trip_exact_on_power_of_two_window() {
    let size = (1024, 1024);
    for &px in &[0u32, 1, 100, 395, 512, 1023, 1024] {
        let p = to_normalized_control_point((px, px), size);
        let back = from_normalized_control_point(p, size);
        assert_eq!(back, (px, px));
    }
}

#[test]
fn round_trip_within_one_pixel() {
    // For any pixel inside the window and any span up to SCALE, the round
    // trip lands within one pixel, and never moves toward the origin.
    for &size in &[(7u32, 13u32), (640, 480), (1000, 1000), (1366, 768), (65536, 65536)] {
        for &p in &[(0u32, 0u32), (1, 1), (3, 7), (333, 123), (size.0 - 1, size.1 - 1)] {
            let n = to_normalized_control_point(p, size);
            let back = from_normalized_control_point(n, size);
            assert!(back.0 == p.0 || back.0 == p.0 + 1, "x {} -> {}", p.0, back.0);
            assert!(back.1 == p.1 || back.1 == p.1 + 1, "y {} -> {}", p.1, back.1);
        }
    }
}

#[test]
fn normalized_values_stay_in_unit_square() {
    for &size in &[(10u32, 10u32), (1920, 1080), (65536, 65536)] {
        for &p in &[(0u32, 0u32), (size.0 / 3, size.1 / 2), (size.0, size.1)] {
            let n = to_normalized_control_point(p, size);
            assert!(n.x <= SCALE);
            assert!(n.y <= 0 && n.y >= -(SCALE as i32));
        }
    }
}

#[test]
fn hit_test_strict_boundaries() {
    let corner = (100u32, 200u32);
    let radius = 5u32;
    // The exact corner pixel misses: both inequalities are strict.
    assert!(!hit_test(corner, radius, (100, 200)));
    // One pixel inside on both axes hits.
    assert!(hit_test(corner, radius, (101, 201)));
    // The center of the marker hits.
    assert!(hit_test(corner, radius, (105, 205)));
    // The last pixel before the far edge hits.
    assert!(hit_test(corner, radius, (110, 210)));
    // The far edge pixel (corner + 2r + 1) misses.
    assert!(!hit_test(corner, radius, (111, 211)));
    // Hits need both axes inside the box.
    assert!(!hit_test(corner, radius, (105, 200)));
    assert!(!hit_test(corner, radius, (100, 205)));
}

#[test]
fn click_position_hits_the_point_it_placed() {
    // A point is stored offset by the radius from the click; converting
    // back to pixels keeps the click strictly inside its hit box.
    let size = (1000u32, 900u32);
    let radius = 5u32;
    for &click in &[(300u32, 300u32), (17, 23), (999, 899), (123, 456)] {
        let stored = to_normalized_control_point((click.0 - radius, click.1 - radius), size);
        let corner = from_normalized_control_point(stored, size);
        assert!(hit_test(corner, radius, click), "click {:?} missed corner {:?}", click, corner);
    }
}

#[test]
fn control_point_equality_is_positional() {
    let a = ControlPoint { x: 5, y: -7 };
    let b = ControlPoint { x: 5, y: -7 };
    let c = ControlPoint { x: 5, y: -8 };
    assert_eq!(a, b);
    assert_ne!(a, c);
}
