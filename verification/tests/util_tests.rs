use route_guide::types::{Feature, Point, Rectangle};
use route_guide::util::{check_feature, feature_exists, format_point, in_range, point_eq};

fn pt(latitude: i32, longitude: i32) -> Point {
    Point { latitude, longitude }
}

fn feat(name: &str, latitude: i32, longitude: i32) -> Feature {
    Feature { name: String::from(name), location: pt(latitude, longitude) }
}

fn rect(lo_lat: i32, lo_lon: i32, hi_lat: i32, hi_lon: i32) -> Rectangle {
    Rectangle { lo: pt(lo_lat, lo_lon), hi: pt(hi_lat, hi_lon) }
}

#[test]
fn point_eq_is_exact() {
    assert!(point_eq(&pt(10, -20), &pt(10, -20)));
    assert!(!point_eq(&pt(10, -20), &pt(10, -21)));
    assert!(!point_eq(&pt(11, -20), &pt(10, -20)));
    assert!(!point_eq(&pt(-20, 10), &pt(10, -20)));
}

#[test]
fn feature_exists_means_named() {
    assert!(feature_exists(&feat("Patriots Path", 1, 2)));
    assert!(!feature_exists(&feat("", 1, 2)));
}

#[test]
fn in_range_inclusive_bounds() {
    let r = rect(0, 0, 100, 200);
    assert!(in_range(&pt(50, 50), &r));
    assert!(in_range(&pt(0, 0), &r));
    assert!(in_range(&pt(100, 200), &r));
    assert!(in_range(&pt(0, 200), &r));
    assert!(!in_range(&pt(101, 50), &r));
    assert!(!in_range(&pt(50, 201), &r));
    assert!(!in_range(&pt(-1, 50), &r));
    assert!(!in_range(&pt(50, -1), &r));
}

#[test]
fn in_range_normalizes_swapped_corners() {
    let points = [pt(50, 50), pt(0, 0), pt(100, 200), pt(101, 50), pt(-7, 300)];
    let normal = rect(0, 0, 100, 200);
    let swapped = rect(100, 200, 0, 0);
    let mixed_a = rect(0, 200, 100, 0);
    let mixed_b = rect(100, 0, 0, 200);
    for p in points.iter() {
        let expected = in_range(p, &normal);
        assert_eq!(in_range(p, &swapped), expected);
        assert_eq!(in_range(p, &mixed_a), expected);
        assert_eq!(in_range(p, &mixed_b), expected);
    }
}

#[test]
fn check_feature_returns_first_match() {
    let features = vec![
        feat("first", 5, 5),
        feat("second", 7, 7),
        feat("third", 5, 5),
    ];
    let found = check_feature(&features, &pt(5, 5)).unwrap();
    assert_eq!(found.name, "first");
    assert_eq!(found.location, pt(5, 5));
    let other = check_feature(&features, &pt(7, 7)).unwrap();
    assert_eq!(other.name, "second");
}

#[test]
fn check_feature_misses() {
    let features = vec![feat("somewhere", 5, 5)];
    assert!(check_feature(&features, &pt(5, 6)).is_none());
    assert!(check_feature(&Vec::new(), &pt(5, 5)).is_none());
}

#[test]
fn format_point_renders_decimal_degrees() {
    assert_eq!(format_point(&pt(409146138, -746188906)), "(40.9146138, -74.6188906)");
    assert_eq!(format_point(&pt(0, 0)), "(0, 0)");
    assert_eq!(format_point(&pt(400000000, -750000000)), "(40, -75)");
    assert_eq!(format_point(&pt(401200000, 10000000)), "(40.12, 1)");
    assert_eq!(format_point(&pt(-3, 5)), "(-0.0000003, 0.0000005)");
    assert_eq!(format_point(&pt(i32::MIN, i32::MAX)), "(-214.7483648, 214.7483647)");
}

#[test]
fn format_point_matches_float_rendering() {
    let coords = [
        (409146138, -746188906),
        (0, 0),
        (400000000, -750000000),
        (401200000, 10000000),
        (-3, 5),
        (i32::MIN, i32::MAX),
        (123456789, -1),
        (-100000000, 214748364),
    ];
    for &(lat, lon) in coords.iter() {
        let expected = format!("({}, {})", lat as f64 / 1e7, lon as f64 / 1e7);
        assert_eq!(format_point(&pt(lat, lon)), expected);
    }
}
