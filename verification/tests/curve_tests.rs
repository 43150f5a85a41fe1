use fancontrol::curve::{build_curve_from_points, validate_curve};
use fancontrol::fan::{FanCurve, FanCurvePoint};

fn make_curve(points: Vec<(u32, u32)>, max_speed: u32) -> FanCurve {
    FanCurve {
        fan_id: 0,
        sensor_id: 3,
        min_speed: points.first().map(|p| p.1).unwrap_or(0),
        max_speed,
        min_temp: points.first().map(|p| p.0).unwrap_or(0),
        max_temp: points.last().map(|p| p.0).unwrap_or(0),
        points: points
            .into_iter()
            .map(|(t, s)| FanCurvePoint {
                temperature: t,
                fan_speed: s,
            })
            .collect(),
        active: true,
    }
}

#[test]
fn validate_curve_valid() {
    let curve = make_curve(
        vec![
            (58, 1600),
            (63, 2100),
            (68, 2700),
            (73, 3400),
            (85, 4200),
            (100, 4800),
        ],
        4800,
    );
    assert!(validate_curve(&curve).is_ok());
}

#[test]
fn validate_curve_minimum_points() {
    let curve = make_curve(vec![(50, 1600), (100, 4800)], 4800);
    assert!(validate_curve(&curve).is_ok());
}

#[test]
fn validate_curve_too_few_points() {
    let curve = make_curve(vec![(50, 1600)], 4800);
    let err = validate_curve(&curve).unwrap_err();
    assert!(err.message().contains("at least 2 points"));
}

#[test]
fn validate_curve_empty_points() {
    let curve = make_curve(vec![], 4800);
    let err = validate_curve(&curve).unwrap_err();
    assert!(err.message().contains("at least 2 points"));
}

#[test]
fn validate_curve_non_increasing_temps() {
    let curve = make_curve(vec![(60, 1600), (55, 2100), (70, 3200)], 4800);
    let err = validate_curve(&curve).unwrap_err();
    assert!(err.message().contains("strictly increasing"));
}

#[test]
fn validate_curve_equal_temps() {
    let curve = make_curve(vec![(60, 1600), (60, 2100), (70, 3200)], 4800);
    let err = validate_curve(&curve).unwrap_err();
    assert!(err.message().contains("strictly increasing"));
}

#[test]
fn validate_curve_decreasing_speed() {
    let curve = make_curve(vec![(50, 3000), (70, 2000), (90, 4800)], 4800);
    let err = validate_curve(&curve).unwrap_err();
    assert!(err.message().contains("must not decrease"));
}

#[test]
fn validate_curve_unsafe_high_temp_low_rpm() {
    // Last point at 100 degrees with only 1000 RPM when max is 4800 — unsafe
    let curve = make_curve(vec![(50, 800), (100, 1000)], 4800);
    let err = validate_curve(&curve).unwrap_err();
    assert!(err.message().contains("50%"));
}

#[test]
fn validate_curve_unreasonable_temp() {
    let curve = make_curve(vec![(50, 1600), (200, 4800)], 4800);
    let err = validate_curve(&curve).unwrap_err();
    assert!(err.message().contains("unreasonable temperature"));
}

#[test]
fn validate_curve_equal_speeds_allowed() {
    // Flat curve (same RPM at different temps) is valid
    let curve = make_curve(vec![(50, 3000), (60, 3000), (70, 3000)], 3000);
    assert!(validate_curve(&curve).is_ok());
}

#[test]
fn validate_curve_zero_max_speed_skips_floor() {
    // With no known max speed the safety floor cannot apply.
    let curve = make_curve(vec![(50, 100), (100, 200)], 0);
    assert!(validate_curve(&curve).is_ok());
}

#[test]
fn build_curve_from_points_no_reference() {
    let points = vec![
        FanCurvePoint {
            temperature: 50,
            fan_speed: 1600,
        },
        FanCurvePoint {
            temperature: 80,
            fan_speed: 4800,
        },
    ];
    let curve = build_curve_from_points(0, 3, points, None);
    assert_eq!(curve.fan_id, 0);
    assert_eq!(curve.sensor_id, 3);
    assert_eq!(curve.min_speed, 1600);
    assert_eq!(curve.max_speed, 4800);
    assert_eq!(curve.min_temp, 50);
    assert_eq!(curve.max_temp, 80);
    assert!(curve.active);
    assert_eq!(curve.points.len(), 2);
}

#[test]
fn build_curve_from_points_with_reference() {
    let reference = make_curve(vec![(58, 1600), (100, 4800)], 4800);
    let points = vec![
        FanCurvePoint {
            temperature: 55,
            fan_speed: 2000,
        },
        FanCurvePoint {
            temperature: 90,
            fan_speed: 4500,
        },
    ];
    let curve = build_curve_from_points(0, 3, points, Some(&reference));
    // Should use reference metadata
    assert_eq!(curve.min_speed, 1600);
    assert_eq!(curve.max_speed, 4800);
    assert_eq!(curve.min_temp, 58);
    assert_eq!(curve.max_temp, 100);
}
