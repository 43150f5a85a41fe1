use fancontrol::cli::{level_from_verbosity, parse_point_arg, parse_point_args, LogLevel};
use fancontrol::fan::{Fan, FanCurve, FanCurvePoint};
use fancontrol::report::{
    curve_lines, dashes, fan_row, filter_curves, flatten_curves, has_embedded_curves,
    list_lines, monitor_lines, monitor_title, pad_left, pad_right,
};
use fancontrol::tables::{CurveTable, FanRpmRange, RangeTable};

fn sample_fan() -> Fan {
    Fan {
        id: "hwmon0/fan1".to_string(),
        label: "Fan 1".to_string(),
        speed_rpm: 1200,
        pwm: None,
        controllable: false,
        min_rpm: None,
        max_rpm: None,
        curves: Vec::new(),
        full_speed_active: false,
    }
}

fn sample_curve() -> FanCurve {
    FanCurve {
        fan_id: 0,
        sensor_id: 3,
        min_speed: 1600,
        max_speed: 4800,
        min_temp: 58,
        max_temp: 100,
        points: vec![
            FanCurvePoint { temperature: 58, fan_speed: 1600 },
            FanCurvePoint { temperature: 100, fan_speed: 4800 },
        ],
        active: true,
    }
}

#[test]
fn padding_matches_format_conventions() {
    assert_eq!(pad_right("ab", 5), "ab   ");
    assert_eq!(pad_left("ab", 5), "   ab");
    assert_eq!(pad_right("abcdef", 3), "abcdef");
    assert_eq!(pad_left("abcdef", 3), "abcdef");
    assert_eq!(dashes(4), "----");
}

#[test]
fn fan_row_matches_fixed_width_layout() {
    let expected = format!(
        "{:<25} {:<20} {:>8} {:>6} {}",
        "hwmon0/fan1", "Fan 1", 1200, "\u{2014}", "read-only"
    );
    assert_eq!(fan_row(&sample_fan()), expected);
}

#[test]
fn list_lines_without_fans() {
    let lines = list_lines(&Vec::new());
    assert_eq!(lines, vec!["No fans detected."]);
}

#[test]
fn list_lines_include_banner_when_full_speed() {
    let mut fan = sample_fan();
    fan.full_speed_active = true;
    let lines = list_lines(&vec![fan]);
    assert_eq!(lines[0], "** FULL SPEED MODE ACTIVE **");
    assert_eq!(lines[1], "");
    assert!(lines[2].starts_with("ID"));
    assert_eq!(lines[3], "-".repeat(70));
    assert_eq!(lines.len(), 5);
}

#[test]
fn monitor_output_shape() {
    assert_eq!(
        monitor_title(2),
        "Fan Monitor (every 2s) \u{2014} Ctrl+C to stop"
    );
    let lines = monitor_lines(&vec![sample_fan()]);
    assert_eq!(lines.len(), 3);
    assert_eq!(lines[1], "-".repeat(45));
    let expected_row = format!("{:<25} {:>8} {:>6}", "Fan 1", 1200, "\u{2014}");
    assert_eq!(lines[2], expected_row);
}

#[test]
fn summary_names_label_speed_and_status() {
    assert_eq!(sample_fan().summary(), "Fan 1: 1200 RPM [read-only]");
}

#[test]
fn embedded_curves_are_preferred_and_flattened() {
    let mut fan = sample_fan();
    assert!(!has_embedded_curves(&vec![fan.clone()]));
    fan.curves.push(sample_curve());
    let fans = vec![fan];
    assert!(has_embedded_curves(&fans));
    let curves = flatten_curves(fans);
    assert_eq!(curves.len(), 1);
    assert_eq!(curves[0].sensor_id, 3);
}

#[test]
fn curve_filter_keeps_one_fan() {
    let mut second = sample_curve();
    second.fan_id = 1;
    let curves = vec![sample_curve(), second];
    let all = filter_curves(curves, None);
    assert_eq!(all.len(), 2);
    let only_one = filter_curves(all, Some(1));
    assert_eq!(only_one.len(), 1);
    assert_eq!(only_one[0].fan_id, 1);
}

#[test]
fn curve_lines_show_heading_points_and_separator() {
    let lines = curve_lines(&sample_curve());
    assert_eq!(lines[0], "Fan 0 (CPU Fan) \u{2014} Sensor 3 [Active]");
    assert_eq!(
        lines[1],
        "  Speed: 1600\u{2013}4800 RPM | Temp: 58\u{2013}100\u{00B0}C"
    );
    assert_eq!(lines[2], "   58\u{00B0}C \u{2192} 1600 RPM");
    assert_eq!(lines[3], "  100\u{00B0}C \u{2192} 4800 RPM");
    assert_eq!(lines[4], "");
    assert_eq!(lines.len(), 5);
}

// -- command-line points ----------------------------------------------------

#[test]
fn point_arguments_parse() {
    assert_eq!(
        parse_point_arg("50:1600"),
        Some(FanCurvePoint { temperature: 50, fan_speed: 1600 })
    );
    assert_eq!(parse_point_arg("50"), None);
    assert_eq!(parse_point_arg("50:x"), None);
    assert_eq!(parse_point_arg("50:1600:2"), None);
}

#[test]
fn point_argument_lists_parse_or_name_the_offender() {
    let good = vec!["50:1600".to_string(), "100:4800".to_string()];
    let points = parse_point_args(&good).unwrap();
    assert_eq!(points.len(), 2);
    assert_eq!(points[1].fan_speed, 4800);

    let bad = vec!["50:1600".to_string(), "oops".to_string()];
    let err = parse_point_args(&bad).unwrap_err();
    assert!(err.message().contains("oops"));
}

#[test]
fn verbosity_levels() {
    assert_eq!(level_from_verbosity(0), LogLevel::Warn);
    assert_eq!(level_from_verbosity(1), LogLevel::Info);
    assert_eq!(level_from_verbosity(2), LogLevel::Debug);
    assert_eq!(level_from_verbosity(3), LogLevel::Trace);
}

// -- fan-id tables ----------------------------------------------------------

#[test]
fn range_table_widens_ranges() {
    let mut ranges = RangeTable::new();
    ranges.widen(0, FanRpmRange { min_rpm: 1600, max_rpm: 4200 });
    ranges.widen(0, FanRpmRange { min_rpm: 1800, max_rpm: 4800 });
    assert_eq!(ranges.get(0), Some(FanRpmRange { min_rpm: 1600, max_rpm: 4800 }));
    assert_eq!(ranges.get(1), None);
}

#[test]
fn curve_table_collects_and_takes() {
    let mut curves = CurveTable::new();
    curves.push_curve(0, sample_curve());
    curves.push_curve(0, sample_curve());
    curves.push_curve(1, sample_curve());
    let fan0 = curves.take_curves(0);
    assert_eq!(fan0.len(), 2);
    let again = curves.take_curves(0);
    assert!(again.is_empty());
    let fan1 = curves.take_curves(1);
    assert_eq!(fan1.len(), 1);
}
