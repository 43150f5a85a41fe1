use std::collections::HashMap;

use fancontrol::fan::FanCurve;
use fancontrol::lenovo::{
    parse_discover_output, parse_fan_id, parse_fan_line, parse_fullspeed, parse_table_line,
    plan_set_pwm, prepare_curve_write, SetPwmAction,
};
use fancontrol::tables::{CurveTable, FanRpmRange, RangeTable};

// -- parse_fan_id -----------------------------------------------------------

#[test]
fn parse_fan_id_valid() {
    assert_eq!(parse_fan_id("fan0").unwrap(), 0);
    assert_eq!(parse_fan_id("fan1").unwrap(), 1);
    assert_eq!(parse_fan_id("fan99").unwrap(), 99);
}

#[test]
fn parse_fan_id_invalid() {
    assert!(parse_fan_id("hwmon0").is_err());
    assert!(parse_fan_id("fan").is_err());
    assert!(parse_fan_id("").is_err());
    assert!(parse_fan_id("fan-1").is_err());
    assert!(parse_fan_id("Fan0").is_err());
}

// -- parse_fullspeed --------------------------------------------------------

#[test]
fn parse_fullspeed_active() {
    assert!(parse_fullspeed("FULLSPEED|1\nFAN|0|3|2100|45"));
}

#[test]
fn parse_fullspeed_inactive() {
    assert!(!parse_fullspeed("FULLSPEED|0\nFAN|0|3|2100|45"));
}

#[test]
fn parse_fullspeed_missing() {
    assert!(!parse_fullspeed("FAN|0|3|2100|45"));
}

// -- parse_table_line -------------------------------------------------------

#[test]
fn parse_table_line_valid() {
    let line = "TABLE|0|3|1|1600|4800|58|100|1600,2100,2700,3400,4200,4800|58,63,68,73,85,100";
    let (curve, range) = parse_table_line(line).expect("should parse");
    assert_eq!(curve.fan_id, 0);
    assert_eq!(curve.sensor_id, 3);
    assert!(curve.active);
    assert_eq!(curve.min_speed, 1600);
    assert_eq!(curve.max_speed, 4800);
    assert_eq!(curve.min_temp, 58);
    assert_eq!(curve.max_temp, 100);
    assert_eq!(curve.points.len(), 6);
    assert_eq!(curve.points[0].temperature, 58);
    assert_eq!(curve.points[0].fan_speed, 1600);
    assert_eq!(curve.points[5].temperature, 100);
    assert_eq!(curve.points[5].fan_speed, 4800);
    assert_eq!(range.min_rpm, 1600);
    assert_eq!(range.max_rpm, 4800);
}

#[test]
fn parse_table_line_inactive() {
    let line = "TABLE|1|4|0|1800|4800|63|95|1800,2400,3200,4800|63,73,85,95";
    let (curve, _) = parse_table_line(line).expect("should parse");
    assert_eq!(curve.fan_id, 1);
    assert!(!curve.active);
    assert_eq!(curve.points.len(), 4);
}

#[test]
fn parse_table_line_too_short() {
    assert!(parse_table_line("TABLE|0|3|1|1600").is_none());
    assert!(parse_table_line("").is_none());
}

#[test]
fn parse_table_line_unpaired_values_dropped() {
    // Three speeds but only two temperatures: the third speed is dropped.
    let line = "TABLE|0|3|1|1600|4800|58|100|1600,2400,4800|58,100";
    let (curve, _) = parse_table_line(line).expect("should parse");
    assert_eq!(curve.points.len(), 2);
    assert_eq!(curve.points[1].temperature, 100);
    assert_eq!(curve.points[1].fan_speed, 2400);
}

// -- parse_fan_line ---------------------------------------------------------

#[test]
fn parse_fan_line_valid() {
    let line = "FAN|0|3|2100|45";
    let mut ranges = RangeTable::new();
    ranges.insert(
        0,
        FanRpmRange {
            min_rpm: 1600,
            max_rpm: 4800,
        },
    );
    let mut curves = CurveTable::new();

    let fan = parse_fan_line(line, &ranges, &mut curves, false).expect("should parse");
    assert_eq!(fan.id, "fan0");
    assert!(fan.label.contains("CPU Fan"));
    assert!(fan.label.contains("45"));
    assert_eq!(fan.speed_rpm, 2100);
    assert!(fan.pwm.is_some());
    assert!(fan.controllable);
    assert!(!fan.full_speed_active);
    assert_eq!(fan.min_rpm, Some(1600));
    assert_eq!(fan.max_rpm, Some(4800));
}

#[test]
fn parse_fan_line_gpu() {
    let line = "FAN|1|4|3200|52";
    let ranges = RangeTable::new();
    let mut curves = CurveTable::new();

    let fan = parse_fan_line(line, &ranges, &mut curves, true).expect("should parse");
    assert_eq!(fan.id, "fan1");
    assert!(fan.label.contains("GPU Fan"));
    assert!(fan.full_speed_active);
    // No range data: defaults used, no min/max reported
    assert_eq!(fan.min_rpm, None);
    assert_eq!(fan.max_rpm, None);
}

#[test]
fn parse_fan_line_too_short() {
    let ranges = RangeTable::new();
    let mut curves = CurveTable::new();
    assert!(parse_fan_line("FAN|0|3", &ranges, &mut curves, false).is_none());
    assert!(parse_fan_line("", &ranges, &mut curves, false).is_none());
}

// -- integration: full discover output --------------------------------------

#[test]
fn parse_full_discover_output() {
    let output = "FULLSPEED|0\n\
TABLE|0|3|1|1600|4800|58|100|1600,2100,2700,3400,4200,4800|58,63,68,73,85,100\n\
TABLE|0|0|0|1600|4800|58|100|1600,2100,2700,3400,4200,4800|58,63,68,73,85,100\n\
TABLE|1|4|1|1800|4800|63|95|1800,2400,3200,4800|63,73,85,95\n\
FAN|0|3|2100|45\n\
FAN|1|4|0|31";

    let full_speed = parse_fullspeed(output);
    assert!(!full_speed);

    let mut curves_by_fan: HashMap<u32, Vec<FanCurve>> = HashMap::new();
    for line in output.lines() {
        if !line.starts_with("TABLE|") {
            continue;
        }
        let Some((curve, _range)) = parse_table_line(line) else {
            continue;
        };
        curves_by_fan.entry(curve.fan_id).or_default().push(curve);
    }

    // Fan 0 has 2 table entries, fan 1 has 1
    assert_eq!(curves_by_fan.get(&0).unwrap().len(), 2);
    assert_eq!(curves_by_fan.get(&1).unwrap().len(), 1);

    let (fans, _ranges) = parse_discover_output(output);
    assert_eq!(fans.len(), 2);
    assert_eq!(fans[0].id, "fan0");
    assert_eq!(fans[0].speed_rpm, 2100);
    assert_eq!(fans[0].curves.len(), 2);
    assert_eq!(fans[1].id, "fan1");
    assert_eq!(fans[1].speed_rpm, 0);
    assert_eq!(fans[1].curves.len(), 1);
}

#[test]
fn end_to_end_discover_single_fan() {
    let output = "FULLSPEED|0\nTABLE|0|3|1|1600|4800|58|100|1600,4800|58,100\nFAN|0|3|2100|45";
    let (fans, ranges) = parse_discover_output(output);
    assert_eq!(fans.len(), 1);
    assert_eq!(fans[0].id, "fan0");
    assert_eq!(fans[0].speed_rpm, 2100);
    assert_eq!(fans[0].curves.len(), 1);
    assert!(!fans[0].full_speed_active);
    assert_eq!(ranges.get(0), Some(FanRpmRange { min_rpm: 1600, max_rpm: 4800 }));
}

#[test]
fn discover_widens_rpm_ranges_across_tables() {
    let output = "TABLE|0|3|1|1600|4200|58|100|1600,4200|58,100\n\
TABLE|0|4|1|1200|4800|58|100|1200,4800|58,100\nFAN|0|4|2000|50";
    let (fans, ranges) = parse_discover_output(output);
    assert_eq!(ranges.get(0), Some(FanRpmRange { min_rpm: 1200, max_rpm: 4800 }));
    assert_eq!(fans[0].min_rpm, Some(1200));
    assert_eq!(fans[0].max_rpm, Some(4800));
}

// -- command planning -------------------------------------------------------

#[test]
fn plan_set_pwm_full_speed_and_auto() {
    let ranges = RangeTable::new();
    assert_eq!(plan_set_pwm(&ranges, "fan0", 255).unwrap(), SetPwmAction::FullSpeedOn);
    assert_eq!(plan_set_pwm(&ranges, "fan0", 0).unwrap(), SetPwmAction::FullSpeedOff);
}

#[test]
fn plan_set_pwm_interpolates_through_range() {
    let mut ranges = RangeTable::new();
    ranges.insert(1, FanRpmRange { min_rpm: 2000, max_rpm: 5400 });
    let action = plan_set_pwm(&ranges, "fan1", 128).unwrap();
    assert_eq!(
        action,
        SetPwmAction::SetRpm { fan_id: 1, target_rpm: 2000 + 128 * 3400 / 255 }
    );
}

#[test]
fn plan_set_pwm_unknown_fan_uses_default_range() {
    let ranges = RangeTable::new();
    let action = plan_set_pwm(&ranges, "fan7", 128).unwrap();
    assert_eq!(
        action,
        SetPwmAction::SetRpm { fan_id: 7, target_rpm: 1600 + 128 * 3200 / 255 }
    );
}

#[test]
fn plan_set_pwm_rejects_bad_id() {
    let ranges = RangeTable::new();
    let err = plan_set_pwm(&ranges, "hwmon0/fan1", 128).unwrap_err();
    assert!(err.message().contains("not found"));
}

// -- curve writes -----------------------------------------------------------

fn write_curve(points: Vec<(u32, u32)>, max_speed: u32) -> FanCurve {
    FanCurve {
        fan_id: 0,
        sensor_id: 3,
        min_speed: points.first().map(|p| p.1).unwrap_or(0),
        max_speed,
        min_temp: points.first().map(|p| p.0).unwrap_or(0),
        max_temp: points.last().map(|p| p.0).unwrap_or(0),
        points: points
            .into_iter()
            .map(|(t, s)| fancontrol::fan::FanCurvePoint {
                temperature: t,
                fan_speed: s,
            })
            .collect(),
        active: true,
    }
}

#[test]
fn prepare_curve_write_renders_payloads() {
    let curve = write_curve(vec![(50, 1600), (100, 4800)], 4800);
    let (speeds, temps) = prepare_curve_write(&curve).expect("valid curve");
    assert_eq!(speeds, "1600,4800");
    assert_eq!(temps, "50,100");
}

#[test]
fn prepare_curve_write_rejects_invalid_curve() {
    let curve = write_curve(vec![(50, 1600)], 4800);
    let err = prepare_curve_write(&curve).unwrap_err();
    assert!(err.message().contains("at least 2 points"));
}
