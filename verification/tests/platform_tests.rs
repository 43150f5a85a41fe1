use fancontrol::errors::FanControlError;
use fancontrol::linux::{
    fan_input_file, fan_input_indices, fan_label_file, hwmon_fan, join_path, map_io_error,
    parse_sysfs_value, pwm_enable_denied_error, pwm_enable_file, pwm_file,
    pwm_write_denied_error, IoErrorKind, LinuxFanController, RawFanReading,
};
use fancontrol::windows::{manufacturer_is_lenovo, win32_fan_to_fan};

// -- fan id resolution ------------------------------------------------------

#[test]
fn resolve_fan_paths_well_formed_id() {
    let controller = LinuxFanController::with_base("/base".to_string());
    let (dir, index) = controller.resolve_fan_paths("hwmon2/fan1").unwrap();
    assert_eq!(dir, "/base/hwmon2");
    assert_eq!(index, "1");
}

#[test]
fn resolve_fan_paths_rejects_malformed_ids() {
    let controller = LinuxFanController::new();
    for bad in ["invalid_id", "hwmon0", "hwmon0/pwm1", "a/b/c", ""] {
        match controller.resolve_fan_paths(bad) {
            Err(FanControlError::FanNotFound(id)) => assert_eq!(id, bad),
            other => panic!("expected FanNotFound for {bad:?}, got {other:?}"),
        }
    }
}

// -- sysfs names ------------------------------------------------------------

#[test]
fn sysfs_file_names_compose() {
    assert_eq!(fan_input_file("1"), "fan1_input");
    assert_eq!(fan_label_file("2"), "fan2_label");
    assert_eq!(pwm_file("1"), "pwm1");
    assert_eq!(pwm_enable_file("1"), "pwm1_enable");
    assert_eq!(join_path("/sys/class/hwmon/hwmon0", "pwm1"), "/sys/class/hwmon/hwmon0/pwm1");
}

#[test]
fn fan_input_indices_filters_and_strips() {
    let names = vec![
        "fan1_input".to_string(),
        "fan10_input".to_string(),
        "fan2_label".to_string(),
        "pwm1".to_string(),
        "temp1_input".to_string(),
    ];
    let indices = fan_input_indices(&names);
    assert_eq!(indices, vec!["1", "10"]);
}

// -- snapshot assembly ------------------------------------------------------

fn reading(label: Option<&str>, pwm_exists: bool, writable: bool, raw: Option<u32>) -> RawFanReading {
    RawFanReading {
        fan_index: "1".to_string(),
        label_content: label.map(|s| s.to_string()),
        speed_rpm: Some(1200),
        pwm_exists,
        pwm_writable: writable,
        pwm_raw: raw,
    }
}

#[test]
fn hwmon_fan_uses_label_file() {
    let fan = hwmon_fan("hwmon0", reading(Some("CPU Fan\n"), false, false, None));
    assert_eq!(fan.id, "hwmon0/fan1");
    assert_eq!(fan.label, "CPU Fan");
    assert_eq!(fan.speed_rpm, 1200);
    assert!(!fan.controllable);
    assert_eq!(fan.pwm, None);
}

#[test]
fn hwmon_fan_falls_back_to_numbered_label() {
    let fan = hwmon_fan("hwmon0", reading(None, false, false, None));
    assert_eq!(fan.label, "Fan 1");
    let blank = hwmon_fan("hwmon0", reading(Some("   \n"), false, false, None));
    assert_eq!(blank.label, "Fan 1");
}

#[test]
fn hwmon_fan_reports_control_state() {
    let fan = hwmon_fan("hwmon1", reading(None, true, true, Some(128)));
    assert!(fan.controllable);
    assert_eq!(fan.pwm, Some(128));
    let readonly = hwmon_fan("hwmon1", reading(None, true, false, Some(200)));
    assert!(!readonly.controllable);
    assert_eq!(readonly.pwm, Some(200));
}

// -- sysfs values and errors ------------------------------------------------

#[test]
fn parse_sysfs_value_trims_and_parses() {
    assert_eq!(parse_sysfs_value("1500\n", "/p").unwrap(), 1500);
    let err = parse_sysfs_value("garbage\n", "/sys/x").unwrap_err();
    assert_eq!(err.message(), "platform error: failed to parse 'garbage' from /sys/x");
}

#[test]
fn map_io_error_distinguishes_permission_denied() {
    let denied = map_io_error(
        IoErrorKind::PermissionDenied,
        "permission denied (os error 13)".to_string(),
        "/sys/x/pwm1".to_string(),
    );
    assert_eq!(
        denied.message(),
        "permission denied: /sys/x/pwm1: permission denied (os error 13)"
    );
    let other = map_io_error(IoErrorKind::Other, "broken pipe".to_string(), "/p".to_string());
    assert_eq!(other.message(), "broken pipe");
}

#[test]
fn pwm_denied_errors_carry_guidance() {
    assert!(pwm_enable_denied_error("hwmon0/fan1").message().contains("run as root"));
    assert!(pwm_write_denied_error("hwmon0/fan1").message().contains("run as root"));
}

// -- vendor detection and the fallback backend ------------------------------

#[test]
fn lenovo_detection_is_case_insensitive() {
    assert!(manufacturer_is_lenovo("LENOVO"));
    assert!(manufacturer_is_lenovo("Lenovo Group Ltd."));
    assert!(manufacturer_is_lenovo("brand: lenovo!"));
    assert!(!manufacturer_is_lenovo("ASUSTeK COMPUTER INC."));
    assert!(!manufacturer_is_lenovo("LENOV"));
    assert!(!manufacturer_is_lenovo(""));
}

#[test]
fn win32_record_becomes_read_only_snapshot() {
    let fan = win32_fan_to_fan(
        "root/cimv2:Win32_Fan.DeviceID=\"Fan0\"".to_string(),
        "System fan".to_string(),
        Some(2400),
        Some(true),
    );
    assert_eq!(fan.speed_rpm, 2400);
    assert!(fan.controllable);
    assert_eq!(fan.pwm, None);
    assert!(fan.curves.is_empty());

    let sparse = win32_fan_to_fan("id".to_string(), "n".to_string(), None, None);
    assert_eq!(sparse.speed_rpm, 0);
    assert!(!sparse.controllable);
}
