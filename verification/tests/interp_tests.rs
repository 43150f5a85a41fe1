use fancontrol::interp::{pwm_to_rpm, rpm_to_pwm};

#[test]
fn pwm_to_rpm_boundaries() {
    // PWM 0 -> min RPM
    assert_eq!(pwm_to_rpm(1600, 4800, 0), 1600);
    // PWM 255 -> max RPM
    assert_eq!(pwm_to_rpm(1600, 4800, 255), 4800);
}

#[test]
fn pwm_to_rpm_midrange() {
    // PWM 128 is about mid-range
    let mid = pwm_to_rpm(1600, 4800, 128);
    assert!(mid > 1600 && mid < 4800, "mid was {mid}");
}

#[test]
fn pwm_to_rpm_custom_range() {
    assert_eq!(pwm_to_rpm(2000, 5400, 0), 2000);
    assert_eq!(pwm_to_rpm(2000, 5400, 255), 5400);
}

#[test]
fn rpm_to_pwm_boundaries() {
    // At or below min -> 0
    assert_eq!(rpm_to_pwm(1600, 4800, 1600), 0);
    assert_eq!(rpm_to_pwm(1600, 4800, 0), 0);
    // At or above max -> 255
    assert_eq!(rpm_to_pwm(1600, 4800, 4800), 255);
    assert_eq!(rpm_to_pwm(1600, 4800, 9999), 255);
}

#[test]
fn rpm_to_pwm_midrange() {
    let mid_rpm = 3200; // exactly halfway in 1600..4800
    let pwm = rpm_to_pwm(1600, 4800, mid_rpm);
    assert!(pwm > 100 && pwm < 160, "pwm was {pwm}");
}

#[test]
fn pwm_rpm_roundtrip() {
    // pwm -> rpm -> pwm should be close to the original
    let original_pwm: u8 = 100;
    let rpm = pwm_to_rpm(1600, 4800, original_pwm);
    let recovered_pwm = rpm_to_pwm(1600, 4800, rpm);
    let diff = (original_pwm as i16 - recovered_pwm as i16).unsigned_abs();
    assert!(
        diff <= 1,
        "original={original_pwm} recovered={recovered_pwm}"
    );
}

#[test]
fn pwm_to_rpm_exact_values() {
    // floor(128 * 3200 / 255) = 1606
    assert_eq!(pwm_to_rpm(1600, 4800, 128), 3206);
    assert_eq!(pwm_to_rpm(1600, 4800, 1), 1600 + (3200 / 255));
}

#[test]
fn rpm_to_pwm_exact_values() {
    // floor(1600 * 255 / 3200) = 127
    assert_eq!(rpm_to_pwm(1600, 4800, 3200), 127);
    assert_eq!(rpm_to_pwm(1600, 4800, 1601), 0);
    assert_eq!(rpm_to_pwm(1600, 4800, 4799), 254);
}

#[test]
fn pwm_rpm_roundtrip_every_duty() {
    for pwm in 0u16..=255 {
        let pwm = pwm as u8;
        let rpm = pwm_to_rpm(1600, 4800, pwm);
        let recovered = rpm_to_pwm(1600, 4800, rpm);
        let diff = (pwm as i16 - recovered as i16).unsigned_abs();
        assert!(diff <= 1, "pwm={pwm} rpm={rpm} recovered={recovered}");
    }
}

#[test]
fn pwm_to_rpm_degenerate_range() {
    // A collapsed range always commands its single speed.
    assert_eq!(pwm_to_rpm(2000, 2000, 0), 2000);
    assert_eq!(pwm_to_rpm(2000, 2000, 255), 2000);
    // And converting back always hits a clamp.
    assert_eq!(rpm_to_pwm(2000, 2000, 1999), 0);
    assert_eq!(rpm_to_pwm(2000, 2000, 2001), 255);
}
