use fancontrol::controller::FanController;
use fancontrol::errors::FanControlError;
use fancontrol::fan::{Fan, FanCurve};
use fancontrol::ui::UiState;
use fancontrol::worker::{
    curve_write_response, curves_by_fan, discover_response, WorkerResponse, WorkerState,
};

fn bare_fan(id: &str, pwm: Option<u8>) -> Fan {
    Fan {
        id: id.to_string(),
        label: format!("Fan {id}"),
        speed_rpm: 1000,
        pwm,
        controllable: true,
        min_rpm: None,
        max_rpm: None,
        curves: Vec::new(),
        full_speed_active: false,
    }
}

// -- held-PWM state ---------------------------------------------------------

#[test]
fn set_pwm_records_override() {
    let mut state = WorkerState::new();
    let response = state.apply_set_pwm_result("fan0".to_string(), 150, Ok(()));
    assert!(matches!(response, WorkerResponse::PwmSet { .. }));
    assert_eq!(state.held_pwm.get("fan0"), Some(150));
    let targets = state.reapply_targets();
    assert_eq!(targets.len(), 1);
    assert_eq!(targets[0].0, "fan0");
    assert_eq!(targets[0].1, 150);
}

#[test]
fn set_pwm_zero_clears_override() {
    let mut state = WorkerState::new();
    state.apply_set_pwm_result("fan0".to_string(), 150, Ok(()));
    let response = state.apply_set_pwm_result("fan0".to_string(), 0, Ok(()));
    assert!(matches!(response, WorkerResponse::PwmSet { pwm: 0, .. }));
    assert_eq!(state.held_pwm.get("fan0"), None);
    assert!(state.reapply_targets().is_empty());
}

#[test]
fn failed_set_pwm_leaves_state_untouched() {
    let mut state = WorkerState::new();
    state.apply_set_pwm_result("fan0".to_string(), 150, Ok(()));
    let response = state.apply_set_pwm_result(
        "fan0".to_string(),
        0,
        Err(FanControlError::NotControllable("fan0".to_string())),
    );
    match response {
        WorkerResponse::Error(message) => {
            assert_eq!(message, "fan 'fan0' is not controllable");
        }
        _ => panic!("expected an error response"),
    }
    assert_eq!(state.held_pwm.get("fan0"), Some(150));
}

#[test]
fn overrides_are_independent_per_fan() {
    let mut state = WorkerState::new();
    state.apply_set_pwm_result("fan0".to_string(), 100, Ok(()));
    state.apply_set_pwm_result("fan1".to_string(), 200, Ok(()));
    state.apply_set_pwm_result("fan0".to_string(), 0, Ok(()));
    assert_eq!(state.held_pwm.get("fan0"), None);
    assert_eq!(state.held_pwm.get("fan1"), Some(200));
}

// -- worker responses -------------------------------------------------------

#[test]
fn discover_response_wraps_outcome() {
    match discover_response(Ok(vec![bare_fan("fan0", None)])) {
        WorkerResponse::FanData(fans) => assert_eq!(fans.len(), 1),
        _ => panic!("expected fan data"),
    }
    match discover_response(Err(FanControlError::Platform("boom".to_string()))) {
        WorkerResponse::Error(message) => assert_eq!(message, "platform error: boom"),
        _ => panic!("expected an error response"),
    }
}

#[test]
fn curve_write_response_names_target() {
    let curve = FanCurve {
        fan_id: 1,
        sensor_id: 4,
        min_speed: 1600,
        max_speed: 4800,
        min_temp: 50,
        max_temp: 100,
        points: Vec::new(),
        active: true,
    };
    match curve_write_response(&curve, Ok(())) {
        WorkerResponse::CurveSet { fan_id, sensor_id } => {
            assert_eq!(fan_id, 1);
            assert_eq!(sensor_id, 4);
        }
        _ => panic!("expected a curve-set response"),
    }
}

#[test]
fn curves_by_fan_skips_fans_without_curves() {
    let mut with_curves = bare_fan("fan0", None);
    with_curves.curves.push(FanCurve {
        fan_id: 0,
        sensor_id: 3,
        min_speed: 1600,
        max_speed: 4800,
        min_temp: 50,
        max_temp: 100,
        points: Vec::new(),
        active: true,
    });
    let fans = vec![with_curves, bare_fan("fan1", None)];
    let index = curves_by_fan(&fans);
    assert_eq!(index.len(), 1);
    assert_eq!(index[0].0, "fan0");
    assert_eq!(index[0].1.len(), 1);
}

// -- frontend state ---------------------------------------------------------

#[test]
fn ui_seeds_sliders_without_overwriting() {
    let mut ui = UiState::new();
    assert_eq!(ui.status_message, "Discovering fans...");
    ui.apply_response(WorkerResponse::FanData(vec![bare_fan("fan0", Some(120))]));
    assert_eq!(ui.status_message, "OK");
    assert_eq!(ui.slider_values.get("fan0"), Some(120));
    // A later snapshot must not fight the user's slider.
    ui.apply_response(WorkerResponse::FanData(vec![bare_fan("fan0", Some(40))]));
    assert_eq!(ui.slider_values.get("fan0"), Some(120));
}

#[test]
fn ui_status_lines() {
    let mut ui = UiState::new();
    ui.apply_response(WorkerResponse::PwmSet {
        fan_id: "fan0".to_string(),
        pwm: 128,
    });
    assert_eq!(ui.status_message, "Set fan0 PWM to 128");
    ui.apply_response(WorkerResponse::CurveSet {
        fan_id: 0,
        sensor_id: 3,
    });
    assert_eq!(ui.status_message, "Curve written for fan 0 sensor 3");
    ui.apply_response(WorkerResponse::Error("boom".to_string()));
    assert_eq!(ui.status_message, "Error: boom");
}

// -- controller defaults ----------------------------------------------------

struct StubController;

impl FanController for StubController {
    fn discover(&self) -> Result<Vec<Fan>, FanControlError> {
        Ok(Vec::new())
    }

    fn get_speed(&self, _fan_id: &str) -> Result<u32, FanControlError> {
        Ok(0)
    }

    fn set_pwm(&self, _fan_id: &str, _pwm: u8) -> Result<(), FanControlError> {
        Ok(())
    }
}

#[test]
fn default_curve_methods_fail_with_platform_error() {
    let controller = StubController;
    match controller.get_fan_curves() {
        Err(FanControlError::Platform(message)) => {
            assert!(message.contains("not supported"));
        }
        _ => panic!("expected a platform error"),
    }
    let curve = FanCurve {
        fan_id: 0,
        sensor_id: 3,
        min_speed: 0,
        max_speed: 0,
        min_temp: 0,
        max_temp: 0,
        points: Vec::new(),
        active: false,
    };
    match controller.set_fan_curve(&curve) {
        Err(FanControlError::Platform(message)) => {
            assert!(message.contains("not supported"));
        }
        _ => panic!("expected a platform error"),
    }
}

// -- error messages ---------------------------------------------------------

#[test]
fn error_messages_name_their_cause() {
    assert_eq!(
        FanControlError::FanNotFound("fan9".to_string()).message(),
        "fan 'fan9' not found"
    );
    assert_eq!(
        FanControlError::NotControllable("fan0".to_string()).message(),
        "fan 'fan0' is not controllable"
    );
    assert_eq!(
        FanControlError::InvalidCurve("bad".to_string()).message(),
        "invalid curve: bad"
    );
    assert_eq!(
        FanControlError::PermissionDenied("no access".to_string()).message(),
        "permission denied: no access"
    );
    assert_eq!(
        FanControlError::Platform("boom".to_string()).message(),
        "platform error: boom"
    );
    assert_eq!(
        FanControlError::Io("read failed".to_string()).message(),
        "read failed"
    );
}
