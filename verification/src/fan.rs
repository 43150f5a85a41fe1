//! Platform-neutral domain model: fans and fan curves.
//!
//! These are pure value types. A `Fan` is an immutable snapshot produced by
//! one discovery pass; validity of a `FanCurve` is not enforced by
//! construction (raw hardware dumps and user edits may violate it
//! transiently) but by the curve validator before any write.

use vstd::prelude::*;

verus! {

/// A single temperature-to-RPM point in a fan curve.
#[derive(Debug, Clone, Copy, PartialEq, Eq, Structural)]
pub struct FanCurvePoint {
    /// Temperature threshold in degrees Celsius.
    pub temperature: u32,
    /// Target fan speed in RPM at this temperature.
    pub fan_speed: u32,
}

/// Mathematical model of a [`FanCurve`].
pub ghost struct FanCurveModel {
    pub fan_id: u32,
    pub sensor_id: u32,
    pub min_speed: u32,
    pub max_speed: u32,
    pub min_temp: u32,
    pub max_temp: u32,
    pub points: Seq<FanCurvePoint>,
    pub active: bool,
}

/// A fan curve mapping sensor temperatures to fan speeds.
///
/// Each curve binds one fan to one sensor. The embedded controller takes the
/// maximum speed demanded across all sensor curves for a given fan; the
/// library only records which curves are `active`.
#[derive(Debug, Clone)]
pub struct FanCurve {
    pub fan_id: u32,
    pub sensor_id: u32,
    pub min_speed: u32,
    pub max_speed: u32,
    pub min_temp: u32,
    pub max_temp: u32,
    /// Ordered by ascending temperature when the curve is valid.
    pub points: Vec<FanCurvePoint>,
    pub active: bool,
}

impl View for FanCurve {
    type V = FanCurveModel;

    open spec fn view(&self) -> FanCurveModel {
        FanCurveModel {
            fan_id: self.fan_id,
            sensor_id: self.sensor_id,
            min_speed: self.min_speed,
            max_speed: self.max_speed,
            min_temp: self.min_temp,
            max_temp: self.max_temp,
            points: self.points@,
            active: self.active,
        }
    }
}

/// Mathematical model of a [`Fan`] snapshot.
pub ghost struct FanModel {
    pub id: Seq<char>,
    pub label: Seq<char>,
    pub speed_rpm: u32,
    pub pwm: Option<u8>,
    pub controllable: bool,
    pub min_rpm: Option<u32>,
    pub max_rpm: Option<u32>,
    pub curves: Seq<FanCurveModel>,
    pub full_speed_active: bool,
}

/// A single fan discovered on the system: an immutable snapshot, never
/// mutated in place. Each poll produces a fresh snapshot.
#[derive(Debug, Clone)]
pub struct Fan {
    /// Unique identifier (e.g. "hwmon2/fan1" on sysfs, "fan0" on the vendor
    /// backend).
    pub id: String,
    /// Human-readable label (e.g. "CPU Fan").
    pub label: String,
    /// Current speed in RPM.
    pub speed_rpm: u32,
    /// PWM duty cycle 0-255, when the backend reports one.
    pub pwm: Option<u8>,
    /// Whether this fan supports speed control.
    pub controllable: bool,
    /// Minimum RPM learned from fan table data, when available.
    pub min_rpm: Option<u32>,
    /// Maximum RPM learned from fan table data, when available.
    pub max_rpm: Option<u32>,
    /// Fan curves from embedded-controller table data, when available.
    pub curves: Vec<FanCurve>,
    /// Whether the global full-speed override is engaged.
    pub full_speed_active: bool,
}

impl View for Fan {
    type V = FanModel;

    open spec fn view(&self) -> FanModel {
        FanModel {
            id: self.id@,
            label: self.label@,
            speed_rpm: self.speed_rpm,
            pwm: self.pwm,
            controllable: self.controllable,
            min_rpm: self.min_rpm,
            max_rpm: self.max_rpm,
            curves: self.curves@.map_values(|c: FanCurve| c@),
            full_speed_active: self.full_speed_active,
        }
    }
}

} // verus!
