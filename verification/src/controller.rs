//! The platform-agnostic controller contract every backend implements.
//!
//! Backends perform OS I/O, so their implementations live outside the
//! library; the default methods distinguish absence-of-feature (an error)
//! from absence-of-data (an empty sequence from `discover`).

use crate::errors::FanControlError;
use crate::fan::{Fan, FanCurve};
use vstd::prelude::*;

verus! {

/// Platform-agnostic fan controller interface.
pub trait FanController {
    /// Discover all fans on the system. No fans is a valid, common state:
    /// it yields an empty sequence, not an error.
    fn discover(&self) -> Result<Vec<Fan>, FanControlError>;

    /// Read the current speed (RPM) of a fan by its id.
    fn get_speed(&self, fan_id: &str) -> Result<u32, FanControlError>;

    /// Set the PWM duty cycle (0-255) for a fan by its id.
    fn set_pwm(&self, fan_id: &str, pwm: u8) -> Result<(), FanControlError>;

    /// Read fan curve / table data from the embedded controller. Backends
    /// without curve support fail with a platform error rather than
    /// returning an empty sequence.
    fn get_fan_curves(&self) -> Result<Vec<FanCurve>, FanControlError> {
        Err(
            FanControlError::Platform(
                String::from_str("fan curves not supported on this platform"),
            ),
        )
    }

    /// Write a custom fan curve for a specific fan/sensor pair. The curve
    /// must be validated before any hardware write.
    fn set_fan_curve(&self, _curve: &FanCurve) -> Result<(), FanControlError> {
        Err(
            FanControlError::Platform(
                String::from_str("setting fan curves not supported on this platform"),
            ),
        )
    }
}

} // verus!
