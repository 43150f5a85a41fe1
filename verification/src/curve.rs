//! The curve validator: the safety policy that gates every fan-curve write,
//! and the builder that assembles a curve from user-edited points.
//!
//! The validator is a pure function; it must be called before any write to
//! hardware, and a rejection always surfaces to the caller.

use crate::errors::{FanControlError, FanControlErrorModel};
use crate::fan::{FanCurve, FanCurveModel, FanCurvePoint};
use crate::text::{spec_dec_digits, u32_to_string, u64_to_string};
use vstd::prelude::*;

verus! {

/// The first safety invariant a curve violates, if any.
#[derive(Debug, Clone, Copy, PartialEq, Eq, Structural)]
pub enum CurveViolation {
    /// Fewer than two points.
    TooFewPoints,
    /// The point at `index` lies above 150 degrees Celsius.
    UnreasonableTemp { index: usize },
    /// The temperature at `index` is not strictly greater than at its
    /// predecessor.
    NonIncreasingTemp { index: usize },
    /// The fan speed at `index` is lower than at its predecessor.
    DecreasingSpeed { index: usize },
    /// The hottest point demands less than half of `max_speed`.
    UnsafeTopPoint,
}

/// First index at or after `i` whose temperature exceeds 150.
pub open spec fn find_high_temp(points: Seq<FanCurvePoint>, i: int) -> Option<int>
    decreases points.len() - i,
{
    if i < 0 || i >= points.len() {
        None
    } else if points[i].temperature > 150 {
        Some(i)
    } else {
        find_high_temp(points, i + 1)
    }
}

/// First index at or after `i` whose temperature does not strictly exceed
/// its predecessor's.
pub open spec fn find_non_increasing_temp(points: Seq<FanCurvePoint>, i: int) -> Option<int>
    decreases points.len() - i,
{
    if i < 1 || i >= points.len() {
        None
    } else if points[i].temperature <= points[i - 1].temperature {
        Some(i)
    } else {
        find_non_increasing_temp(points, i + 1)
    }
}

/// First index at or after `i` whose fan speed drops below its
/// predecessor's.
pub open spec fn find_speed_drop(points: Seq<FanCurvePoint>, i: int) -> Option<int>
    decreases points.len() - i,
{
    if i < 1 || i >= points.len() {
        None
    } else if points[i].fan_speed < points[i - 1].fan_speed {
        Some(i)
    } else {
        find_speed_drop(points, i + 1)
    }
}

/// The first violation the validator reports for a curve, in check order:
/// point count, temperature plausibility, temperature monotonicity, speed
/// monotonicity, then the thermal safety floor on the hottest point.
pub open spec fn spec_find_violation(c: FanCurveModel) -> Option<CurveViolation> {
    if c.points.len() < 2 {
        Some(CurveViolation::TooFewPoints)
    } else if find_high_temp(c.points, 0) is Some {
        Some(CurveViolation::UnreasonableTemp { index: find_high_temp(c.points, 0)->0 as usize })
    } else if find_non_increasing_temp(c.points, 1) is Some {
        Some(
            CurveViolation::NonIncreasingTemp {
                index: find_non_increasing_temp(c.points, 1)->0 as usize,
            },
        )
    } else if find_speed_drop(c.points, 1) is Some {
        Some(CurveViolation::DecreasingSpeed { index: find_speed_drop(c.points, 1)->0 as usize })
    } else if c.max_speed > 0 && c.points.last().fan_speed < c.max_speed / 2 {
        Some(CurveViolation::UnsafeTopPoint)
    } else {
        None
    }
}

/// A curve is safe exactly when the validator finds nothing to report.
pub open spec fn spec_curve_valid(c: FanCurveModel) -> bool {
    spec_find_violation(c) is None
}

/// Scan a curve for the first violated safety invariant.
pub fn find_curve_violation(curve: &FanCurve) -> (r: Option<CurveViolation>)
    ensures
        r == spec_find_violation(curve@),
{
    let n = curve.points.len();
    if n < 2 {
        return Some(CurveViolation::TooFewPoints);
    }
    let mut i: usize = 0;
    while i < n
        invariant
            n == curve.points@.len(),
            2 <= n,
            i <= n,
            find_high_temp(curve.points@, 0) == find_high_temp(curve.points@, i as int),
        decreases n - i,
    {
        if curve.points[i].temperature > 150 {
            proof {
                assert(find_high_temp(curve.points@, i as int) == Some(i as int));
            }
            return Some(CurveViolation::UnreasonableTemp { index: i });
        }
        i += 1;
    }
    let mut i: usize = 1;
    while i < n
        invariant
            n == curve.points@.len(),
            2 <= n,
            1 <= i <= n,
            find_high_temp(curve.points@, 0) is None,
            find_non_increasing_temp(curve.points@, 1) == find_non_increasing_temp(
                curve.points@,
                i as int,
            ),
        decreases n - i,
    {
        if curve.points[i].temperature <= curve.points[i - 1].temperature {
            proof {
                assert(find_non_increasing_temp(curve.points@, i as int) == Some(i as int));
            }
            return Some(CurveViolation::NonIncreasingTemp { index: i });
        }
        i += 1;
    }
    let mut i: usize = 1;
    while i < n
        invariant
            n == curve.points@.len(),
            2 <= n,
            1 <= i <= n,
            find_high_temp(curve.points@, 0) is None,
            find_non_increasing_temp(curve.points@, 1) is None,
            find_speed_drop(curve.points@, 1) == find_speed_drop(curve.points@, i as int),
        decreases n - i,
    {
        if curve.points[i].fan_speed < curve.points[i - 1].fan_speed {
            proof {
                assert(find_speed_drop(curve.points@, i as int) == Some(i as int));
            }
            return Some(CurveViolation::DecreasingSpeed { index: i });
        }
        i += 1;
    }
    if curve.max_speed > 0 {
        let last = &curve.points[n - 1];
        if last.fan_speed < curve.max_speed / 2 {
            return Some(CurveViolation::UnsafeTopPoint);
        }
    }
    None
}

/// Whether a violation's indices refer to points the curve actually has.
pub open spec fn violation_in_bounds(c: FanCurveModel, v: CurveViolation) -> bool {
    match v {
        CurveViolation::TooFewPoints => true,
        CurveViolation::UnreasonableTemp { index } => index < c.points.len(),
        CurveViolation::NonIncreasingTemp { index } => 1 <= index < c.points.len(),
        CurveViolation::DecreasingSpeed { index } => 1 <= index < c.points.len(),
        CurveViolation::UnsafeTopPoint => c.points.len() >= 1,
    }
}

/// The message the validator reports for a violation.
pub open spec fn spec_violation_message(c: FanCurveModel, v: CurveViolation) -> Seq<char> {
    match v {
        CurveViolation::TooFewPoints => "curve must have at least 2 points"@,
        CurveViolation::UnreasonableTemp { index } => "point "@ + spec_dec_digits(index as int)
            + " has unreasonable temperature "@ + spec_dec_digits(
            c.points[index as int].temperature as int,
        ) + "\u{00B0}C (max 150)"@,
        CurveViolation::NonIncreasingTemp { index } => "temperatures must be strictly increasing: "@
            + spec_dec_digits(c.points[index as int].temperature as int) + "\u{00B0}C at point "@
            + spec_dec_digits(index as int) + " is not greater than "@ + spec_dec_digits(
            c.points[index as int - 1].temperature as int,
        ) + "\u{00B0}C at point "@ + spec_dec_digits(index as int - 1),
        CurveViolation::DecreasingSpeed { index } => (
        "fan speed must not decrease as temperature rises: "@ + spec_dec_digits(
            c.points[index as int].fan_speed as int,
        ) + " RPM at "@ + spec_dec_digits(c.points[index as int].temperature as int)
            + "\u{00B0}C is less than "@ + spec_dec_digits(
            c.points[index as int - 1].fan_speed as int,
        ) + " RPM at "@ + spec_dec_digits(c.points[index as int - 1].temperature as int)
            + "\u{00B0}C"@),
        CurveViolation::UnsafeTopPoint => "highest temperature point ("@ + spec_dec_digits(
            c.points.last().temperature as int,
        ) + "\u{00B0}C) has only "@ + spec_dec_digits(c.points.last().fan_speed as int)
            + " RPM; must be at least "@ + spec_dec_digits(c.max_speed as int / 2)
            + " RPM (50% of max "@ + spec_dec_digits(c.max_speed as int) + ")"@,
    }
}

/// Render the message for a violation found in `curve`.
pub fn violation_message(curve: &FanCurve, v: &CurveViolation) -> (m: String)
    requires
        violation_in_bounds(curve@, *v),
    ensures
        m@ == spec_violation_message(curve@, *v),
{
    match v {
        CurveViolation::TooFewPoints => String::from_str("curve must have at least 2 points"),
        CurveViolation::UnreasonableTemp { index } => {
            String::from_str("point ").concat(u64_to_string(*index as u64).as_str()).concat(
                " has unreasonable temperature ",
            ).concat(u32_to_string(curve.points[*index].temperature).as_str()).concat(
                "\u{00B0}C (max 150)",
            )
        },
        CurveViolation::NonIncreasingTemp { index } => {
            String::from_str("temperatures must be strictly increasing: ").concat(
                u32_to_string(curve.points[*index].temperature).as_str(),
            ).concat("\u{00B0}C at point ").concat(u64_to_string(*index as u64).as_str()).concat(
                " is not greater than ",
            ).concat(u32_to_string(curve.points[*index - 1].temperature).as_str()).concat(
                "\u{00B0}C at point ",
            ).concat(u64_to_string((*index - 1) as u64).as_str())
        },
        CurveViolation::DecreasingSpeed { index } => {
            String::from_str("fan speed must not decrease as temperature rises: ").concat(
                u32_to_string(curve.points[*index].fan_speed).as_str(),
            ).concat(" RPM at ").concat(
                u32_to_string(curve.points[*index].temperature).as_str(),
            ).concat("\u{00B0}C is less than ").concat(
                u32_to_string(curve.points[*index - 1].fan_speed).as_str(),
            ).concat(" RPM at ").concat(
                u32_to_string(curve.points[*index - 1].temperature).as_str(),
            ).concat("\u{00B0}C")
        },
        CurveViolation::UnsafeTopPoint => {
            let last = &curve.points[curve.points.len() - 1];
            String::from_str("highest temperature point (").concat(
                u32_to_string(last.temperature).as_str(),
            ).concat("\u{00B0}C) has only ").concat(u32_to_string(last.fan_speed).as_str()).concat(
                " RPM; must be at least ",
            ).concat(u32_to_string(curve.max_speed / 2).as_str()).concat(
                " RPM (50% of max ",
            ).concat(u32_to_string(curve.max_speed).as_str()).concat(")")
        },
    }
}

/// Validate a fan curve against the safety policy.
///
/// Succeeds exactly when the curve has at least two points, every
/// temperature is plausible (at most 150 degrees Celsius), temperatures
/// strictly increase, fan speeds never decrease, and (when `max_speed` is
/// known) the hottest point demands at least half of `max_speed`.
pub fn validate_curve(curve: &FanCurve) -> (r: Result<(), FanControlError>)
    ensures
        r is Ok <==> spec_curve_valid(curve@),
        r matches Err(e) ==> spec_find_violation(curve@) matches Some(v) && e@
            == FanControlErrorModel::InvalidCurve(spec_violation_message(curve@, v)),
{
    proof {
        vstd::std_specs::vec::axiom_spec_len(&curve.points);
    }
    match find_curve_violation(curve) {
        None => Ok(()),
        Some(v) => {
            proof {
                lemma_found_violation_in_bounds(curve@);
            }
            Err(FanControlError::InvalidCurve(violation_message(curve, &v)))
        },
    }
}

/// Any violation the validator reports refers to points the curve has.
proof fn lemma_found_violation_in_bounds(c: FanCurveModel)
    requires
        c.points.len() <= usize::MAX,
    ensures
        spec_find_violation(c) matches Some(v) ==> violation_in_bounds(c, v),
{
    if c.points.len() >= 2 {
        lemma_find_high_temp_in_bounds(c.points, 0);
        lemma_find_non_increasing_in_bounds(c.points, 1);
        lemma_find_speed_drop_in_bounds(c.points, 1);
    }
}

proof fn lemma_find_high_temp_in_bounds(points: Seq<FanCurvePoint>, i: int)
    ensures
        find_high_temp(points, i) matches Some(j) ==> 0 <= j < points.len(),
    decreases points.len() - i,
{
    if 0 <= i < points.len() {
        lemma_find_high_temp_in_bounds(points, i + 1);
    }
}

proof fn lemma_find_non_increasing_in_bounds(points: Seq<FanCurvePoint>, i: int)
    ensures
        find_non_increasing_temp(points, i) matches Some(j) ==> 1 <= j < points.len(),
    decreases points.len() - i,
{
    if 1 <= i < points.len() {
        lemma_find_non_increasing_in_bounds(points, i + 1);
    }
}

proof fn lemma_find_speed_drop_in_bounds(points: Seq<FanCurvePoint>, i: int)
    ensures
        find_speed_drop(points, i) matches Some(j) ==> 1 <= j < points.len(),
    decreases points.len() - i,
{
    if 1 <= i < points.len() {
        lemma_find_speed_drop_in_bounds(points, i + 1);
    }
}

// ---------------------------------------------------------------------------
// Curve builder
// ---------------------------------------------------------------------------

/// Smallest fan speed among the points, 0 when there are none.
pub open spec fn min_speed_of(points: Seq<FanCurvePoint>) -> u32
    decreases points.len(),
{
    if points.len() == 0 {
        0
    } else if points.len() == 1 {
        points[0].fan_speed
    } else {
        let m = min_speed_of(points.drop_last());
        if points.last().fan_speed < m {
            points.last().fan_speed
        } else {
            m
        }
    }
}

/// Largest fan speed among the points, 0 when there are none.
pub open spec fn max_speed_of(points: Seq<FanCurvePoint>) -> u32
    decreases points.len(),
{
    if points.len() == 0 {
        0
    } else if points.len() == 1 {
        points[0].fan_speed
    } else {
        let m = max_speed_of(points.drop_last());
        if points.last().fan_speed > m {
            points.last().fan_speed
        } else {
            m
        }
    }
}

/// Smallest temperature among the points, 0 when there are none.
pub open spec fn min_temp_of(points: Seq<FanCurvePoint>) -> u32
    decreases points.len(),
{
    if points.len() == 0 {
        0
    } else if points.len() == 1 {
        points[0].temperature
    } else {
        let m = min_temp_of(points.drop_last());
        if points.last().temperature < m {
            points.last().temperature
        } else {
            m
        }
    }
}

/// Largest temperature among the points, 0 when there are none.
pub open spec fn max_temp_of(points: Seq<FanCurvePoint>) -> u32
    decreases points.len(),
{
    if points.len() == 0 {
        0
    } else if points.len() == 1 {
        points[0].temperature
    } else {
        let m = max_temp_of(points.drop_last());
        if points.last().temperature > m {
            points.last().temperature
        } else {
            m
        }
    }
}

/// Build a `FanCurve` from user-supplied temperature-to-RPM points, taking
/// the speed and temperature bounds from the curve being edited when one is
/// given — so a partial edit cannot inadvertently narrow the safety bounds
/// — and otherwise computing them from the new points.
pub fn build_curve_from_points(
    fan_id: u32,
    sensor_id: u32,
    points: Vec<FanCurvePoint>,
    reference: Option<&FanCurve>,
) -> (r: FanCurve)
    ensures
        r.fan_id == fan_id,
        r.sensor_id == sensor_id,
        r.points@ == points@,
        r.active,
        r.min_speed == match reference {
            Some(c) => c.min_speed,
            None => min_speed_of(points@),
        },
        r.max_speed == match reference {
            Some(c) => c.max_speed,
            None => max_speed_of(points@),
        },
        r.min_temp == match reference {
            Some(c) => c.min_temp,
            None => min_temp_of(points@),
        },
        r.max_temp == match reference {
            Some(c) => c.max_temp,
            None => max_temp_of(points@),
        },
{
    let (min_speed, max_speed, min_temp, max_temp) = match reference {
        Some(c) => (c.min_speed, c.max_speed, c.min_temp, c.max_temp),
        None => {
            let mut min_s: u32 = 0;
            let mut max_s: u32 = 0;
            let mut min_t: u32 = 0;
            let mut max_t: u32 = 0;
            let mut i: usize = 0;
            while i < points.len()
                invariant
                    i <= points.len(),
                    min_s == min_speed_of(points@.take(i as int)),
                    max_s == max_speed_of(points@.take(i as int)),
                    min_t == min_temp_of(points@.take(i as int)),
                    max_t == max_temp_of(points@.take(i as int)),
                decreases points.len() - i,
            {
                let p = points[i];
                proof {
                    assert(points@.take(i + 1).drop_last() =~= points@.take(i as int));
                    assert(points@.take(i + 1).last() == points@[i as int]);
                }
                if i == 0 {
                    min_s = p.fan_speed;
                    max_s = p.fan_speed;
                    min_t = p.temperature;
                    max_t = p.temperature;
                } else {
                    if p.fan_speed < min_s {
                        min_s = p.fan_speed;
                    }
                    if p.fan_speed > max_s {
                        max_s = p.fan_speed;
                    }
                    if p.temperature < min_t {
                        min_t = p.temperature;
                    }
                    if p.temperature > max_t {
                        max_t = p.temperature;
                    }
                }
                i += 1;
            }
            proof {
                assert(points@.take(points@.len() as int) =~= points@);
            }
            (min_s, max_s, min_t, max_t)
        },
    };
    FanCurve {
        fan_id,
        sensor_id,
        min_speed,
        max_speed,
        min_temp,
        max_temp,
        points,
        active: true,
    }
}

} // verus!
