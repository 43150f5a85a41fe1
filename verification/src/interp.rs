//! Linear mapping between the PWM duty-cycle domain `[0, 255]` and a fan's
//! RPM operating range `[min_rpm, max_rpm]`.
//!
//! Backends that can only command a fan by RPM expose a PWM-shaped control
//! surface through these two conversions. Both directions use integer
//! arithmetic that truncates (floors) the scaled product.

use vstd::arithmetic::div_mod::{
    lemma_div_is_ordered, lemma_div_multiples_vanish, lemma_fundamental_div_mod,
    lemma_fundamental_div_mod_converse,
};
use vstd::arithmetic::mul::lemma_mul_inequality;
use vstd::prelude::*;

verus! {

/// RPM commanded by a duty cycle: `min_rpm` plus the floored share of the
/// range that `pwm` selects out of 255.
pub open spec fn spec_pwm_to_rpm(min_rpm: u32, max_rpm: u32, pwm: u8) -> int {
    min_rpm + (pwm * (max_rpm - min_rpm)) / 255
}

/// Duty cycle that approximates an RPM reading: clamped to 0 at or below
/// `min_rpm`, to 255 at or above `max_rpm`, and the floored proportional
/// value strictly inside the range.
pub open spec fn spec_rpm_to_pwm(min_rpm: u32, max_rpm: u32, rpm: u32) -> int {
    if rpm <= min_rpm {
        0
    } else if rpm >= max_rpm {
        255
    } else {
        ((rpm - min_rpm) * 255) / (max_rpm - min_rpm)
    }
}

/// Map a PWM duty cycle (0-255) to an RPM in `[min_rpm, max_rpm]`.
pub fn pwm_to_rpm(min_rpm: u32, max_rpm: u32, pwm: u8) -> (rpm: u32)
    requires
        min_rpm <= max_rpm,
    ensures
        rpm == spec_pwm_to_rpm(min_rpm, max_rpm, pwm),
        min_rpm <= rpm <= max_rpm,
{
    let d: u64 = (max_rpm - min_rpm) as u64;
    proof {
        assert(pwm as int * d <= 255 * d) by {
            lemma_mul_inequality(pwm as int, 255, d as int);
        }
        assert((pwm as int * d) / 255 <= (255 * d) / 255) by {
            lemma_div_is_ordered(pwm as int * d, 255 * d, 255);
        }
        assert((255 * (d as int)) / 255 == d) by {
            lemma_div_multiples_vanish(d as int, 255);
        }
    }
    let scaled: u64 = (pwm as u64) * d / 255;
    min_rpm + (scaled as u32)
}

/// Map an RPM reading back to an approximate PWM duty cycle (0-255).
///
/// Readings at or below `min_rpm` clamp to 0, readings at or above
/// `max_rpm` clamp to 255; degenerate ranges (`min_rpm >= max_rpm`) always
/// hit one of the two clamps.
pub fn rpm_to_pwm(min_rpm: u32, max_rpm: u32, rpm: u32) -> (pwm: u8)
    ensures
        pwm == spec_rpm_to_pwm(min_rpm, max_rpm, rpm),
{
    if rpm <= min_rpm {
        return 0;
    }
    if rpm >= max_rpm {
        return 255;
    }
    // Here min_rpm < rpm < max_rpm, so the range is non-degenerate.
    let d: u64 = (max_rpm - min_rpm) as u64;
    let x: u64 = (rpm - min_rpm) as u64;
    proof {
        assert(x * 255 <= (d - 1) * 255) by {
            lemma_mul_inequality(x as int, d - 1, 255);
        }
        assert((x as int * 255) / (d as int) <= ((d - 1) * 255) / (d as int)) by {
            lemma_div_is_ordered(x as int * 255, (d - 1) * 255, d as int);
        }
        assert(((d - 1) * 255) / (d as int) < 255) by {
            let v = (d - 1) * 255;
            lemma_fundamental_div_mod(v, d as int);
            assert(v == d * 255 - 255);
            assert(v < d * 255) by {
                lemma_mul_inequality(1, d as int, 255);
            }
            if v / (d as int) >= 255 {
                assert(d * (v / (d as int)) >= d * 255) by {
                    lemma_mul_inequality(255, v / (d as int), d as int);
                }
            }
        }
    }
    let scaled: u64 = x * 255 / d;
    scaled as u8
}

/// The duty-cycle endpoints map exactly onto the RPM range endpoints:
/// duty 0 commands `min_rpm` and duty 255 commands `max_rpm`.
pub proof fn lemma_pwm_to_rpm_boundaries(min_rpm: u32, max_rpm: u32)
    requires
        0 < min_rpm < max_rpm,
    ensures
        spec_pwm_to_rpm(min_rpm, max_rpm, 0) == min_rpm,
        spec_pwm_to_rpm(min_rpm, max_rpm, 255) == max_rpm,
{
    let d = max_rpm - min_rpm;
    assert((255 * d) / 255 == d) by {
        lemma_div_multiples_vanish(d, 255);
    }
}

/// `rpm_to_pwm` clamps: any reading at or below `min_rpm` maps to duty 0,
/// and any reading at or above `max_rpm` maps to duty 255.
pub proof fn lemma_rpm_to_pwm_clamps(min_rpm: u32, max_rpm: u32, rpm: u32)
    requires
        0 < min_rpm < max_rpm,
    ensures
        rpm <= min_rpm ==> spec_rpm_to_pwm(min_rpm, max_rpm, rpm) == 0,
        rpm >= max_rpm ==> spec_rpm_to_pwm(min_rpm, max_rpm, rpm) == 255,
{
}

/// Round trip: converting a duty cycle to an RPM and back recovers the
/// original duty cycle up to an error of at most 1, provided the range is
/// wide enough to resolve every duty step (at least 254 RPM of span).
/// Narrower ranges lose resolution in the integer truncation and can drift
/// further.
pub proof fn lemma_pwm_rpm_roundtrip(min_rpm: u32, max_rpm: u32, pwm: u8)
    requires
        0 < min_rpm,
        min_rpm + 254 <= max_rpm,
    ensures
        min_rpm <= spec_pwm_to_rpm(min_rpm, max_rpm, pwm) <= max_rpm <= u32::MAX,
        ({
            let back = spec_rpm_to_pwm(
                min_rpm,
                max_rpm,
                spec_pwm_to_rpm(min_rpm, max_rpm, pwm) as u32,
            );
            pwm - 1 <= back <= pwm
        }),
{
    let d = (max_rpm - min_rpm) as int;
    let p = pwm as int;
    let k = (p * d) / 255;
    let r = (p * d) % 255;
    lemma_fundamental_div_mod(p * d, 255);
    assert(p * d == 255 * k + r);
    assert(0 <= r < 255);
    assert(0 <= p * d) by {
        lemma_mul_inequality(0, p, d);
    }
    assert(p * d <= 255 * d) by {
        lemma_mul_inequality(p, 255, d);
    }
    // 0 <= k <= d, so the round-tripped RPM stays in range.
    assert(0 <= k) by {
        lemma_div_is_ordered(0, p * d, 255);
    }
    assert(k <= d) by {
        lemma_div_is_ordered(p * d, 255 * d, 255);
        lemma_div_multiples_vanish(d, 255);
    }
    let rpm = min_rpm + k;
    assert(rpm == spec_pwm_to_rpm(min_rpm, max_rpm, pwm));
    if rpm <= min_rpm {
        // k == 0, hence p * d < 255; with d >= 254 that forces pwm <= 1.
        assert(k == 0);
        assert(p * d < 255);
        if p >= 2 {
            assert(p * d >= 2 * d) by {
                lemma_mul_inequality(2, p, d);
            }
        }
        assert(p <= 1);
        assert(spec_rpm_to_pwm(min_rpm, max_rpm, rpm as u32) == 0);
    } else if rpm >= max_rpm {
        // k == d happens only at full duty.
        assert(k == d);
        if p <= 254 {
            assert(p * d <= 254 * d) by {
                lemma_mul_inequality(p, 254, d);
            }
            assert((p * d) / 255 <= (254 * d) / 255) by {
                lemma_div_is_ordered(p * d, 254 * d, 255);
            }
            assert(254 * d == 255 * d - d);
            assert(255 * d - d == 255 * (d - 1) + (255 - d)) by {
                assert(255 * (d - 1) == 255 * d - 255) by {
                    lemma_mul_inequality(1, 1, 1);
                    assert(255 * (d - 1) == 255 * d - 255 * 1) by (nonlinear_arith);
                }
            }
            if d <= 255 {
                assert((254 * d) / 255 == d - 1) by {
                    lemma_fundamental_div_mod_converse(254 * d, 255, d - 1, 255 - d);
                }
            } else {
                assert(false);
            }
        }
        assert(p == 255);
        assert(spec_rpm_to_pwm(min_rpm, max_rpm, rpm as u32) == 255);
    } else {
        // Strictly inside the range: 1 <= k <= d - 1.
        assert(1 <= k && k < d);
        let back = (k * 255) / d;
        assert(spec_rpm_to_pwm(min_rpm, max_rpm, rpm as u32) == back);
        // k * 255 == p * d - r, and 0 <= r <= d since d >= 254.
        assert(k * 255 == 255 * k) by (nonlinear_arith);
        assert(255 * k == p * d - r);
        if r == 0 {
            assert((p * d) / d == p) by {
                assert(p * d == d * p) by (nonlinear_arith);
                lemma_div_multiples_vanish(p, d);
            }
            assert(back == p);
        } else {
            // p * d - r == (p - 1) * d + (d - r) with 0 <= d - r < d.
            assert((p - 1) * d == p * d - d) by (nonlinear_arith);
            assert(0 <= d - r < d);
            assert(back == p - 1) by {
                lemma_fundamental_div_mod_converse(p * d - r, d, p - 1, d - r);
            }
        }
        assert(p - 1 <= back <= p);
    }
}

} // verus!
