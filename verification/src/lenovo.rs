//! Parser and command planner for the Lenovo embedded-controller table
//! protocol.
//!
//! The vendor backend obtains a line-oriented, pipe-delimited text dump from
//! a management subprocess and writes commands back through it. Everything
//! here is pure text processing: the subprocess itself runs outside the
//! library, which is what makes the parser testable on any host.
//!
//! Line grammar (each line independently parseable):
//! - `FULLSPEED|<0|1>` — global full-speed override flag, false when absent.
//! - `TABLE|<fan>|<sensor>|<active>|<min_speed>|<max_speed>|<min_temp>|
//!   <max_temp>|<speeds_csv>|<temps_csv>` — one fan-curve definition.
//! - `FAN|<fan>|<sensor>|<speed_rpm>|<temp>` — one live reading.
//!
//! Malformed lines are skipped, never fatal: the parser returns whatever
//! parsed cleanly.

use crate::errors::{FanControlError, FanControlErrorModel};
use crate::fan::{Fan, FanCurve, FanCurveModel, FanCurvePoint, FanModel};
use crate::interp::{pwm_to_rpm, rpm_to_pwm, spec_pwm_to_rpm, spec_rpm_to_pwm};
use crate::tables::{spec_widen, CurveTable, FanRpmRange, RangeTable};
use crate::text::{
    field_u32, is_prefixed, lines, parse_csv_u32s, parse_u32, seq_views, spec_csv_u32s,
    spec_dec_digits, spec_field_u32, spec_lines, spec_parse_u32, spec_split, spec_trim, split,
    starts_with, strip_prefix, trim, u32_to_string,
};
use vstd::prelude::*;

verus! {

/// Fallback RPM range used when no table data is available for a fan.
pub const DEFAULT_MIN_RPM: u32 = 1600;

/// Fallback RPM range used when no table data is available for a fan.
pub const DEFAULT_MAX_RPM: u32 = 4800;

// ---------------------------------------------------------------------------
// Fan id strings
// ---------------------------------------------------------------------------

/// The numeric id in a `fan<N>` identifier, if the string has that shape.
pub open spec fn spec_parse_fan_id(s: Seq<char>) -> Option<u32> {
    if is_prefixed(s, "fan"@) {
        spec_parse_u32(s.skip("fan"@.len() as int))
    } else {
        None
    }
}

/// Parse a fan id string like `fan0` into its numeric id.
pub fn parse_fan_id(fan_id: &str) -> (r: Result<u32, FanControlError>)
    ensures
        match r {
            Ok(v) => spec_parse_fan_id(fan_id@) == Some(v),
            Err(e) => spec_parse_fan_id(fan_id@) is None && e@
                == FanControlErrorModel::FanNotFound(fan_id@),
        },
{
    match strip_prefix(fan_id, "fan") {
        Some(rest) => match parse_u32(rest.as_str()) {
            Some(v) => Ok(v),
            None => Err(FanControlError::FanNotFound(fan_id.to_owned())),
        },
        None => Err(FanControlError::FanNotFound(fan_id.to_owned())),
    }
}

// ---------------------------------------------------------------------------
// FULLSPEED lines
// ---------------------------------------------------------------------------

/// The full-speed flag the first `FULLSPEED|` line carries; false when no
/// line carries one.
pub open spec fn spec_fullspeed_of_lines(ls: Seq<Seq<char>>) -> bool
    decreases ls.len(),
{
    if ls.len() == 0 {
        false
    } else if is_prefixed(ls.first(), "FULLSPEED|"@) {
        spec_trim(ls.first().skip("FULLSPEED|"@.len() as int)) == "1"@
    } else {
        spec_fullspeed_of_lines(ls.drop_first())
    }
}

/// The full-speed flag of a whole diagnostic dump.
pub open spec fn spec_parse_fullspeed(s: Seq<char>) -> bool {
    spec_fullspeed_of_lines(spec_lines(s))
}

/// Scan a diagnostic dump for the `FULLSPEED|` line and return its flag.
pub fn parse_fullspeed(output: &str) -> (r: bool)
    ensures
        r == spec_parse_fullspeed(output@),
{
    let ls = lines(output);
    let ghost lv = seq_views(ls@);
    let mut i: usize = 0;
    proof {
        assert(lv.skip(0) =~= lv);
    }
    while i < ls.len()
        invariant
            lv == seq_views(ls@),
            lv == spec_lines(output@),
            i <= ls@.len(),
            spec_fullspeed_of_lines(lv) == spec_fullspeed_of_lines(lv.skip(i as int)),
        decreases ls@.len() - i,
    {
        proof {
            assert(lv.skip(i as int).first() == lv[i as int]);
            assert(lv.skip(i as int).drop_first() =~= lv.skip(i + 1));
            assert(lv[i as int] == ls@[i as int]@);
        }
        match strip_prefix(ls[i].as_str(), "FULLSPEED|") {
            Some(value) => {
                proof {
                    assert(is_prefixed(lv[i as int], "FULLSPEED|"@));
                    assert(spec_fullspeed_of_lines(lv.skip(i as int)) == (spec_trim(
                        lv[i as int].skip("FULLSPEED|"@.len() as int),
                    ) == "1"@));
                }
                let t = trim(value.as_str());
                let b = t == String::from_str("1");
                proof {
                    assert(t@ == spec_trim(lv[i as int].skip("FULLSPEED|"@.len() as int)));
                    assert(b == (t@ == "1"@));
                    assert(b == spec_fullspeed_of_lines(lv));
                    assert(spec_parse_fullspeed(output@) == spec_fullspeed_of_lines(lv));
                }
                return b;
            },
            None => {},
        }
        i += 1;
    }
    proof {
        assert(lv.skip(ls@.len() as int) =~= Seq::<Seq<char>>::empty());
    }
    false
}

// ---------------------------------------------------------------------------
// TABLE lines
// ---------------------------------------------------------------------------

/// The points paired positionally from the speed and temperature lists;
/// trailing unmatched values are dropped.
pub open spec fn spec_points(speeds: Seq<u32>, temps: Seq<u32>) -> Seq<FanCurvePoint> {
    let n = if speeds.len() <= temps.len() {
        speeds.len()
    } else {
        temps.len()
    };
    Seq::new(n, |i: int| FanCurvePoint { temperature: temps[i], fan_speed: speeds[i] })
}

/// The curve described by nine consecutive fields starting at `off`:
/// fan id, sensor id, active flag, speed bounds, temperature bounds, then
/// the two comma-separated point lists.
pub open spec fn spec_curve_from_fields(parts: Seq<Seq<char>>, off: int) -> FanCurveModel {
    FanCurveModel {
        fan_id: spec_field_u32(parts[off]),
        sensor_id: spec_field_u32(parts[off + 1]),
        active: spec_trim(parts[off + 2]) == "1"@,
        min_speed: spec_field_u32(parts[off + 3]),
        max_speed: spec_field_u32(parts[off + 4]),
        min_temp: spec_field_u32(parts[off + 5]),
        max_temp: spec_field_u32(parts[off + 6]),
        points: spec_points(spec_csv_u32s(parts[off + 7]), spec_csv_u32s(parts[off + 8])),
    }
}

/// The curve and RPM range of one `TABLE|` line, or nothing when the line
/// has fewer than ten fields.
pub open spec fn spec_parse_table_line(l: Seq<char>) -> Option<(FanCurveModel, FanRpmRange)> {
    let parts = spec_split(l, '|');
    if parts.len() < 10 {
        None
    } else {
        let c = spec_curve_from_fields(parts, 1);
        Some((c, FanRpmRange { min_rpm: c.min_speed, max_rpm: c.max_speed }))
    }
}

/// Assemble a curve from nine consecutive split fields.
fn curve_from_fields(parts: &Vec<String>, off: usize) -> (r: FanCurve)
    requires
        parts@.len() >= off + 9,
    ensures
        r@ == spec_curve_from_fields(seq_views(parts@), off as int),
{
    proof {
        vstd::std_specs::vec::axiom_spec_len(parts);
    }
    let speeds = parse_csv_u32s(parts[off + 7].as_str());
    let temps = parse_csv_u32s(parts[off + 8].as_str());
    let n = if speeds.len() <= temps.len() {
        speeds.len()
    } else {
        temps.len()
    };
    let mut points: Vec<FanCurvePoint> = Vec::new();
    let mut i: usize = 0;
    while i < n
        invariant
            n <= speeds@.len(),
            n <= temps@.len(),
            i <= n,
            points@.len() == i,
            forall|j: int|
                0 <= j < i ==> #[trigger] points@[j] == (FanCurvePoint {
                    temperature: temps@[j],
                    fan_speed: speeds@[j],
                }),
        decreases n - i,
    {
        points.push(FanCurvePoint { temperature: temps[i], fan_speed: speeds[i] });
        i += 1;
    }
    proof {
        assert(points@ =~= spec_points(speeds@, temps@));
    }
    FanCurve {
        fan_id: field_u32(parts[off].as_str()),
        sensor_id: field_u32(parts[off + 1].as_str()),
        active: trim(parts[off + 2].as_str()) == String::from_str("1"),
        min_speed: field_u32(parts[off + 3].as_str()),
        max_speed: field_u32(parts[off + 4].as_str()),
        min_temp: field_u32(parts[off + 5].as_str()),
        max_temp: field_u32(parts[off + 6].as_str()),
        points,
    }
}

/// Parse a single `TABLE|` line into a curve and its RPM range; `None` when
/// the line is too short.
pub fn parse_table_line(line: &str) -> (r: Option<(FanCurve, FanRpmRange)>)
    ensures
        match r {
            Some(p) => spec_parse_table_line(line@) matches Some(q) && p.0@ == q.0 && p.1 == q.1,
            None => spec_parse_table_line(line@) is None,
        },
{
    let parts = split(line, '|');
    if parts.len() < 10 {
        return None;
    }
    let curve = curve_from_fields(&parts, 1);
    let range = FanRpmRange { min_rpm: curve.min_speed, max_rpm: curve.max_speed };
    Some((curve, range))
}

// ---------------------------------------------------------------------------
// FAN lines
// ---------------------------------------------------------------------------

/// The fixed label for a numeric fan id.
pub open spec fn spec_fan_label_base(fan_id: u32) -> Seq<char> {
    if fan_id == 0 {
        "CPU Fan"@
    } else if fan_id == 1 {
        "GPU Fan"@
    } else {
        "Fan "@ + spec_dec_digits(fan_id as int)
    }
}

/// The numeric fan id a `FAN|` line names, or nothing when the line has
/// fewer than five fields.
pub open spec fn spec_fan_line_key(l: Seq<char>) -> Option<u32> {
    let parts = spec_split(l, '|');
    if parts.len() < 5 {
        None
    } else {
        Some(spec_field_u32(parts[1]))
    }
}

/// The fan snapshot one `FAN|` line yields, given the learned RPM ranges
/// and the curves collected so far. The fan's duty cycle is reconstructed
/// from its RPM reading through its range (the fallback range when none was
/// learned), and the fan adopts every curve collected for its id.
pub open spec fn spec_parse_fan_line(
    l: Seq<char>,
    ranges: Map<u32, FanRpmRange>,
    curves: Map<u32, Seq<FanCurveModel>>,
    full_speed_active: bool,
) -> Option<FanModel> {
    let parts = spec_split(l, '|');
    if parts.len() < 5 {
        None
    } else {
        let fan_id = spec_field_u32(parts[1]);
        let speed_rpm = spec_field_u32(parts[3]);
        let temp = spec_field_u32(parts[4]);
        let have_range = ranges.contains_key(fan_id);
        let minr = if have_range {
            ranges[fan_id].min_rpm
        } else {
            DEFAULT_MIN_RPM
        };
        let maxr = if have_range {
            ranges[fan_id].max_rpm
        } else {
            DEFAULT_MAX_RPM
        };
        Some(
            FanModel {
                id: "fan"@ + spec_dec_digits(fan_id as int),
                label: spec_fan_label_base(fan_id) + " ("@ + spec_dec_digits(temp as int)
                    + "\u{00B0}C)"@,
                speed_rpm,
                pwm: Some(spec_rpm_to_pwm(minr, maxr, speed_rpm) as u8),
                controllable: true,
                min_rpm: if have_range {
                    Some(ranges[fan_id].min_rpm)
                } else {
                    None
                },
                max_rpm: if have_range {
                    Some(ranges[fan_id].max_rpm)
                } else {
                    None
                },
                curves: if curves.contains_key(fan_id) {
                    curves[fan_id]
                } else {
                    Seq::empty()
                },
                full_speed_active,
            },
        )
    }
}

/// Parse a single `FAN|` line into a `Fan` snapshot, consuming the curves
/// collected for its id; `None` when the line is too short.
pub fn parse_fan_line(
    line: &str,
    rpm_ranges: &RangeTable,
    curves_by_fan: &mut CurveTable,
    full_speed_active: bool,
) -> (r: Option<Fan>)
    ensures
        match r {
            Some(f) => spec_parse_fan_line(
                line@,
                rpm_ranges@,
                old(curves_by_fan)@,
                full_speed_active,
            ) matches Some(fm) && f@ == fm,
            None => spec_parse_fan_line(
                line@,
                rpm_ranges@,
                old(curves_by_fan)@,
                full_speed_active,
            ) is None,
        },
        final(curves_by_fan)@ == match spec_fan_line_key(line@) {
            Some(k) => old(curves_by_fan)@.remove(k),
            None => old(curves_by_fan)@,
        },
{
    let parts = split(line, '|');
    if parts.len() < 5 {
        return None;
    }
    let fan_id = field_u32(parts[1].as_str());
    let speed_rpm = field_u32(parts[3].as_str());
    let temp = field_u32(parts[4].as_str());

    let base = if fan_id == 0 {
        String::from_str("CPU Fan")
    } else if fan_id == 1 {
        String::from_str("GPU Fan")
    } else {
        String::from_str("Fan ").concat(u32_to_string(fan_id).as_str())
    };
    let label = base.concat(" (").concat(u32_to_string(temp).as_str()).concat("\u{00B0}C)");
    let id = String::from_str("fan").concat(u32_to_string(fan_id).as_str());

    let range = rpm_ranges.get(fan_id);
    let (min_rpm, max_rpm) = match range {
        Some(g) => (g.min_rpm, g.max_rpm),
        None => (DEFAULT_MIN_RPM, DEFAULT_MAX_RPM),
    };
    let curves = curves_by_fan.take_curves(fan_id);
    let pwm = rpm_to_pwm(min_rpm, max_rpm, speed_rpm);

    let fan = Fan {
        id,
        label,
        speed_rpm,
        pwm: Some(pwm),
        controllable: true,
        min_rpm: match range {
            Some(g) => Some(g.min_rpm),
            None => None,
        },
        max_rpm: match range {
            Some(g) => Some(g.max_rpm),
            None => None,
        },
        curves,
        full_speed_active,
    };
    Some(fan)
}

// ---------------------------------------------------------------------------
// Whole-dump parsing
// ---------------------------------------------------------------------------

/// The curve and range of a line, when it is a well-formed `TABLE|` line.
pub open spec fn table_line_of(l: Seq<char>) -> Option<(FanCurveModel, FanRpmRange)> {
    if is_prefixed(l, "TABLE|"@) {
        spec_parse_table_line(l)
    } else {
        None
    }
}

/// The curve and range tables after consuming a prefix of the dump's
/// lines: curves grouped per fan in order of appearance, and each fan's
/// range widened across all of its table entries.
pub open spec fn spec_table_pass(ls: Seq<Seq<char>>) -> (
    Map<u32, Seq<FanCurveModel>>,
    Map<u32, FanRpmRange>,
)
    decreases ls.len(),
{
    if ls.len() == 0 {
        (Map::empty(), Map::empty())
    } else {
        let (cm, rm) = spec_table_pass(ls.drop_last());
        match table_line_of(ls.last()) {
            Some(p) => (
                cm.insert(
                    p.0.fan_id,
                    (if cm.contains_key(p.0.fan_id) {
                        cm[p.0.fan_id]
                    } else {
                        Seq::empty()
                    }).push(p.0),
                ),
                rm.insert(p.0.fan_id, spec_widen(rm, p.0.fan_id, p.1)),
            ),
            None => (cm, rm),
        }
    }
}

/// The fans assembled from the `FAN|` lines of a prefix of the dump, each
/// consuming the curves collected for its id.
pub open spec fn spec_fan_pass(
    ls: Seq<Seq<char>>,
    ranges: Map<u32, FanRpmRange>,
    curves0: Map<u32, Seq<FanCurveModel>>,
    full_speed_active: bool,
) -> (Seq<FanModel>, Map<u32, Seq<FanCurveModel>>)
    decreases ls.len(),
{
    if ls.len() == 0 {
        (Seq::empty(), curves0)
    } else {
        let (fans, cm) = spec_fan_pass(ls.drop_last(), ranges, curves0, full_speed_active);
        let l = ls.last();
        if is_prefixed(l, "FAN|"@) {
            match spec_parse_fan_line(l, ranges, cm, full_speed_active) {
                Some(fm) => (fans.push(fm), cm.remove(spec_fan_line_key(l)->0)),
                None => (fans, cm),
            }
        } else {
            (fans, cm)
        }
    }
}

/// What a whole discovery dump yields: the fan snapshots in `FAN|` line
/// order, and the learned per-fan RPM ranges.
pub open spec fn spec_parse_discover(s: Seq<char>) -> (Seq<FanModel>, Map<u32, FanRpmRange>) {
    let ls = spec_lines(s);
    let fullspeed = spec_fullspeed_of_lines(ls);
    let (cm, rm) = spec_table_pass(ls);
    let (fans, _) = spec_fan_pass(ls, rm, cm, fullspeed);
    (fans, rm)
}

/// Parse a whole discovery dump: `TABLE|` lines first (curves and RPM
/// ranges), then `FAN|` lines into fan snapshots, with the global
/// full-speed flag applied to every fan. Returns the fans and the learned
/// ranges, which feed later duty-cycle conversions.
pub fn parse_discover_output(output: &str) -> (r: (Vec<Fan>, RangeTable))
    ensures
        r.0@.map_values(|f: Fan| f@) == spec_parse_discover(output@).0,
        r.1@ == spec_parse_discover(output@).1,
{
    let full_speed_active = parse_fullspeed(output);
    let ls = lines(output);
    let ghost lv = seq_views(ls@);

    let mut curves = CurveTable::new();
    let mut ranges = RangeTable::new();
    let mut i: usize = 0;
    while i < ls.len()
        invariant
            lv == seq_views(ls@),
            i <= ls@.len(),
            curves@ == spec_table_pass(lv.take(i as int)).0,
            ranges@ == spec_table_pass(lv.take(i as int)).1,
        decreases ls@.len() - i,
    {
        proof {
            assert(lv.take(i + 1).drop_last() =~= lv.take(i as int));
            assert(lv.take(i + 1).last() == lv[i as int]);
            assert(lv[i as int] == ls@[i as int]@);
        }
        if starts_with(ls[i].as_str(), "TABLE|") {
            match parse_table_line(ls[i].as_str()) {
                Some(p) => {
                    let fan_id = p.0.fan_id;
                    curves.push_curve(fan_id, p.0);
                    ranges.widen(fan_id, p.1);
                },
                None => {},
            }
        }
        i += 1;
    }

    let ghost fullspeed = spec_parse_fullspeed(output@);
    let ghost cm_full = spec_table_pass(lv).0;
    let ghost rm_full = spec_table_pass(lv).1;
    proof {
        assert(lv.take(ls@.len() as int) =~= lv);
    }

    let mut fans: Vec<Fan> = Vec::new();
    let mut i: usize = 0;
    while i < ls.len()
        invariant
            lv == seq_views(ls@),
            i <= ls@.len(),
            ranges@ == rm_full,
            full_speed_active == fullspeed,
            fans@.map_values(|f: Fan| f@) == spec_fan_pass(
                lv.take(i as int),
                rm_full,
                cm_full,
                fullspeed,
            ).0,
            curves@ == spec_fan_pass(lv.take(i as int), rm_full, cm_full, fullspeed).1,
        decreases ls@.len() - i,
    {
        proof {
            assert(lv.take(i + 1).drop_last() =~= lv.take(i as int));
            assert(lv.take(i + 1).last() == lv[i as int]);
            assert(lv[i as int] == ls@[i as int]@);
        }
        if starts_with(ls[i].as_str(), "FAN|") {
            let ghost prev_fans = fans@.map_values(|f: Fan| f@);
            match parse_fan_line(ls[i].as_str(), &ranges, &mut curves, full_speed_active) {
                Some(fan) => {
                    fans.push(fan);
                    proof {
                        assert(fans@.map_values(|f: Fan| f@) =~= prev_fans.push(
                            fans@.last()@,
                        ));
                    }
                },
                None => {},
            }
        }
        i += 1;
    }
    proof {
        assert(lv.take(ls@.len() as int) =~= lv);
    }
    (fans, ranges)
}

/// The curves described by a prefix of a dedicated table dump, whose lines
/// carry the nine curve fields without a `TABLE|` prefix; lines with fewer
/// than nine fields are skipped.
pub open spec fn spec_curves_pass(ls: Seq<Seq<char>>) -> Seq<FanCurveModel>
    decreases ls.len(),
{
    if ls.len() == 0 {
        Seq::empty()
    } else {
        let rest = spec_curves_pass(ls.drop_last());
        let parts = spec_split(ls.last(), '|');
        if parts.len() < 9 {
            rest
        } else {
            rest.push(spec_curve_from_fields(parts, 0))
        }
    }
}

/// The curves of a whole dedicated table dump.
pub open spec fn spec_parse_curves(s: Seq<char>) -> Seq<FanCurveModel> {
    spec_curves_pass(spec_lines(s))
}

/// Parse the dedicated table dump used when only curves are requested.
pub fn parse_curves_output(output: &str) -> (r: Vec<FanCurve>)
    ensures
        r@.map_values(|c: FanCurve| c@) == spec_parse_curves(output@),
{
    let ls = lines(output);
    let ghost lv = seq_views(ls@);
    let mut curves: Vec<FanCurve> = Vec::new();
    let mut i: usize = 0;
    while i < ls.len()
        invariant
            lv == seq_views(ls@),
            i <= ls@.len(),
            curves@.map_values(|c: FanCurve| c@) == spec_curves_pass(lv.take(i as int)),
        decreases ls@.len() - i,
    {
        proof {
            assert(lv.take(i + 1).drop_last() =~= lv.take(i as int));
            assert(lv.take(i + 1).last() == lv[i as int]);
            assert(lv[i as int] == ls@[i as int]@);
        }
        let parts = split(ls[i].as_str(), '|');
        if parts.len() >= 9 {
            let ghost prev = curves@.map_values(|c: FanCurve| c@);
            let curve = curve_from_fields(&parts, 0);
            curves.push(curve);
            proof {
                assert(curves@.map_values(|c: FanCurve| c@) =~= prev.push(curves@.last()@));
            }
        }
        i += 1;
    }
    proof {
        assert(lv.take(ls@.len() as int) =~= lv);
    }
    curves
}

// ---------------------------------------------------------------------------
// Command planning
// ---------------------------------------------------------------------------

/// The hardware operation a duty-cycle request translates to.
#[derive(Debug, Clone, Copy, PartialEq, Eq, Structural)]
pub enum SetPwmAction {
    /// Engage the global full-speed override.
    FullSpeedOn,
    /// Release the override, returning the fans to firmware control.
    FullSpeedOff,
    /// Command one fan to a target RPM.
    SetRpm { fan_id: u32, target_rpm: u32 },
}

/// The RPM range on file for a fan, or the fallback range.
pub open spec fn spec_fan_range_or_default(ranges: Map<u32, FanRpmRange>, fan_id: u32) -> (
    u32,
    u32,
) {
    if ranges.contains_key(fan_id) {
        (ranges[fan_id].min_rpm, ranges[fan_id].max_rpm)
    } else {
        (DEFAULT_MIN_RPM, DEFAULT_MAX_RPM)
    }
}

/// Resolve the RPM range for a fan, falling back to the defaults.
pub fn fan_rpm_range(ranges: &RangeTable, fan_id: u32) -> (r: (u32, u32))
    ensures
        r == spec_fan_range_or_default(ranges@, fan_id),
{
    match ranges.get(fan_id) {
        Some(g) => (g.min_rpm, g.max_rpm),
        None => (DEFAULT_MIN_RPM, DEFAULT_MAX_RPM),
    }
}

/// The action a duty-cycle request maps to: 255 engages full speed, 0
/// releases it, and anything in between becomes a target RPM interpolated
/// through the fan's range. A degenerate learned range (upper bound below
/// the lower) collapses to its lower bound.
pub open spec fn spec_set_pwm_action(
    ranges: Map<u32, FanRpmRange>,
    fan_id: u32,
    pwm: u8,
) -> SetPwmAction {
    if pwm == 255 {
        SetPwmAction::FullSpeedOn
    } else if pwm == 0 {
        SetPwmAction::FullSpeedOff
    } else {
        let (lo, hi) = spec_fan_range_or_default(ranges, fan_id);
        let hi2 = if hi < lo {
            lo
        } else {
            hi
        };
        SetPwmAction::SetRpm {
            fan_id,
            target_rpm: spec_pwm_to_rpm(lo, hi2, pwm) as u32,
        }
    }
}

/// Plan the hardware operation for a duty-cycle request against a fan id
/// string, using the learned RPM ranges.
pub fn plan_set_pwm(ranges: &RangeTable, fan_id: &str, pwm: u8) -> (r: Result<
    SetPwmAction,
    FanControlError,
>)
    ensures
        match r {
            Ok(a) => spec_parse_fan_id(fan_id@) matches Some(n) && a == spec_set_pwm_action(
                ranges@,
                n,
                pwm,
            ),
            Err(e) => spec_parse_fan_id(fan_id@) is None && e@
                == FanControlErrorModel::FanNotFound(fan_id@),
        },
{
    let numeric_id = match parse_fan_id(fan_id) {
        Ok(n) => n,
        Err(e) => {
            return Err(e);
        },
    };
    if pwm == 255 {
        Ok(SetPwmAction::FullSpeedOn)
    } else if pwm == 0 {
        Ok(SetPwmAction::FullSpeedOff)
    } else {
        let (lo, hi) = fan_rpm_range(ranges, numeric_id);
        let hi2 = if hi < lo {
            lo
        } else {
            hi
        };
        let target_rpm = pwm_to_rpm(lo, hi2, pwm);
        Ok(SetPwmAction::SetRpm { fan_id: numeric_id, target_rpm })
    }
}

// ---------------------------------------------------------------------------
// Curve writes
// ---------------------------------------------------------------------------

/// A comma-separated decimal rendering of a list of integers.
pub open spec fn spec_join_u32(vs: Seq<u32>) -> Seq<char>
    decreases vs.len(),
{
    if vs.len() == 0 {
        Seq::empty()
    } else if vs.len() == 1 {
        spec_dec_digits(vs[0] as int)
    } else {
        spec_join_u32(vs.drop_last()) + ","@ + spec_dec_digits(vs.last() as int)
    }
}

/// Join integers with commas.
pub fn join_u32_csv(vs: &Vec<u32>) -> (r: String)
    ensures
        r@ == spec_join_u32(vs@),
{
    let mut out = String::new();
    let mut i: usize = 0;
    while i < vs.len()
        invariant
            i <= vs@.len(),
            out@ == spec_join_u32(vs@.take(i as int)),
        decreases vs@.len() - i,
    {
        proof {
            assert(vs@.take(i + 1).drop_last() =~= vs@.take(i as int));
            assert(vs@.take(i + 1).last() == vs@[i as int]);
        }
        if i > 0 {
            out.append(",");
        }
        out.append(u32_to_string(vs[i]).as_str());
        i += 1;
    }
    proof {
        assert(vs@.take(vs@.len() as int) =~= vs@);
    }
    out
}

/// The speed and temperature payloads a curve write sends: the curve's
/// points as two comma-separated lists.
pub open spec fn spec_curve_write_payload(c: FanCurveModel) -> (Seq<char>, Seq<char>) {
    (
        spec_join_u32(c.points.map_values(|p: FanCurvePoint| p.fan_speed)),
        spec_join_u32(c.points.map_values(|p: FanCurvePoint| p.temperature)),
    )
}

/// Validate a curve and, when it passes, render the speed and temperature
/// payloads of its write command. A validation failure prevents the write
/// entirely and surfaces the validator's error.
pub fn prepare_curve_write(curve: &FanCurve) -> (r: Result<(String, String), FanControlError>)
    ensures
        r is Ok <==> crate::curve::spec_curve_valid(curve@),
        r matches Ok(p) ==> p.0@ == spec_curve_write_payload(curve@).0 && p.1@
            == spec_curve_write_payload(curve@).1,
        r matches Err(e) ==> crate::curve::spec_find_violation(curve@) matches Some(v) && e@
            == FanControlErrorModel::InvalidCurve(
            crate::curve::spec_violation_message(curve@, v),
        ),
{
    match crate::curve::validate_curve(curve) {
        Err(e) => Err(e),
        Ok(()) => {
            let mut speeds: Vec<u32> = Vec::new();
            let mut temps: Vec<u32> = Vec::new();
            let mut i: usize = 0;
            while i < curve.points.len()
                invariant
                    i <= curve.points@.len(),
                    speeds@ == curve.points@.take(i as int).map_values(
                        |p: FanCurvePoint| p.fan_speed,
                    ),
                    temps@ == curve.points@.take(i as int).map_values(
                        |p: FanCurvePoint| p.temperature,
                    ),
                decreases curve.points@.len() - i,
            {
                speeds.push(curve.points[i].fan_speed);
                temps.push(curve.points[i].temperature);
                proof {
                    assert(speeds@ =~= curve.points@.take(i + 1).map_values(
                        |p: FanCurvePoint| p.fan_speed,
                    ));
                    assert(temps@ =~= curve.points@.take(i + 1).map_values(
                        |p: FanCurvePoint| p.temperature,
                    ));
                }
                i += 1;
            }
            proof {
                assert(curve.points@.take(curve.points@.len() as int) =~= curve.points@);
            }
            Ok((join_u32_csv(&speeds), join_u32_csv(&temps)))
        },
    }
}

} // verus!
