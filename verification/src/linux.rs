//! The computational half of the sysfs/hwmon backend: fan-id resolution,
//! sysfs file-name composition, label fallbacks and snapshot assembly.
//!
//! The backend's directory layout is fixed: per-chip directories each
//! holding numbered `fan{N}_input`, optional `fan{N}_label`, and optional
//! `pwm{N}` / `pwm{N}_enable` entries. Reading and writing those files is
//! I/O and happens outside the library; everything here turns plain values
//! already read into decisions and snapshots.

use crate::errors::{FanControlError, FanControlErrorModel};
use crate::fan::{Fan, FanModel};
use crate::text::{
    ends_with, is_prefixed, is_suffixed, seq_views, spec_split, spec_trim, split, starts_with,
    trim,
};
use vstd::prelude::*;

verus! {

/// The default sysfs root under which hwmon chips appear.
pub open spec fn spec_default_hwmon_base() -> Seq<char> {
    "/sys/class/hwmon"@
}

/// Why a sysfs operation failed, as plain data: the file-system error kind
/// the backend observed.
#[derive(Debug, Clone, Copy, PartialEq, Eq, Structural)]
pub enum IoErrorKind {
    /// The file or directory does not exist.
    NotFound,
    /// The OS denied access.
    PermissionDenied,
    /// Any other I/O failure.
    Other,
}

/// Map an observed I/O failure to the shared error taxonomy: an access
/// denial becomes `PermissionDenied` naming the path, anything else a
/// generic I/O error carrying the underlying description.
pub fn map_io_error(kind: IoErrorKind, description: String, path: String) -> (r: FanControlError)
    ensures
        r@ == match kind {
            IoErrorKind::PermissionDenied => FanControlErrorModel::PermissionDenied(
                path@ + ": "@ + description@,
            ),
            _ => FanControlErrorModel::Io(description@),
        },
{
    match kind {
        IoErrorKind::PermissionDenied => FanControlError::PermissionDenied(
            path.concat(": ").concat(description.as_str()),
        ),
        _ => FanControlError::Io(description),
    }
}

/// Fan controller backed by sysfs/hwmon.
///
/// Discovers fans by scanning `fan{N}_input` entries under the hwmon base
/// directory and exposes RPM reading and PWM-based control through the
/// file names this type composes.
#[derive(Debug, Clone)]
pub struct LinuxFanController {
    hwmon_base: String,
}

impl LinuxFanController {
    /// The base directory this controller scans.
    pub closed spec fn base(&self) -> Seq<char> {
        self.hwmon_base@
    }

    /// Create a controller that reads from the default sysfs path.
    pub fn new() -> (r: Self)
        ensures
            r.base() == spec_default_hwmon_base(),
    {
        LinuxFanController { hwmon_base: String::from_str("/sys/class/hwmon") }
    }

    /// Create a controller rooted at a custom path.
    pub fn with_base(hwmon_base: String) -> (r: Self)
        ensures
            r.base() == hwmon_base@,
    {
        LinuxFanController { hwmon_base }
    }

    /// Read back the base directory.
    pub fn base_dir(&self) -> (r: String)
        ensures
            r@ == self.base(),
    {
        self.hwmon_base.clone()
    }

    /// Resolve a fan id of the form `hwmon{N}/fan{M}` into the hwmon
    /// directory path and the fan index string `M`. Whether the fan's
    /// input file actually exists is for the caller to check.
    pub fn resolve_fan_paths(&self, fan_id: &str) -> (r: Result<(String, String), FanControlError>)
        ensures
            match r {
                Ok(p) => spec_resolve_fan_paths(self.base(), fan_id@) == Some((p.0@, p.1@)),
                Err(e) => spec_resolve_fan_paths(self.base(), fan_id@) is None && e@
                    == FanControlErrorModel::FanNotFound(fan_id@),
            },
    {
        let parts = split(fan_id, '/');
        if parts.len() != 2 {
            return Err(FanControlError::FanNotFound(fan_id.to_owned()));
        }
        if !starts_with(parts[1].as_str(), "fan") {
            return Err(FanControlError::FanNotFound(fan_id.to_owned()));
        }
        let hwmon_dir = self.hwmon_base.clone().concat("/").concat(parts[0].as_str());
        let n = parts[1].as_str().unicode_len();
        proof {
            reveal_strlit("fan");
        }
        let fan_index = parts[1].as_str().substring_char(3, n).to_owned();
        proof {
            assert(seq_views(parts@)[1].skip("fan"@.len() as int) == fan_index@);
        }
        Ok((hwmon_dir, fan_index))
    }
}

/// The resolution a well-formed fan id gets: the id must be exactly two
/// `/`-separated parts, the second starting with `fan`; the result is the
/// hwmon directory path and the fan index string.
pub open spec fn spec_resolve_fan_paths(base: Seq<char>, fan_id: Seq<char>) -> Option<
    (Seq<char>, Seq<char>),
> {
    let parts = spec_split(fan_id, '/');
    if parts.len() != 2 {
        None
    } else if !is_prefixed(parts[1], "fan"@) {
        None
    } else {
        Some((base + "/"@ + parts[0], parts[1].skip("fan"@.len() as int)))
    }
}

// ---------------------------------------------------------------------------
// Sysfs file names
// ---------------------------------------------------------------------------

/// The `fan{N}_input` file name for a fan index.
pub fn fan_input_file(fan_index: &str) -> (r: String)
    ensures
        r@ == "fan"@ + fan_index@ + "_input"@,
{
    String::from_str("fan").concat(fan_index).concat("_input")
}

/// The `fan{N}_label` file name for a fan index.
pub fn fan_label_file(fan_index: &str) -> (r: String)
    ensures
        r@ == "fan"@ + fan_index@ + "_label"@,
{
    String::from_str("fan").concat(fan_index).concat("_label")
}

/// The `pwm{N}` file name for a fan index.
pub fn pwm_file(fan_index: &str) -> (r: String)
    ensures
        r@ == "pwm"@ + fan_index@,
{
    String::from_str("pwm").concat(fan_index)
}

/// The `pwm{N}_enable` file name for a fan index.
pub fn pwm_enable_file(fan_index: &str) -> (r: String)
    ensures
        r@ == "pwm"@ + fan_index@ + "_enable"@,
{
    String::from_str("pwm").concat(fan_index).concat("_enable")
}

/// Join a directory path and a file name with `/`.
pub fn join_path(dir: &str, file: &str) -> (r: String)
    ensures
        r@ == dir@ + "/"@ + file@,
{
    String::from_str(dir).concat("/").concat(file)
}

// ---------------------------------------------------------------------------
// Discovery
// ---------------------------------------------------------------------------

/// Whether a directory entry is a `fan{N}_input` file.
pub open spec fn is_fan_input_name(n: Seq<char>) -> bool {
    is_prefixed(n, "fan"@) && is_suffixed(n, "_input"@)
}

/// The fan index strings of the `fan{N}_input` entries among `names`, in
/// order.
pub open spec fn spec_fan_indices(names: Seq<Seq<char>>) -> Seq<Seq<char>>
    decreases names.len(),
{
    if names.len() == 0 {
        Seq::empty()
    } else {
        let rest = spec_fan_indices(names.drop_last());
        let n = names.last();
        if is_fan_input_name(n) {
            rest.push(n.subrange("fan"@.len() as int, n.len() - "_input"@.len()))
        } else {
            rest
        }
    }
}

/// Extract the fan index of every `fan{N}_input` entry, keeping order.
pub fn fan_input_indices(names: &Vec<String>) -> (r: Vec<String>)
    ensures
        seq_views(r@) == spec_fan_indices(seq_views(names@)),
{
    let ghost nv = seq_views(names@);
    let mut out: Vec<String> = Vec::new();
    let mut i: usize = 0;
    while i < names.len()
        invariant
            nv == seq_views(names@),
            i <= names@.len(),
            seq_views(out@) == spec_fan_indices(nv.take(i as int)),
        decreases names@.len() - i,
    {
        proof {
            assert(nv.take(i + 1).drop_last() =~= nv.take(i as int));
            assert(nv.take(i + 1).last() == nv[i as int]);
            assert(nv[i as int] == names@[i as int]@);
        }
        let name = names[i].as_str();
        if starts_with(name, "fan") && ends_with(name, "_input") {
            let n = name.unicode_len();
            proof {
                reveal_strlit("fan");
                reveal_strlit("_input");
                // The prefix and suffix cannot overlap: their characters
                // conflict, so the name has at least nine characters.
                if n < 9 {
                    assert(name@.take("fan"@.len() as int)[n - 6] == name@[n - 6]);
                    assert(name@.skip(n - 6)[0] == name@[n - 6]);
                    assert(false);
                }
            }
            let index = name.substring_char(3, n - 6).to_owned();
            let ghost prev = seq_views(out@);
            out.push(index);
            proof {
                assert(seq_views(out@) =~= prev.push(out@.last()@));
            }
        }
        i += 1;
    }
    proof {
        assert(nv.take(names@.len() as int) =~= nv);
    }
    out
}

/// What the backend read for one fan before assembling its snapshot: the
/// raw file contents and file states, as plain values.
#[derive(Debug, Clone)]
pub struct RawFanReading {
    /// The index string `N` from the `fan{N}_input` entry.
    pub fan_index: String,
    /// The contents of `fan{N}_label`, when the file was readable.
    pub label_content: Option<String>,
    /// The RPM parsed from `fan{N}_input`, when it parsed.
    pub speed_rpm: Option<u32>,
    /// Whether `pwm{N}` exists.
    pub pwm_exists: bool,
    /// Whether `pwm{N}` is writable.
    pub pwm_writable: bool,
    /// The value parsed from `pwm{N}`, when it parsed.
    pub pwm_raw: Option<u32>,
}

/// The label a fan gets: its trimmed `fan{N}_label` contents, or
/// `Fan {N}` when the file is missing or blank.
pub open spec fn spec_fan_label(content: Option<Seq<char>>, fan_index: Seq<char>) -> Seq<char> {
    match content {
        Some(c) => if spec_trim(c).len() == 0 {
            "Fan "@ + fan_index
        } else {
            spec_trim(c)
        },
        None => "Fan "@ + fan_index,
    }
}

/// The control state a fan gets from its `pwm{N}` file: not controllable
/// without the file; otherwise controllable exactly when the file is
/// writable, with the current duty truncated to eight bits as the driver
/// reports it.
pub open spec fn spec_pwm_state(
    pwm_exists: bool,
    pwm_writable: bool,
    pwm_raw: Option<u32>,
) -> (bool, Option<u8>) {
    if !pwm_exists {
        (false, None)
    } else {
        (
            pwm_writable,
            match pwm_raw {
                Some(v) => Some(v as u8),
                None => None,
            },
        )
    }
}

/// The snapshot one raw reading assembles into.
pub open spec fn spec_hwmon_fan(hwmon_name: Seq<char>, reading: RawFanReading) -> FanModel {
    let content = match reading.label_content {
        Some(c) => Some(c@),
        None => None,
    };
    let state = spec_pwm_state(reading.pwm_exists, reading.pwm_writable, reading.pwm_raw);
    FanModel {
        id: hwmon_name + "/fan"@ + reading.fan_index@,
        label: spec_fan_label(content, reading.fan_index@),
        speed_rpm: match reading.speed_rpm {
            Some(v) => v,
            None => 0,
        },
        pwm: state.1,
        controllable: state.0,
        min_rpm: None,
        max_rpm: None,
        curves: Seq::empty(),
        full_speed_active: false,
    }
}

/// Assemble the snapshot of one discovered fan from the values read for
/// it. Sysfs reports no RPM range and no curves; an unreadable speed
/// reads as 0.
pub fn hwmon_fan(hwmon_name: &str, reading: RawFanReading) -> (r: Fan)
    ensures
        r@ == spec_hwmon_fan(hwmon_name@, reading),
{
    let label = match &reading.label_content {
        Some(c) => {
            let t = trim(c.as_str());
            if t.as_str().unicode_len() == 0 {
                String::from_str("Fan ").concat(reading.fan_index.as_str())
            } else {
                t
            }
        },
        None => String::from_str("Fan ").concat(reading.fan_index.as_str()),
    };
    let (controllable, pwm) = if !reading.pwm_exists {
        (false, None)
    } else {
        (
            reading.pwm_writable,
            match reading.pwm_raw {
                Some(v) => Some(#[verifier::truncate] (v as u8)),
                None => None,
            },
        )
    };
    let id = String::from_str(hwmon_name).concat("/fan").concat(reading.fan_index.as_str());
    let fan = Fan {
        id,
        label,
        speed_rpm: match reading.speed_rpm {
            Some(v) => v,
            None => 0,
        },
        pwm,
        controllable,
        min_rpm: None,
        max_rpm: None,
        curves: Vec::new(),
        full_speed_active: false,
    };
    proof {
        assert(fan.curves@.map_values(|c: crate::fan::FanCurve| c@) =~= Seq::<
            crate::fan::FanCurveModel,
        >::empty());
    }
    fan
}

/// Interpret the contents a sysfs value file was read to hold: trimmed
/// and parsed as a decimal, with a platform error naming the offending
/// content and path when it does not parse.
pub fn parse_sysfs_value(content: &str, path: &str) -> (r: Result<u32, FanControlError>)
    ensures
        match r {
            Ok(v) => crate::text::spec_parse_u32(spec_trim(content@)) == Some(v),
            Err(e) => crate::text::spec_parse_u32(spec_trim(content@)) is None && e@
                == FanControlErrorModel::Platform(
                "failed to parse '"@ + spec_trim(content@) + "' from "@ + path@,
            ),
        },
{
    let trimmed = trim(content);
    match crate::text::parse_u32(trimmed.as_str()) {
        Some(v) => Ok(v),
        None => Err(
            FanControlError::Platform(
                String::from_str("failed to parse '").concat(trimmed.as_str()).concat(
                    "' from ",
                ).concat(path),
            ),
        ),
    }
}

// ---------------------------------------------------------------------------
// PWM write errors
// ---------------------------------------------------------------------------

/// The error reported when switching a fan to manual PWM mode is denied.
pub fn pwm_enable_denied_error(fan_id: &str) -> (r: FanControlError)
    ensures
        r@ == FanControlErrorModel::PermissionDenied(
            "cannot enable manual PWM control for '"@ + fan_id@
                + "': run as root or adjust permissions"@,
        ),
{
    FanControlError::PermissionDenied(
        String::from_str("cannot enable manual PWM control for '").concat(fan_id).concat(
            "': run as root or adjust permissions",
        ),
    )
}

/// The error reported when writing the PWM duty value is denied.
pub fn pwm_write_denied_error(fan_id: &str) -> (r: FanControlError)
    ensures
        r@ == FanControlErrorModel::PermissionDenied(
            "cannot write PWM value for '"@ + fan_id@ + "': run as root or adjust permissions"@,
        ),
{
    FanControlError::PermissionDenied(
        String::from_str("cannot write PWM value for '").concat(fan_id).concat(
            "': run as root or adjust permissions",
        ),
    )
}

} // verus!
