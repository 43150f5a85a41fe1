//! The command surface of the tool, as plain data, and the parsing of
//! command-line curve points.
//!
//! Argument tokenization itself is the shell frontend's job; it hands the
//! library these values and receives plain values back.

use crate::errors::{FanControlError, FanControlErrorModel};
use crate::fan::FanCurvePoint;
use crate::text::{parse_u32, seq_views, spec_parse_u32, spec_split, spec_trim, split, trim};
use vstd::prelude::*;

verus! {

/// The parsed command line.
#[derive(Debug)]
pub struct Cli {
    /// Log verbosity: 0 warns, 1 informs, 2 debugs, more traces.
    pub verbose: u8,
    pub command: Commands,
}

/// What the user asked for.
#[derive(Debug)]
pub enum Commands {
    /// List all detected fans.
    List,
    /// Get the current speed of a fan.
    Get { fan_id: String },
    /// Set the PWM duty cycle of a fan (0-255).
    SetPwm { fan_id: String, pwm: u8 },
    /// Monitor all fans in real time, refreshing every `interval` seconds.
    Monitor { interval: u64 },
    /// Display embedded-controller fan curve data, optionally for one fan.
    Table { fan_id: Option<u32> },
    /// Write a custom fan curve from temperature:RPM pairs.
    SetCurve { fan_id: u32, sensor_id: u32, points: Vec<String> },
    /// Back up current fan curves to a file.
    BackupCurves { output: String },
    /// Restore fan curves from a backup file.
    RestoreCurves { input: String },
    /// Open the graphical fan control interface.
    Gui,
}

/// The log level a verbosity count selects.
#[derive(Debug, Clone, Copy, PartialEq, Eq, Structural)]
pub enum LogLevel {
    Warn,
    Info,
    Debug,
    Trace,
}

/// Map a `-v` count to a log level.
pub fn level_from_verbosity(verbosity: u8) -> (r: LogLevel)
    ensures
        r == match verbosity {
            0u8 => LogLevel::Warn,
            1u8 => LogLevel::Info,
            2u8 => LogLevel::Debug,
            _ => LogLevel::Trace,
        },
{
    match verbosity {
        0 => LogLevel::Warn,
        1 => LogLevel::Info,
        2 => LogLevel::Debug,
        _ => LogLevel::Trace,
    }
}

/// The point a `temperature:rpm` argument describes: exactly two
/// colon-separated fields, each a whitespace-tolerant decimal.
pub open spec fn spec_parse_point_arg(s: Seq<char>) -> Option<FanCurvePoint> {
    let parts = spec_split(s, ':');
    if parts.len() != 2 {
        None
    } else {
        match (spec_parse_u32(spec_trim(parts[0])), spec_parse_u32(spec_trim(parts[1]))) {
            (Some(t), Some(r)) => Some(FanCurvePoint { temperature: t, fan_speed: r }),
            _ => None,
        }
    }
}

/// Parse one `temperature:rpm` argument.
pub fn parse_point_arg(s: &str) -> (r: Option<FanCurvePoint>)
    ensures
        r == spec_parse_point_arg(s@),
{
    let parts = split(s, ':');
    if parts.len() != 2 {
        return None;
    }
    let t = parse_u32(trim(parts[0].as_str()).as_str());
    let v = parse_u32(trim(parts[1].as_str()).as_str());
    match (t, v) {
        (Some(temperature), Some(fan_speed)) => Some(FanCurvePoint { temperature, fan_speed }),
        _ => None,
    }
}

/// The points a `temperature:rpm` argument list describes, or the first
/// argument that fails to parse.
pub open spec fn spec_parse_point_args(args: Seq<Seq<char>>) -> Result<Seq<FanCurvePoint>, Seq<
    char,
>>
    decreases args.len(),
{
    if args.len() == 0 {
        Ok(Seq::empty())
    } else {
        match spec_parse_point_args(args.drop_last()) {
            Ok(points) => match spec_parse_point_arg(args.last()) {
                Some(p) => Ok(points.push(p)),
                None => Err(args.last()),
            },
            Err(bad) => Err(bad),
        }
    }
}

/// Parse a whole `temperature:rpm` argument list; a malformed argument
/// rejects the list, naming the offender in the error message.
pub fn parse_point_args(args: &Vec<String>) -> (r: Result<Vec<FanCurvePoint>, FanControlError>)
    ensures
        match r {
            Ok(points) => spec_parse_point_args(seq_views(args@)) == Ok::<_, Seq<char>>(points@),
            Err(e) => spec_parse_point_args(seq_views(args@)) matches Err(bad) && e@
                == FanControlErrorModel::InvalidCurve("invalid point '"@ + bad + "'"@),
        },
{
    let ghost av = seq_views(args@);
    let mut points: Vec<FanCurvePoint> = Vec::new();
    let mut i: usize = 0;
    while i < args.len()
        invariant
            av == seq_views(args@),
            i <= args@.len(),
            spec_parse_point_args(av.take(i as int)) == Ok::<_, Seq<char>>(points@),
        decreases args@.len() - i,
    {
        proof {
            assert(av.take(i + 1).drop_last() =~= av.take(i as int));
            assert(av.take(i + 1).last() == av[i as int]);
            assert(av[i as int] == args@[i as int]@);
        }
        match parse_point_arg(args[i].as_str()) {
            Some(p) => {
                points.push(p);
            },
            None => {
                proof {
                    lemma_point_args_err_extends(av, i as int);
                }
                return Err(
                    FanControlError::InvalidCurve(
                        String::from_str("invalid point '").concat(args[i].as_str()).concat("'"),
                    ),
                );
            },
        }
        i += 1;
    }
    proof {
        assert(av.take(args@.len() as int) =~= av);
    }
    Ok(points)
}

/// Once a prefix of the argument list fails on its last argument, the
/// whole list fails on that same argument.
proof fn lemma_point_args_err_extends(args: Seq<Seq<char>>, i: int)
    requires
        0 <= i < args.len(),
        spec_parse_point_args(args.take(i)) is Ok,
        spec_parse_point_arg(args[i]) is None,
    ensures
        spec_parse_point_args(args) == Err::<Seq<FanCurvePoint>, _>(args[i]),
{
    lemma_point_args_err_from(args, i + 1);
    assert(args.take(args.len() as int) =~= args);
}

proof fn lemma_point_args_err_from(args: Seq<Seq<char>>, j: int)
    requires
        1 <= j <= args.len(),
        spec_parse_point_args(args.take(j - 1)) is Ok,
        spec_parse_point_arg(args[j - 1]) is None,
    ensures
        spec_parse_point_args(args.take(args.len() as int)) == Err::<Seq<FanCurvePoint>, _>(
            args[j - 1],
        ),
    decreases args.len() - j,
{
    assert(args.take(j).drop_last() =~= args.take(j - 1));
    assert(args.take(j).last() == args[j - 1]);
    assert(spec_parse_point_args(args.take(j)) == Err::<Seq<FanCurvePoint>, _>(args[j - 1]));
    if j == args.len() {
        assert(args.take(j) =~= args.take(args.len() as int));
    } else {
        lemma_point_args_err_stays(args, j);
    }
}

proof fn lemma_point_args_err_stays(args: Seq<Seq<char>>, j: int)
    requires
        1 <= j <= args.len(),
        spec_parse_point_args(args.take(j)) is Err,
    ensures
        spec_parse_point_args(args.take(args.len() as int)) == spec_parse_point_args(
            args.take(j),
        ),
    decreases args.len() - j,
{
    if j == args.len() {
    } else {
        assert(args.take(j + 1).drop_last() =~= args.take(j));
        assert(spec_parse_point_args(args.take(j + 1)) == spec_parse_point_args(args.take(j)));
        lemma_point_args_err_stays(args, j + 1);
    }
}

} // verus!
