//! Fixed-width report rendering for the shell frontend: the fan listing,
//! the live monitor rows, and the embedded-controller table display.
//!
//! Everything here turns snapshots into lines of text; printing them is
//! the frontend's job.

use crate::fan::{Fan, FanCurve, FanCurveModel, FanCurvePoint, FanModel};
use crate::text::{seq_views, spec_dec_digits, string_push, u32_to_string, u64_to_string};
use vstd::prelude::*;

verus! {

/// `n` spaces; none for a nonpositive count.
pub open spec fn spec_spaces(n: int) -> Seq<char> {
    Seq::new(
        (if n < 0 {
            0
        } else {
            n
        }) as nat,
        |i: int| ' ',
    )
}

/// `s` left-aligned in a field of `width`.
pub open spec fn spec_pad_right(s: Seq<char>, width: int) -> Seq<char> {
    s + spec_spaces(width - s.len())
}

/// `s` right-aligned in a field of `width`.
pub open spec fn spec_pad_left(s: Seq<char>, width: int) -> Seq<char> {
    spec_spaces(width - s.len()) + s
}

/// Left-align `s` in a field of `width`.
pub fn pad_right(s: &str, width: usize) -> (r: String)
    ensures
        r@ == spec_pad_right(s@, width as int),
{
    let n = s.unicode_len();
    let mut out = s.to_owned();
    let mut i: usize = n;
    proof {
        assert(out@ =~= s@ + spec_spaces(0));
    }
    while i < width
        invariant
            n == s@.len(),
            n <= i,
            i <= width || i == n,
            out@ == s@ + spec_spaces(i - n),
        decreases width - i,
    {
        let ghost prev = out@;
        string_push(&mut out, ' ');
        proof {
            assert(out@ =~= s@ + spec_spaces(i + 1 - n));
        }
        i += 1;
    }
    proof {
        if width <= n {
            assert(out@ =~= spec_pad_right(s@, width as int));
        }
    }
    out
}

/// Right-align `s` in a field of `width`.
pub fn pad_left(s: &str, width: usize) -> (r: String)
    ensures
        r@ == spec_pad_left(s@, width as int),
{
    let n = s.unicode_len();
    let mut out = String::new();
    let mut i: usize = 0;
    let pad = if width > n {
        width - n
    } else {
        0
    };
    proof {
        assert(out@ =~= spec_spaces(0));
    }
    while i < pad
        invariant
            i <= pad,
            out@ == spec_spaces(i as int),
        decreases pad - i,
    {
        string_push(&mut out, ' ');
        proof {
            assert(out@ =~= spec_spaces(i + 1));
        }
        i += 1;
    }
    proof {
        assert(out@ == spec_spaces(pad as int));
        assert(spec_spaces(pad as int) =~= spec_spaces(width - n));
    }
    out.concat(s)
}

/// `n` dashes.
pub open spec fn spec_dashes(n: int) -> Seq<char> {
    Seq::new(
        (if n < 0 {
            0
        } else {
            n
        }) as nat,
        |i: int| '-',
    )
}

/// A horizontal rule of `n` dashes.
pub fn dashes(n: usize) -> (r: String)
    ensures
        r@ == spec_dashes(n as int),
{
    let mut out = String::new();
    let mut i: usize = 0;
    proof {
        assert(out@ =~= spec_dashes(0));
    }
    while i < n
        invariant
            i <= n,
            out@ == spec_dashes(i as int),
        decreases n - i,
    {
        string_push(&mut out, '-');
        proof {
            assert(out@ =~= spec_dashes(i + 1));
        }
        i += 1;
    }
    out
}

// ---------------------------------------------------------------------------
// Fan listing
// ---------------------------------------------------------------------------

/// A duty rendered for display: its decimal digits, or an em dash when
/// the backend reports none.
pub open spec fn spec_pwm_display(pwm: Option<u8>) -> Seq<char> {
    match pwm {
        Some(p) => spec_dec_digits(p as int),
        None => "\u{2014}"@,
    }
}

/// Render a duty for display.
pub fn pwm_display(pwm: Option<u8>) -> (r: String)
    ensures
        r@ == spec_pwm_display(pwm),
{
    match pwm {
        Some(p) => u32_to_string(p as u32),
        None => String::from_str("\u{2014}"),
    }
}

/// The control tag of a fan.
pub open spec fn spec_status_tag(controllable: bool) -> Seq<char> {
    if controllable {
        "controllable"@
    } else {
        "read-only"@
    }
}

/// One row of the fan listing: id, label, RPM, duty and control status in
/// fixed-width columns.
pub open spec fn spec_fan_row(f: FanModel) -> Seq<char> {
    spec_pad_right(f.id, 25) + " "@ + spec_pad_right(f.label, 20) + " "@ + spec_pad_left(
        spec_dec_digits(f.speed_rpm as int),
        8,
    ) + " "@ + spec_pad_left(spec_pwm_display(f.pwm), 6) + " "@ + spec_status_tag(f.controllable)
}

/// Render one row of the fan listing.
pub fn fan_row(fan: &Fan) -> (r: String)
    ensures
        r@ == spec_fan_row(fan@),
{
    let status = if fan.controllable {
        "controllable"
    } else {
        "read-only"
    };
    pad_right(fan.id.as_str(), 25).concat(" ").concat(
        pad_right(fan.label.as_str(), 20).as_str(),
    ).concat(" ").concat(pad_left(u32_to_string(fan.speed_rpm).as_str(), 8).as_str()).concat(
        " ",
    ).concat(pad_left(pwm_display(fan.pwm).as_str(), 6).as_str()).concat(" ").concat(status)
}

impl Fan {
    /// A one-line description of the fan: its label, speed and control
    /// status.
    pub fn summary(&self) -> (r: String)
        ensures
            r@ == self@.label + ": "@ + spec_dec_digits(self@.speed_rpm as int) + " RPM ["@
                + spec_status_tag(self@.controllable) + "]"@,
    {
        let status = if self.controllable {
            "controllable"
        } else {
            "read-only"
        };
        self.label.clone().concat(": ").concat(u32_to_string(self.speed_rpm).as_str()).concat(
            " RPM [",
        ).concat(status).concat("]")
    }
}

/// Whether any fan reports the global full-speed override engaged.
pub open spec fn spec_any_full_speed(fans: Seq<FanModel>) -> bool {
    exists|i: int| 0 <= i < fans.len() && fans[i].full_speed_active
}

/// Check whether any fan reports the full-speed override engaged.
pub fn any_full_speed(fans: &Vec<Fan>) -> (r: bool)
    ensures
        r == spec_any_full_speed(fans@.map_values(|f: Fan| f@)),
{
    let ghost fv = fans@.map_values(|f: Fan| f@);
    let mut i: usize = 0;
    while i < fans.len()
        invariant
            fv == fans@.map_values(|f: Fan| f@),
            i <= fans@.len(),
            forall|j: int| 0 <= j < i ==> !fv[j].full_speed_active,
        decreases fans@.len() - i,
    {
        if fans[i].full_speed_active {
            proof {
                assert(fv[i as int].full_speed_active);
            }
            return true;
        }
        i += 1;
    }
    false
}

/// The banner shown while the full-speed override is engaged.
pub open spec fn spec_full_speed_banner() -> Seq<Seq<char>> {
    seq!["** FULL SPEED MODE ACTIVE **"@, Seq::<char>::empty()]
}

/// The header row of the fan listing.
pub open spec fn spec_list_header() -> Seq<char> {
    spec_pad_right("ID"@, 25) + " "@ + spec_pad_right("LABEL"@, 20) + " "@ + spec_pad_left(
        "RPM"@,
        8,
    ) + " "@ + spec_pad_left("PWM"@, 6) + " STATUS"@
}

/// The lines of the fan listing: a notice when nothing was found, else an
/// optional full-speed banner, the header, a rule, and one row per fan.
pub open spec fn spec_list_lines(fans: Seq<FanModel>) -> Seq<Seq<char>> {
    if fans.len() == 0 {
        seq!["No fans detected."@]
    } else {
        (if spec_any_full_speed(fans) {
            spec_full_speed_banner()
        } else {
            Seq::empty()
        }) + seq![spec_list_header(), spec_dashes(70)] + fans.map_values(|f: FanModel| spec_fan_row(f))
    }
}

/// Render the fan listing.
pub fn list_lines(fans: &Vec<Fan>) -> (r: Vec<String>)
    ensures
        seq_views(r@) == spec_list_lines(fans@.map_values(|f: Fan| f@)),
{
    let ghost fv = fans@.map_values(|f: Fan| f@);
    let mut out: Vec<String> = Vec::new();
    if fans.len() == 0 {
        out.push(String::from_str("No fans detected."));
        proof {
            assert(seq_views(out@) =~= spec_list_lines(fv));
        }
        return out;
    }
    if any_full_speed(fans) {
        out.push(String::from_str("** FULL SPEED MODE ACTIVE **"));
        out.push(String::new());
    }
    out.push(
        pad_right("ID", 25).concat(" ").concat(pad_right("LABEL", 20).as_str()).concat(
            " ",
        ).concat(pad_left("RPM", 8).as_str()).concat(" ").concat(
            pad_left("PWM", 6).as_str(),
        ).concat(" STATUS"),
    );
    out.push(dashes(70));
    let ghost head = seq_views(out@);
    let mut i: usize = 0;
    while i < fans.len()
        invariant
            fv == fans@.map_values(|f: Fan| f@),
            i <= fans@.len(),
            head == seq_views(out@).take(head.len() as int),
            seq_views(out@) == head + fv.take(i as int).map_values(
                |f: FanModel| spec_fan_row(f),
            ),
        decreases fans@.len() - i,
    {
        proof {
            assert(fv[i as int] == fans@[i as int]@);
        }
        let ghost prev = seq_views(out@);
        out.push(fan_row(&fans[i]));
        proof {
            assert(seq_views(out@) =~= prev.push(out@.last()@));
            assert(fv.take(i + 1).map_values(|f: FanModel| spec_fan_row(f)) =~= fv.take(
                i as int,
            ).map_values(|f: FanModel| spec_fan_row(f)).push(spec_fan_row(fv[i as int])));
            assert(seq_views(out@) =~= head + fv.take(i + 1).map_values(
                |f: FanModel| spec_fan_row(f),
            ));
            assert(head =~= seq_views(out@).take(head.len() as int));
        }
        i += 1;
    }
    proof {
        assert(fv.take(fans@.len() as int) =~= fv);
        assert(seq_views(out@) =~= spec_list_lines(fv));
    }
    out
}

// ---------------------------------------------------------------------------
// Live monitor
// ---------------------------------------------------------------------------

/// The monitor's title line, naming the refresh interval.
pub open spec fn spec_monitor_title(interval: int) -> Seq<char> {
    "Fan Monitor (every "@ + spec_dec_digits(interval) + "s) \u{2014} Ctrl+C to stop"@
}

/// Render the monitor's title line.
pub fn monitor_title(interval: u64) -> (r: String)
    ensures
        r@ == spec_monitor_title(interval as int),
{
    String::from_str("Fan Monitor (every ").concat(u64_to_string(interval).as_str()).concat(
        "s) \u{2014} Ctrl+C to stop",
    )
}

/// One row of the monitor: label, RPM and duty in fixed-width columns.
pub open spec fn spec_monitor_row(f: FanModel) -> Seq<char> {
    spec_pad_right(f.label, 25) + " "@ + spec_pad_left(spec_dec_digits(f.speed_rpm as int), 8)
        + " "@ + spec_pad_left(spec_pwm_display(f.pwm), 6)
}

/// Render one monitor row.
pub fn monitor_row(fan: &Fan) -> (r: String)
    ensures
        r@ == spec_monitor_row(fan@),
{
    pad_right(fan.label.as_str(), 25).concat(" ").concat(
        pad_left(u32_to_string(fan.speed_rpm).as_str(), 8).as_str(),
    ).concat(" ").concat(pad_left(pwm_display(fan.pwm).as_str(), 6).as_str())
}

/// The lines of one monitor refresh: a notice when nothing was found,
/// else an optional full-speed banner, a header, a rule, and one row per
/// fan.
pub open spec fn spec_monitor_lines(fans: Seq<FanModel>) -> Seq<Seq<char>> {
    if fans.len() == 0 {
        seq!["No fans detected."@]
    } else {
        (if spec_any_full_speed(fans) {
            spec_full_speed_banner()
        } else {
            Seq::empty()
        }) + seq![
            spec_pad_right("FAN"@, 25) + " "@ + spec_pad_left("RPM"@, 8) + " "@ + spec_pad_left(
                "PWM"@,
                6,
            ),
            spec_dashes(45),
        ] + fans.map_values(|f: FanModel| spec_monitor_row(f))
    }
}

/// Render one monitor refresh.
pub fn monitor_lines(fans: &Vec<Fan>) -> (r: Vec<String>)
    ensures
        seq_views(r@) == spec_monitor_lines(fans@.map_values(|f: Fan| f@)),
{
    let ghost fv = fans@.map_values(|f: Fan| f@);
    let mut out: Vec<String> = Vec::new();
    if fans.len() == 0 {
        out.push(String::from_str("No fans detected."));
        proof {
            assert(seq_views(out@) =~= spec_monitor_lines(fv));
        }
        return out;
    }
    if any_full_speed(fans) {
        out.push(String::from_str("** FULL SPEED MODE ACTIVE **"));
        out.push(String::new());
    }
    out.push(
        pad_right("FAN", 25).concat(" ").concat(pad_left("RPM", 8).as_str()).concat(" ").concat(
            pad_left("PWM", 6).as_str(),
        ),
    );
    out.push(dashes(45));
    let ghost head = seq_views(out@);
    let mut i: usize = 0;
    while i < fans.len()
        invariant
            fv == fans@.map_values(|f: Fan| f@),
            i <= fans@.len(),
            head == seq_views(out@).take(head.len() as int),
            seq_views(out@) == head + fv.take(i as int).map_values(
                |f: FanModel| spec_monitor_row(f),
            ),
        decreases fans@.len() - i,
    {
        proof {
            assert(fv[i as int] == fans@[i as int]@);
        }
        let ghost prev = seq_views(out@);
        out.push(monitor_row(&fans[i]));
        proof {
            assert(seq_views(out@) =~= prev.push(out@.last()@));
            assert(fv.take(i + 1).map_values(|f: FanModel| spec_monitor_row(f)) =~= fv.take(
                i as int,
            ).map_values(|f: FanModel| spec_monitor_row(f)).push(spec_monitor_row(fv[i as int])));
            assert(seq_views(out@) =~= head + fv.take(i + 1).map_values(
                |f: FanModel| spec_monitor_row(f),
            ));
            assert(head =~= seq_views(out@).take(head.len() as int));
        }
        i += 1;
    }
    proof {
        assert(fv.take(fans@.len() as int) =~= fv);
        assert(seq_views(out@) =~= spec_monitor_lines(fv));
    }
    out
}

// ---------------------------------------------------------------------------
// Curve table display
// ---------------------------------------------------------------------------

/// Whether any fan carries embedded curve data.
pub open spec fn spec_has_embedded_curves(fans: Seq<FanModel>) -> bool {
    exists|i: int| 0 <= i < fans.len() && fans[i].curves.len() > 0
}

/// Check whether any fan carries embedded curve data; when none does, the
/// caller falls back to the dedicated curve query.
pub fn has_embedded_curves(fans: &Vec<Fan>) -> (r: bool)
    ensures
        r == spec_has_embedded_curves(fans@.map_values(|f: Fan| f@)),
{
    let ghost fv = fans@.map_values(|f: Fan| f@);
    let mut i: usize = 0;
    while i < fans.len()
        invariant
            fv == fans@.map_values(|f: Fan| f@),
            i <= fans@.len(),
            forall|j: int| 0 <= j < i ==> #[trigger] fv[j].curves.len() == 0,
        decreases fans@.len() - i,
    {
        if fans[i].curves.len() > 0 {
            proof {
                assert(fv[i as int].curves.len() > 0);
            }
            return true;
        }
        i += 1;
    }
    false
}

/// All curves embedded in the fans, in fan order.
pub open spec fn spec_flatten_curves(fans: Seq<FanModel>) -> Seq<FanCurveModel>
    decreases fans.len(),
{
    if fans.len() == 0 {
        Seq::empty()
    } else {
        spec_flatten_curves(fans.drop_last()) + fans.last().curves
    }
}

/// Collect all curves embedded in the fans, in fan order.
pub fn flatten_curves(fans: Vec<Fan>) -> (r: Vec<FanCurve>)
    ensures
        r@.map_values(|c: FanCurve| c@) == spec_flatten_curves(fans@.map_values(|f: Fan| f@)),
{
    let ghost fv = fans@.map_values(|f: Fan| f@);
    let mut out: Vec<FanCurve> = Vec::new();
    let mut i: usize = 0;
    while i < fans.len()
        invariant
            fv == fans@.map_values(|f: Fan| f@),
            i <= fans@.len(),
            out@.map_values(|c: FanCurve| c@) == spec_flatten_curves(fv.take(i as int)),
        decreases fans@.len() - i,
    {
        proof {
            assert(fv.take(i + 1).drop_last() =~= fv.take(i as int));
            assert(fv.take(i + 1).last() == fv[i as int]);
            assert(fv[i as int] == fans@[i as int]@);
        }
        let mut j: usize = 0;
        while j < fans[i].curves.len()
            invariant
                fv == fans@.map_values(|f: Fan| f@),
                i < fans@.len(),
                fv[i as int] == fans@[i as int]@,
                j <= fans@[i as int].curves@.len(),
                out@.map_values(|c: FanCurve| c@) == spec_flatten_curves(fv.take(i as int))
                    + fv[i as int].curves.take(j as int),
            decreases fans@[i as int].curves@.len() - j,
        {
            let ghost prev = out@.map_values(|c: FanCurve| c@);
            out.push(crate::worker::copy_curve(&fans[i].curves[j]));
            proof {
                assert(out@.map_values(|c: FanCurve| c@) =~= prev.push(out@.last()@));
                assert(fv[i as int].curves[j as int] == fans@[i as int].curves@[j as int]@);
                assert(fv[i as int].curves.take(j + 1) =~= fv[i as int].curves.take(
                    j as int,
                ).push(fv[i as int].curves[j as int]));
                assert(out@.map_values(|c: FanCurve| c@) =~= spec_flatten_curves(
                    fv.take(i as int),
                ) + fv[i as int].curves.take(j + 1));
            }
            j += 1;
        }
        proof {
            assert(fv[i as int].curves.take(fv[i as int].curves.len() as int) =~= fv[
                i as int].curves);
        }
        i += 1;
    }
    proof {
        assert(fv.take(fans@.len() as int) =~= fv);
    }
    out
}

/// The curves kept by an optional fan-id filter.
pub open spec fn spec_filter_curves(curves: Seq<FanCurveModel>, filter: Option<u32>) -> Seq<
    FanCurveModel,
>
    decreases curves.len(),
{
    match filter {
        None => curves,
        Some(fid) => if curves.len() == 0 {
            Seq::empty()
        } else {
            let rest = spec_filter_curves(curves.drop_last(), filter);
            if curves.last().fan_id == fid {
                rest.push(curves.last())
            } else {
                rest
            }
        },
    }
}

/// Keep only the curves of one fan, when a filter is given.
pub fn filter_curves(curves: Vec<FanCurve>, filter: Option<u32>) -> (r: Vec<FanCurve>)
    ensures
        r@.map_values(|c: FanCurve| c@) == spec_filter_curves(
            curves@.map_values(|c: FanCurve| c@),
            filter,
        ),
{
    let fid = match filter {
        None => {
            return curves;
        },
        Some(fid) => fid,
    };
    let ghost cv = curves@.map_values(|c: FanCurve| c@);
    let mut out: Vec<FanCurve> = Vec::new();
    let mut i: usize = 0;
    while i < curves.len()
        invariant
            cv == curves@.map_values(|c: FanCurve| c@),
            i <= curves@.len(),
            out@.map_values(|c: FanCurve| c@) == spec_filter_curves(
                cv.take(i as int),
                Some(fid),
            ),
        decreases curves@.len() - i,
    {
        proof {
            assert(cv.take(i + 1).drop_last() =~= cv.take(i as int));
            assert(cv.take(i + 1).last() == cv[i as int]);
            assert(cv[i as int] == curves@[i as int]@);
        }
        if curves[i].fan_id == fid {
            let ghost prev = out@.map_values(|c: FanCurve| c@);
            out.push(crate::worker::copy_curve(&curves[i]));
            proof {
                assert(out@.map_values(|c: FanCurve| c@) =~= prev.push(out@.last()@));
            }
        }
        i += 1;
    }
    proof {
        assert(cv.take(curves@.len() as int) =~= cv);
    }
    out
}

/// The display label of a curve's fan.
pub open spec fn spec_curve_fan_label(fan_id: u32) -> Seq<char> {
    if fan_id == 0 {
        "CPU Fan"@
    } else if fan_id == 1 {
        "GPU Fan"@
    } else {
        "Fan"@
    }
}

/// One displayed point of a curve, with a leading alignment space for
/// temperatures under 100 degrees.
pub open spec fn spec_point_line(p: FanCurvePoint) -> Seq<char> {
    "  "@ + (if p.temperature < 100 {
        " "@
    } else {
        Seq::<char>::empty()
    }) + spec_dec_digits(p.temperature as int) + "\u{00B0}C \u{2192} "@ + spec_dec_digits(
        p.fan_speed as int,
    ) + " RPM"@
}

/// The lines displaying one curve: its heading, its bounds, its points,
/// and a blank separator.
pub open spec fn spec_curve_lines(c: FanCurveModel) -> Seq<Seq<char>> {
    seq![
        "Fan "@ + spec_dec_digits(c.fan_id as int) + " ("@ + spec_curve_fan_label(c.fan_id)
            + ") \u{2014} Sensor "@ + spec_dec_digits(c.sensor_id as int) + " ["@ + (
        if c.active {
            "Active"@
        } else {
            "Inactive"@
        }) + "]"@,
        "  Speed: "@ + spec_dec_digits(c.min_speed as int) + "\u{2013}"@ + spec_dec_digits(
            c.max_speed as int,
        ) + " RPM | Temp: "@ + spec_dec_digits(c.min_temp as int) + "\u{2013}"@ + spec_dec_digits(
            c.max_temp as int,
        ) + "\u{00B0}C"@,
    ] + c.points.map_values(|p: FanCurvePoint| spec_point_line(p)) + seq![Seq::<char>::empty()]
}

/// Render the display of one curve.
pub fn curve_lines(curve: &FanCurve) -> (r: Vec<String>)
    ensures
        seq_views(r@) == spec_curve_lines(curve@),
{
    let mut out: Vec<String> = Vec::new();
    let label = if curve.fan_id == 0 {
        "CPU Fan"
    } else if curve.fan_id == 1 {
        "GPU Fan"
    } else {
        "Fan"
    };
    let tag = if curve.active {
        "Active"
    } else {
        "Inactive"
    };
    out.push(
        String::from_str("Fan ").concat(u32_to_string(curve.fan_id).as_str()).concat(" (").concat(
            label,
        ).concat(") \u{2014} Sensor ").concat(u32_to_string(curve.sensor_id).as_str()).concat(
            " [",
        ).concat(tag).concat("]"),
    );
    out.push(
        String::from_str("  Speed: ").concat(u32_to_string(curve.min_speed).as_str()).concat(
            "\u{2013}",
        ).concat(u32_to_string(curve.max_speed).as_str()).concat(" RPM | Temp: ").concat(
            u32_to_string(curve.min_temp).as_str(),
        ).concat("\u{2013}").concat(u32_to_string(curve.max_temp).as_str()).concat("\u{00B0}C"),
    );
    let ghost head = seq_views(out@);
    let mut i: usize = 0;
    while i < curve.points.len()
        invariant
            i <= curve.points@.len(),
            head == seq_views(out@).take(head.len() as int),
            seq_views(out@) == head + curve.points@.take(i as int).map_values(
                |p: FanCurvePoint| spec_point_line(p),
            ),
        decreases curve.points@.len() - i,
    {
        let p = curve.points[i];
        let space = if p.temperature < 100 {
            " "
        } else {
            ""
        };
        let ghost prev = seq_views(out@);
        out.push(
            String::from_str("  ").concat(space).concat(
                u32_to_string(p.temperature).as_str(),
            ).concat("\u{00B0}C \u{2192} ").concat(u32_to_string(p.fan_speed).as_str()).concat(
                " RPM",
            ),
        );
        proof {
            reveal_strlit("");
            assert(seq_views(out@) =~= prev.push(out@.last()@));
            assert(curve.points@.take(i + 1).map_values(|p: FanCurvePoint| spec_point_line(p))
                =~= curve.points@.take(i as int).map_values(
                |p: FanCurvePoint| spec_point_line(p),
            ).push(spec_point_line(curve.points@[i as int])));
            assert(out@.last()@ =~= spec_point_line(curve.points@[i as int]));
            assert(seq_views(out@) =~= head + curve.points@.take(i + 1).map_values(
                |p: FanCurvePoint| spec_point_line(p),
            ));
            assert(head =~= seq_views(out@).take(head.len() as int));
        }
        i += 1;
    }
    let ghost before_blank = seq_views(out@);
    out.push(String::new());
    proof {
        assert(seq_views(out@) =~= before_blank.push(out@.last()@));
        assert(curve.points@.take(curve.points@.len() as int) =~= curve.points@);
        assert(seq_views(out@) =~= spec_curve_lines(curve@));
    }
    out
}

} // verus!
