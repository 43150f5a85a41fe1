//! The decision core of the concurrent control loop.
//!
//! One dedicated worker owns the live controller; the interactive frontend
//! talks to it over two message queues. The loop's only state is the
//! held-PWM map: the last user-commanded duty per fan, re-applied before
//! every poll so firmware auto-overrides do not stick. A duty of 0 means
//! "return control to firmware" and leaves the map, so the map is exactly
//! the set of fans under manual override.
//!
//! The blocking, the queues and the hardware calls happen outside the
//! library; every decision — how a command outcome changes the held state
//! and which response it produces — is made here.

use crate::errors::{spec_error_message, FanControlError};
use crate::fan::{Fan, FanCurve, FanCurveModel, FanCurvePoint, FanModel};
use crate::text::str_eq;
use vstd::prelude::*;

verus! {

/// The map described by a sequence of bindings, later bindings winning.
pub open spec fn pwm_map_of(entries: Seq<(String, u8)>) -> Map<Seq<char>, u8>
    decreases entries.len(),
{
    if entries.len() == 0 {
        Map::empty()
    } else {
        pwm_map_of(entries.drop_last()).insert(entries.last().0@, entries.last().1)
    }
}

/// A map from fan id to PWM duty, with one entry per fan.
#[derive(Debug)]
pub struct PwmMap {
    entries: Vec<(String, u8)>,
}

impl View for PwmMap {
    type V = Map<Seq<char>, u8>;

    closed spec fn view(&self) -> Map<Seq<char>, u8> {
        pwm_map_of(self.entries@)
    }
}

impl PwmMap {
    /// One entry per key.
    pub closed spec fn wf(&self) -> bool {
        forall|i: int, j: int|
            0 <= i < j < self.entries@.len() ==> self.entries@[i].0@ != self.entries@[j].0@
    }

    /// An empty map.
    pub fn new() -> (r: PwmMap)
        ensures
            r@ == Map::<Seq<char>, u8>::empty(),
            r.wf(),
    {
        PwmMap { entries: Vec::new() }
    }

    /// Look up the duty held for a fan.
    pub fn get(&self, key: &str) -> (r: Option<u8>)
        ensures
            r == if self@.contains_key(key@) {
                Some(self@[key@])
            } else {
                None::<u8>
            },
    {
        let mut best: Option<u8> = None;
        let mut i: usize = 0;
        while i < self.entries.len()
            invariant
                i <= self.entries@.len(),
                best == if pwm_map_of(self.entries@.take(i as int)).contains_key(key@) {
                    Some(pwm_map_of(self.entries@.take(i as int))[key@])
                } else {
                    None::<u8>
                },
            decreases self.entries@.len() - i,
        {
            proof {
                assert(self.entries@.take(i + 1).drop_last() =~= self.entries@.take(i as int));
                assert(self.entries@.take(i + 1).last() == self.entries@[i as int]);
            }
            if str_eq(self.entries[i].0.as_str(), key) {
                best = Some(self.entries[i].1);
            }
            i += 1;
        }
        proof {
            assert(self.entries@.take(self.entries@.len() as int) =~= self.entries@);
        }
        best
    }

    /// Remove every binding of `key`, keeping the rest in order.
    fn remove_entries(&mut self, key: &str)
        ensures
            final(self)@ == old(self)@.remove(key@),
            old(self).wf() ==> final(self).wf(),
            forall|i: int|
                0 <= i < final(self).entries@.len()
                    ==> #[trigger] final(self).entries@[i].0@ != key@,
    {
        let ghost orig = self.entries@;
        let mut out: Vec<(String, u8)> = Vec::new();
        let mut i: usize = 0;
        while i < self.entries.len()
            invariant
                orig == self.entries@,
                old(self).entries@ == orig,
                i <= orig.len(),
                pwm_map_of(out@) == pwm_map_of(orig.take(i as int)).remove(key@),
                forall|j: int| 0 <= j < out@.len() ==> #[trigger] out@[j].0@ != key@,
                forall|j: int|
                    0 <= j < out@.len() ==> exists|k: int|
                        0 <= k < i && #[trigger] out@[j].0@ == orig[k].0@,
                old(self).wf() ==> forall|j1: int, j2: int|
                    0 <= j1 < j2 < out@.len() ==> #[trigger] out@[j1].0@ != #[trigger] out@[j2].0@,
            decreases orig.len() - i,
        {
            proof {
                assert(orig.take(i + 1).drop_last() =~= orig.take(i as int));
                assert(orig.take(i + 1).last() == orig[i as int]);
            }
            let ghost m2 = pwm_map_of(orig.take(i + 1));
            if str_eq(self.entries[i].0.as_str(), key) {
                proof {
                    assert(pwm_map_of(out@) =~= m2.remove(key@));
                }
            } else {
                let ghost prev = out@;
                let k = self.entries[i].0.clone();
                let v = self.entries[i].1;
                out.push((k, v));
                proof {
                    assert(out@.drop_last() =~= prev);
                    assert(out@.last().0@ == orig[i as int].0@);
                    assert(out@.last().1 == orig[i as int].1);
                    assert(pwm_map_of(out@) =~= m2.remove(key@));
                    assert forall|j: int| 0 <= j < out@.len() implies exists|k2: int|
                        0 <= k2 < i + 1 && #[trigger] out@[j].0@ == orig[k2].0@ by {
                        if j < out@.len() - 1 {
                            assert(out@[j] == prev[j]);
                            let k2 = choose|k2: int|
                                0 <= k2 < i && #[trigger] prev[j].0@ == orig[k2].0@;
                            assert(out@[j].0@ == orig[k2].0@);
                        } else {
                            assert(out@[j].0@ == orig[i as int].0@);
                        }
                    }
                    if old(self).wf() {
                        assert forall|j1: int, j2: int|
                            0 <= j1 < j2 < out@.len() implies #[trigger] out@[j1].0@
                            != #[trigger] out@[j2].0@ by {
                            if j2 == out@.len() - 1 {
                                assert(out@[j1] == prev[j1]);
                                let k1 = choose|k2: int|
                                    0 <= k2 < i && #[trigger] prev[j1].0@ == orig[k2].0@;
                                assert(orig[k1].0@ != orig[i as int].0@);
                            } else {
                                assert(out@[j1] == prev[j1]);
                                assert(out@[j2] == prev[j2]);
                            }
                        }
                    }
                }
            }
            i += 1;
        }
        proof {
            assert(orig.take(orig.len() as int) =~= orig);
        }
        self.entries = out;
    }

    /// Bind `key` to `value`, replacing any earlier binding.
    pub fn set(&mut self, key: &str, value: u8)
        requires
            old(self).wf(),
        ensures
            final(self)@ == old(self)@.insert(key@, value),
            final(self).wf(),
    {
        self.remove_entries(key);
        let ghost mid = self.entries@;
        self.entries.push((key.to_owned(), value));
        proof {
            assert(self.entries@.drop_last() =~= mid);
            assert(pwm_map_of(self.entries@) =~= old(self)@.insert(key@, value));
            assert forall|a: int, b: int| 0 <= a < b < self.entries@.len() implies self.entries@[a].0@
                != self.entries@[b].0@ by {
                if b == self.entries@.len() - 1 {
                    assert(self.entries@[a] == mid[a]);
                } else {
                    assert(self.entries@[a] == mid[a]);
                    assert(self.entries@[b] == mid[b]);
                }
            }
        }
    }

    /// Bind `key` to `value` only when no binding exists yet.
    pub fn set_if_absent(&mut self, key: &str, value: u8)
        requires
            old(self).wf(),
        ensures
            final(self)@ == if old(self)@.contains_key(key@) {
                old(self)@
            } else {
                old(self)@.insert(key@, value)
            },
            final(self).wf(),
    {
        match self.get(key) {
            Some(_) => (),
            None => self.set(key, value),
        }
    }

    /// Drop the binding of `key`, if any.
    pub fn remove(&mut self, key: &str)
        requires
            old(self).wf(),
        ensures
            final(self)@ == old(self)@.remove(key@),
            final(self).wf(),
    {
        self.remove_entries(key);
    }

    /// The bindings, one pair per fan, in unspecified order.
    pub fn entries(&self) -> (r: Vec<(String, u8)>)
        requires
            self.wf(),
        ensures
            forall|i: int|
                0 <= i < r@.len() ==> self@.contains_key(#[trigger] r@[i].0@) && self@[r@[i].0@]
                    == r@[i].1,
            forall|k: Seq<char>| self@.contains_key(k) ==> exists|i: int|
                0 <= i < r@.len() && #[trigger] r@[i].0@ == k,
            forall|i: int, j: int| 0 <= i < j < r@.len() ==> r@[i].0@ != r@[j].0@,
    {
        proof {
            lemma_pwm_map_entries(self.entries@);
        }
        let mut out: Vec<(String, u8)> = Vec::new();
        let mut i: usize = 0;
        while i < self.entries.len()
            invariant
                i <= self.entries@.len(),
                out@.len() == i,
                forall|j: int|
                    0 <= j < i ==> #[trigger] out@[j].0@ == self.entries@[j].0@ && out@[j].1
                        == self.entries@[j].1,
            decreases self.entries@.len() - i,
        {
            out.push((self.entries[i].0.clone(), self.entries[i].1));
            i += 1;
        }
        proof {
            assert forall|k: Seq<char>| self@.contains_key(k) implies exists|i: int|
                0 <= i < out@.len() && #[trigger] out@[i].0@ == k by {
                let i = choose|i: int|
                    0 <= i < self.entries@.len() && #[trigger] self.entries@[i].0@ == k;
                assert(out@[i].0@ == k);
            }
        }
        out
    }
}

/// In a map without duplicate keys, every entry is a binding and every key
/// has an entry.
proof fn lemma_pwm_map_entries(entries: Seq<(String, u8)>)
    requires
        forall|i: int, j: int| 0 <= i < j < entries.len() ==> entries[i].0@ != entries[j].0@,
    ensures
        forall|i: int|
            0 <= i < entries.len() ==> pwm_map_of(entries).contains_key(
                #[trigger] entries[i].0@,
            ) && pwm_map_of(entries)[entries[i].0@] == entries[i].1,
        forall|k: Seq<char>| pwm_map_of(entries).contains_key(k) ==> exists|i: int|
            0 <= i < entries.len() && #[trigger] entries[i].0@ == k,
    decreases entries.len(),
{
    if entries.len() > 0 {
        let head = entries.drop_last();
        assert(forall|i: int, j: int|
            0 <= i < j < head.len() ==> #[trigger] head[i].0@ != #[trigger] head[j].0@) by {
            assert(forall|i: int| 0 <= i < head.len() ==> head[i] == #[trigger] entries[i]);
        }
        lemma_pwm_map_entries(head);
        assert(forall|i: int| 0 <= i < head.len() ==> head[i] == #[trigger] entries[i]);
        assert forall|k: Seq<char>| pwm_map_of(entries).contains_key(k) implies exists|i: int|
            0 <= i < entries.len() && #[trigger] entries[i].0@ == k by {
            if k == entries.last().0@ {
                assert(entries[entries.len() - 1].0@ == k);
            } else {
                assert(pwm_map_of(head).contains_key(k));
                let i = choose|i: int| 0 <= i < head.len() && #[trigger] head[i].0@ == k;
                assert(entries[i].0@ == k);
            }
        }
    }
}

// ---------------------------------------------------------------------------
// Protocol
// ---------------------------------------------------------------------------

/// What the frontend asks of the worker.
#[derive(Debug)]
pub enum WorkerCommand {
    /// Re-apply held duties and poll fresh fan data. Also synthesized by
    /// the worker when no command arrives within the poll deadline.
    Refresh,
    /// Set a fan's duty; 0 returns the fan to firmware control.
    SetPwm { fan_id: String, pwm: u8 },
    /// Validate and write a fan curve.
    SetCurve { curve: FanCurve },
}

/// What the worker reports back.
#[derive(Debug)]
pub enum WorkerResponse {
    /// A fresh snapshot of every fan.
    FanData(Vec<Fan>),
    /// The curves attached to each fan, sent once after the first
    /// discovery.
    CurveData(Vec<(String, Vec<FanCurve>)>),
    /// A duty write succeeded.
    PwmSet { fan_id: String, pwm: u8 },
    /// A curve write succeeded.
    CurveSet { fan_id: u32, sensor_id: u32 },
    /// Any failure, rendered as a message; the loop never terminates on
    /// errors.
    Error(String),
}

/// The held-PWM map after a duty command for `fan` succeeds: a duty of 0
/// releases the override, anything else records it.
pub open spec fn spec_held_after(m: Map<Seq<char>, u8>, fan: Seq<char>, pwm: u8) -> Map<
    Seq<char>,
    u8,
> {
    if pwm == 0 {
        m.remove(fan)
    } else {
        m.insert(fan, pwm)
    }
}

/// The worker's state: the last user-commanded duty per fan, re-applied
/// every poll cycle.
#[derive(Debug)]
pub struct WorkerState {
    pub held_pwm: PwmMap,
}

impl WorkerState {
    /// Whether the held map is well formed.
    pub open spec fn wf(&self) -> bool {
        self.held_pwm.wf()
    }

    /// A worker holding no overrides.
    pub fn new() -> (r: WorkerState)
        ensures
            r.held_pwm@ == Map::<Seq<char>, u8>::empty(),
            r.wf(),
    {
        WorkerState { held_pwm: PwmMap::new() }
    }

    /// The duties to re-apply before a poll: exactly the held overrides,
    /// one per fan, in unspecified order. A failure to re-apply one of
    /// them is logged by the caller and must not abort the poll cycle.
    pub fn reapply_targets(&self) -> (r: Vec<(String, u8)>)
        requires
            self.wf(),
        ensures
            forall|i: int|
                0 <= i < r@.len() ==> self.held_pwm@.contains_key(#[trigger] r@[i].0@)
                    && self.held_pwm@[r@[i].0@] == r@[i].1,
            forall|k: Seq<char>| self.held_pwm@.contains_key(k) ==> exists|i: int|
                0 <= i < r@.len() && #[trigger] r@[i].0@ == k,
            forall|i: int, j: int| 0 <= i < j < r@.len() ==> r@[i].0@ != r@[j].0@,
    {
        self.held_pwm.entries()
    }

    /// Digest the outcome of a duty write: on success update the held map
    /// — a duty of 0 releases the override, anything else records it —
    /// and report the write; on failure leave the state untouched and
    /// report the error.
    pub fn apply_set_pwm_result(
        &mut self,
        fan_id: String,
        pwm: u8,
        result: Result<(), FanControlError>,
    ) -> (r: WorkerResponse)
        requires
            old(self).wf(),
        ensures
            final(self).wf(),
            match result {
                Ok(_) => final(self).held_pwm@ == spec_held_after(
                    old(self).held_pwm@,
                    fan_id@,
                    pwm,
                ) && (r matches WorkerResponse::PwmSet { fan_id: f, pwm: p } && f@ == fan_id@ && p
                    == pwm),
                Err(e) => final(self).held_pwm@ == old(self).held_pwm@ && (
                r matches WorkerResponse::Error(m) && m@ == spec_error_message(e@)),
            },
    {
        match result {
            Ok(_) => {
                if pwm == 0 {
                    self.held_pwm.remove(fan_id.as_str());
                } else {
                    self.held_pwm.set(fan_id.as_str(), pwm);
                }
                WorkerResponse::PwmSet { fan_id, pwm }
            },
            Err(e) => WorkerResponse::Error(e.message()),
        }
    }
}

/// Digest the outcome of a curve write: success names the fan and sensor
/// written, failure carries the error's message.
pub fn curve_write_response(curve: &FanCurve, result: Result<(), FanControlError>) -> (r:
    WorkerResponse)
    ensures
        match result {
            Ok(_) => r matches WorkerResponse::CurveSet { fan_id, sensor_id } && fan_id
                == curve.fan_id && sensor_id == curve.sensor_id,
            Err(e) => r matches WorkerResponse::Error(m) && m@ == spec_error_message(e@),
        },
{
    match result {
        Ok(_) => WorkerResponse::CurveSet { fan_id: curve.fan_id, sensor_id: curve.sensor_id },
        Err(e) => WorkerResponse::Error(e.message()),
    }
}

/// Digest the outcome of a poll: fresh fan data, or the error's message.
pub fn discover_response(result: Result<Vec<Fan>, FanControlError>) -> (r: WorkerResponse)
    ensures
        match result {
            Ok(fans) => r matches WorkerResponse::FanData(f) && f@ == fans@,
            Err(e) => r matches WorkerResponse::Error(m) && m@ == spec_error_message(e@),
        },
{
    match result {
        Ok(fans) => WorkerResponse::FanData(fans),
        Err(e) => WorkerResponse::Error(e.message()),
    }
}

// ---------------------------------------------------------------------------
// Curve extraction for the frontend
// ---------------------------------------------------------------------------

/// Copy a point list.
pub fn copy_points(points: &Vec<FanCurvePoint>) -> (r: Vec<FanCurvePoint>)
    ensures
        r@ == points@,
{
    let mut out: Vec<FanCurvePoint> = Vec::new();
    let mut i: usize = 0;
    while i < points.len()
        invariant
            i <= points@.len(),
            out@ == points@.take(i as int),
        decreases points@.len() - i,
    {
        out.push(points[i]);
        proof {
            assert(out@ =~= points@.take(i + 1));
        }
        i += 1;
    }
    proof {
        assert(points@.take(points@.len() as int) =~= points@);
    }
    out
}

/// Copy a curve.
pub fn copy_curve(c: &FanCurve) -> (r: FanCurve)
    ensures
        r@ == c@,
{
    FanCurve {
        fan_id: c.fan_id,
        sensor_id: c.sensor_id,
        min_speed: c.min_speed,
        max_speed: c.max_speed,
        min_temp: c.min_temp,
        max_temp: c.max_temp,
        points: copy_points(&c.points),
        active: c.active,
    }
}

/// Copy a curve list.
pub fn copy_curves(cs: &Vec<FanCurve>) -> (r: Vec<FanCurve>)
    ensures
        r@.map_values(|c: FanCurve| c@) == cs@.map_values(|c: FanCurve| c@),
{
    let mut out: Vec<FanCurve> = Vec::new();
    let mut i: usize = 0;
    while i < cs.len()
        invariant
            i <= cs@.len(),
            out@.len() == i,
            forall|j: int| 0 <= j < i ==> #[trigger] out@[j]@ == cs@[j]@,
        decreases cs@.len() - i,
    {
        out.push(copy_curve(&cs[i]));
        i += 1;
    }
    proof {
        assert(out@.map_values(|c: FanCurve| c@) =~= cs@.map_values(|c: FanCurve| c@));
    }
    out
}

/// The per-fan curve listing the frontend caches: an entry for every fan
/// that carries curves, in fan order.
pub open spec fn spec_curves_index(fans: Seq<FanModel>) -> Seq<(Seq<char>, Seq<FanCurveModel>)>
    decreases fans.len(),
{
    if fans.len() == 0 {
        Seq::empty()
    } else {
        let rest = spec_curves_index(fans.drop_last());
        if fans.last().curves.len() > 0 {
            rest.push((fans.last().id, fans.last().curves))
        } else {
            rest
        }
    }
}

/// Collect each fan's curves for the frontend's cache, skipping fans
/// without any.
pub fn curves_by_fan(fans: &Vec<Fan>) -> (r: Vec<(String, Vec<FanCurve>)>)
    ensures
        r@.map_values(|e: (String, Vec<FanCurve>)| (e.0@, e.1@.map_values(|c: FanCurve| c@)))
            == spec_curves_index(fans@.map_values(|f: Fan| f@)),
{
    let ghost fv = fans@.map_values(|f: Fan| f@);
    let mut out: Vec<(String, Vec<FanCurve>)> = Vec::new();
    let mut i: usize = 0;
    while i < fans.len()
        invariant
            fv == fans@.map_values(|f: Fan| f@),
            i <= fans@.len(),
            out@.map_values(|e: (String, Vec<FanCurve>)| (e.0@, e.1@.map_values(|c: FanCurve| c@)))
                == spec_curves_index(fv.take(i as int)),
        decreases fans@.len() - i,
    {
        proof {
            assert(fv.take(i + 1).drop_last() =~= fv.take(i as int));
            assert(fv.take(i + 1).last() == fv[i as int]);
            assert(fv[i as int] == fans@[i as int]@);
        }
        if fans[i].curves.len() > 0 {
            let ghost prev = out@.map_values(
                |e: (String, Vec<FanCurve>)| (e.0@, e.1@.map_values(|c: FanCurve| c@)),
            );
            let entry = (fans[i].id.clone(), copy_curves(&fans[i].curves));
            out.push(entry);
            proof {
                let now = out@.map_values(
                    |e: (String, Vec<FanCurve>)| (e.0@, e.1@.map_values(|c: FanCurve| c@)),
                );
                assert(now =~= prev.push(
                    (out@.last().0@, out@.last().1@.map_values(|c: FanCurve| c@)),
                ));
            }
        }
        i += 1;
    }
    proof {
        assert(fv.take(fans@.len() as int) =~= fv);
    }
    out
}

/// Releasing a fan's override removes it from the held map for good:
/// after a successful duty write of 0 for a fan — whatever duty was held
/// before — no override for it remains, so the next poll's re-apply step
/// skips it.
pub proof fn lemma_zero_duty_clears_override(m: Map<Seq<char>, u8>, fan: Seq<char>, pwm: u8)
    requires
        pwm != 0,
    ensures
        !spec_held_after(spec_held_after(m, fan, pwm), fan, 0).contains_key(fan),
        spec_held_after(spec_held_after(m, fan, pwm), fan, 0) =~= m.remove(fan),
{
}

} // verus!
