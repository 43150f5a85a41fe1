//! The interactive frontend's state machine: how each worker response
//! updates what the user sees.
//!
//! The frontend drains the response queue between frames and folds every
//! response into this state. Slider positions are seeded from the first
//! snapshot that reports a duty for a fan and never overwritten by later
//! snapshots, so polling does not fight the user's input.

use crate::fan::{Fan, FanCurve, FanModel};
use crate::text::spec_dec_digits;
use crate::worker::{PwmMap, WorkerResponse};
use vstd::prelude::*;

verus! {

/// The slider map after seeding from a snapshot: each fan that reports a
/// duty gets a slider at that duty, unless it already has one.
pub open spec fn spec_sliders_after(m: Map<Seq<char>, u8>, fans: Seq<FanModel>) -> Map<
    Seq<char>,
    u8,
>
    decreases fans.len(),
{
    if fans.len() == 0 {
        m
    } else {
        let f = fans.first();
        let m1 = if f.pwm is Some && !m.contains_key(f.id) {
            m.insert(f.id, f.pwm->0)
        } else {
            m
        };
        spec_sliders_after(m1, fans.drop_first())
    }
}

/// What the frontend shows: the latest fan snapshots, the slider position
/// per fan, the curve cache sent once at startup, and a status line.
#[derive(Debug)]
pub struct UiState {
    pub fans: Vec<Fan>,
    pub slider_values: PwmMap,
    pub fan_curves: Vec<(String, Vec<FanCurve>)>,
    pub status_message: String,
}

impl UiState {
    /// Whether the slider map is well formed.
    pub open spec fn wf(&self) -> bool {
        self.slider_values.wf()
    }

    /// The state before the first response arrives.
    pub fn new() -> (r: UiState)
        ensures
            r.fans@.len() == 0,
            r.slider_values@ == Map::<Seq<char>, u8>::empty(),
            r.fan_curves@.len() == 0,
            r.status_message@ == "Discovering fans..."@,
            r.wf(),
    {
        UiState {
            fans: Vec::new(),
            slider_values: PwmMap::new(),
            fan_curves: Vec::new(),
            status_message: String::from_str("Discovering fans..."),
        }
    }

    /// Fold one worker response into the display state: fan data replaces
    /// the snapshots and seeds missing sliders, curve data replaces the
    /// cache, and the other responses update the status line.
    pub fn apply_response(&mut self, response: WorkerResponse)
        requires
            old(self).wf(),
        ensures
            final(self).wf(),
            match response {
                WorkerResponse::FanData(fans) => {
                    &&& final(self).fans@ == fans@
                    &&& final(self).slider_values@ == spec_sliders_after(
                        old(self).slider_values@,
                        fans@.map_values(|f: Fan| f@),
                    )
                    &&& final(self).status_message@ == "OK"@
                    &&& final(self).fan_curves@ == old(self).fan_curves@
                },
                WorkerResponse::CurveData(curves) => {
                    &&& final(self).fan_curves@ == curves@
                    &&& final(self).fans@ == old(self).fans@
                    &&& final(self).slider_values@ == old(self).slider_values@
                    &&& final(self).status_message@ == old(self).status_message@
                },
                WorkerResponse::PwmSet { fan_id, pwm } => {
                    &&& final(self).status_message@ == "Set "@ + fan_id@ + " PWM to "@
                        + spec_dec_digits(pwm as int)
                    &&& final(self).fans@ == old(self).fans@
                    &&& final(self).slider_values@ == old(self).slider_values@
                    &&& final(self).fan_curves@ == old(self).fan_curves@
                },
                WorkerResponse::CurveSet { fan_id, sensor_id } => {
                    &&& final(self).status_message@ == "Curve written for fan "@ + spec_dec_digits(
                        fan_id as int,
                    ) + " sensor "@ + spec_dec_digits(sensor_id as int)
                    &&& final(self).fans@ == old(self).fans@
                    &&& final(self).slider_values@ == old(self).slider_values@
                    &&& final(self).fan_curves@ == old(self).fan_curves@
                },
                WorkerResponse::Error(message) => {
                    &&& final(self).status_message@ == "Error: "@ + message@
                    &&& final(self).fans@ == old(self).fans@
                    &&& final(self).slider_values@ == old(self).slider_values@
                    &&& final(self).fan_curves@ == old(self).fan_curves@
                },
            },
    {
        match response {
            WorkerResponse::FanData(fans) => {
                let ghost fv = fans@.map_values(|f: Fan| f@);
                let ghost m0 = self.slider_values@;
                proof {
                    assert(fv.skip(0) =~= fv);
                }
                let mut i: usize = 0;
                while i < fans.len()
                    invariant
                        old(self).wf(),
                        self.slider_values.wf(),
                        fv == fans@.map_values(|f: Fan| f@),
                        i <= fans@.len(),
                        spec_sliders_after(self.slider_values@, fv.skip(i as int))
                            == spec_sliders_after(m0, fv),
                        self.fans@ == old(self).fans@,
                        self.fan_curves@ == old(self).fan_curves@,
                        self.status_message@ == old(self).status_message@,
                    decreases fans@.len() - i,
                {
                    proof {
                        assert(fv.skip(i as int).first() == fv[i as int]);
                        assert(fv.skip(i as int).drop_first() =~= fv.skip(i + 1));
                        assert(fv[i as int] == fans@[i as int]@);
                    }
                    match fans[i].pwm {
                        Some(p) => {
                            self.slider_values.set_if_absent(fans[i].id.as_str(), p);
                        },
                        None => {},
                    }
                    i += 1;
                }
                proof {
                    assert(fv.skip(fans@.len() as int) =~= Seq::<FanModel>::empty());
                }
                self.fans = fans;
                self.status_message = String::from_str("OK");
            },
            WorkerResponse::CurveData(curves) => {
                self.fan_curves = curves;
            },
            WorkerResponse::PwmSet { fan_id, pwm } => {
                self.status_message = String::from_str("Set ").concat(fan_id.as_str()).concat(
                    " PWM to ",
                ).concat(crate::text::u32_to_string(pwm as u32).as_str());
            },
            WorkerResponse::CurveSet { fan_id, sensor_id } => {
                self.status_message = String::from_str("Curve written for fan ").concat(
                    crate::text::u32_to_string(fan_id).as_str(),
                ).concat(" sensor ").concat(crate::text::u32_to_string(sensor_id).as_str());
            },
            WorkerResponse::Error(message) => {
                self.status_message = String::from_str("Error: ").concat(message.as_str());
            },
        }
    }
}

} // verus!
