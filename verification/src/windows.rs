//! The computational half of the generic Windows fallback backend:
//! vendor detection on a manufacturer string, and conversion of a raw
//! firmware fan record into a snapshot.
//!
//! The management-interface queries that produce these values are I/O and
//! happen outside the library.

use crate::fan::{Fan, FanModel};
use vstd::prelude::*;

verus! {

/// A character folded to upper case, for ASCII letters.
pub open spec fn spec_ascii_upper(c: char) -> char {
    if 'a' <= c && c <= 'z' {
        (c as int - 32) as char
    } else {
        c
    }
}

/// A string folded to upper case, ASCII letter by letter.
pub open spec fn spec_ascii_upper_str(s: Seq<char>) -> Seq<char> {
    s.map_values(|c: char| spec_ascii_upper(c))
}

/// Whether `needle` occurs in `s` starting at `i`.
pub open spec fn occurs_at(s: Seq<char>, needle: Seq<char>, i: int) -> bool {
    0 <= i && i + needle.len() <= s.len() && s.subrange(i, i + needle.len()) == needle
}

/// Whether `needle` occurs anywhere in `s`.
pub open spec fn spec_contains_seq(s: Seq<char>, needle: Seq<char>) -> bool {
    exists|i: int| occurs_at(s, needle, i)
}

/// Fold one character to upper case.
fn ascii_upper(c: char) -> (r: char)
    ensures
        r == spec_ascii_upper(c),
{
    if 'a' <= c && c <= 'z' {
        ((c as u8) - 32) as char
    } else {
        c
    }
}

/// Whether a firmware-reported manufacturer string names Lenovo: the
/// string, folded to upper case, contains `LENOVO`.
pub fn manufacturer_is_lenovo(manufacturer: &str) -> (r: bool)
    ensures
        r == spec_contains_seq(spec_ascii_upper_str(manufacturer@), "LENOVO"@),
{
    let ghost up = spec_ascii_upper_str(manufacturer@);
    let n = manufacturer.unicode_len();
    proof {
        reveal_strlit("LENOVO");
    }
    if n < 6 {
        proof {
            assert(forall|i: int| !occurs_at(up, "LENOVO"@, i));
        }
        return false;
    }
    let mut i: usize = 0;
    while i <= n - 6
        invariant
            up == spec_ascii_upper_str(manufacturer@),
            n == manufacturer@.len(),
            6 <= n,
            "LENOVO"@.len() == 6,
            i <= n - 6 + 1,
            forall|k: int| 0 <= k < i ==> !occurs_at(up, "LENOVO"@, k),
        decreases n - i,
    {
        let mut j: usize = 0;
        let mut hit = true;
        while j < 6
            invariant
                up == spec_ascii_upper_str(manufacturer@),
                n == manufacturer@.len(),
                "LENOVO"@.len() == 6,
                i + 6 <= n,
                j <= 6,
                hit == (forall|k: int| 0 <= k < j ==> up[i + k] == "LENOVO"@[k]),
            decreases 6 - j,
        {
            let c = ascii_upper(manufacturer.get_char(i + j));
            let expected: char = if j == 0 {
                'L'
            } else if j == 1 {
                'E'
            } else if j == 2 {
                'N'
            } else if j == 3 {
                'O'
            } else if j == 4 {
                'V'
            } else {
                'O'
            };
            let ghost prev_hit = hit;
            if c != expected {
                hit = false;
            }
            proof {
                reveal_strlit("LENOVO");
                assert(up[i + j] == spec_ascii_upper(manufacturer@[i + j]));
                assert(hit == (prev_hit && up[i + j] == "LENOVO"@[j as int]));
                assert forall|k: int| 0 <= k < j + 1 implies (hit ==> up[i + k]
                    == "LENOVO"@[k]) by {}
                if !hit && prev_hit {
                    assert(up[i + j as int] != "LENOVO"@[j as int]);
                }
            }
            j += 1;
        }
        if hit {
            proof {
                assert(up.subrange(i as int, i + 6) =~= "LENOVO"@);
                assert(occurs_at(up, "LENOVO"@, i as int));
            }
            return true;
        }
        proof {
            if occurs_at(up, "LENOVO"@, i as int) {
                assert(up.subrange(i as int, i + 6) == "LENOVO"@);
                let k = choose|k: int| 0 <= k < 6 && up[i + k] != "LENOVO"@[k];
                assert(up.subrange(i as int, i + 6)[k] == up[i + k]);
                assert(false);
            }
        }
        i += 1;
    }
    proof {
        assert forall|k: int| !occurs_at(up, "LENOVO"@, k) by {
            if 0 <= k <= n - 6 {
                assert(k < i);
            }
        }
    }
    false
}

/// Assemble a snapshot from the fields of a firmware fan record: the
/// device id and name carry over, a missing speed reads as 0, active
/// cooling marks the fan controllable, and the record exposes no duty,
/// no range and no curves.
pub fn win32_fan_to_fan(
    device_id: String,
    name: String,
    desired_speed: Option<u32>,
    active_cooling: Option<bool>,
) -> (r: Fan)
    ensures
        r@ == (FanModel {
            id: device_id@,
            label: name@,
            speed_rpm: match desired_speed {
                Some(v) => v,
                None => 0,
            },
            pwm: None,
            controllable: match active_cooling {
                Some(b) => b,
                None => false,
            },
            min_rpm: None,
            max_rpm: None,
            curves: Seq::empty(),
            full_speed_active: false,
        }),
{
    let fan = Fan {
        id: device_id,
        label: name,
        speed_rpm: match desired_speed {
            Some(v) => v,
            None => 0,
        },
        pwm: None,
        controllable: match active_cooling {
            Some(b) => b,
            None => false,
        },
        min_rpm: None,
        max_rpm: None,
        curves: Vec::new(),
        full_speed_active: false,
    };
    proof {
        assert(fan.curves@.map_values(|c: crate::fan::FanCurve| c@) =~= Seq::<
            crate::fan::FanCurveModel,
        >::empty());
    }
    fan
}

} // verus!
