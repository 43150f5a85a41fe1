//! Small association tables keyed by numeric fan id, with `Map` views.
//!
//! The vendor table parser collects per-fan RPM ranges and curves in these
//! before assembling `Fan` snapshots.

use crate::fan::{FanCurve, FanCurveModel};
use vstd::prelude::*;

verus! {

/// Per-fan RPM operating range learned from table data.
#[derive(Debug, Clone, Copy, PartialEq, Eq, Structural)]
pub struct FanRpmRange {
    pub min_rpm: u32,
    pub max_rpm: u32,
}

/// The map described by a sequence of bindings, later bindings winning.
pub open spec fn range_map_of(entries: Seq<(u32, FanRpmRange)>) -> Map<u32, FanRpmRange>
    decreases entries.len(),
{
    if entries.len() == 0 {
        Map::empty()
    } else {
        range_map_of(entries.drop_last()).insert(entries.last().0, entries.last().1)
    }
}

/// A table of per-fan RPM ranges.
#[derive(Debug, Clone)]
pub struct RangeTable {
    entries: Vec<(u32, FanRpmRange)>,
}

/// The widened binding that recording `range` under `fan_id` produces: the
/// union of the new range with any range already on file.
pub open spec fn spec_widen(m: Map<u32, FanRpmRange>, fan_id: u32, range: FanRpmRange) -> FanRpmRange {
    if m.contains_key(fan_id) {
        FanRpmRange {
            min_rpm: if range.min_rpm < m[fan_id].min_rpm {
                range.min_rpm
            } else {
                m[fan_id].min_rpm
            },
            max_rpm: if range.max_rpm > m[fan_id].max_rpm {
                range.max_rpm
            } else {
                m[fan_id].max_rpm
            },
        }
    } else {
        range
    }
}

impl View for RangeTable {
    type V = Map<u32, FanRpmRange>;

    closed spec fn view(&self) -> Map<u32, FanRpmRange> {
        range_map_of(self.entries@)
    }
}

impl RangeTable {
    /// An empty table.
    pub fn new() -> (r: RangeTable)
        ensures
            r@ == Map::<u32, FanRpmRange>::empty(),
    {
        RangeTable { entries: Vec::new() }
    }

    /// Bind `fan_id` to `range`, replacing any earlier binding.
    pub fn insert(&mut self, fan_id: u32, range: FanRpmRange)
        ensures
            final(self)@ == old(self)@.insert(fan_id, range),
    {
        self.entries.push((fan_id, range));
        proof {
            assert(self.entries@.drop_last() =~= old(self).entries@);
        }
    }

    /// Look up the range on file for `fan_id`.
    pub fn get(&self, fan_id: u32) -> (r: Option<FanRpmRange>)
        ensures
            r == if self@.contains_key(fan_id) {
                Some(self@[fan_id])
            } else {
                None::<FanRpmRange>
            },
    {
        let mut best: Option<FanRpmRange> = None;
        let mut i: usize = 0;
        while i < self.entries.len()
            invariant
                i <= self.entries@.len(),
                best == if range_map_of(self.entries@.take(i as int)).contains_key(fan_id) {
                    Some(range_map_of(self.entries@.take(i as int))[fan_id])
                } else {
                    None::<FanRpmRange>
                },
            decreases self.entries@.len() - i,
        {
            proof {
                assert(self.entries@.take(i + 1).drop_last() =~= self.entries@.take(i as int));
                assert(self.entries@.take(i + 1).last() == self.entries@[i as int]);
            }
            if self.entries[i].0 == fan_id {
                best = Some(self.entries[i].1);
            }
            i += 1;
        }
        proof {
            assert(self.entries@.take(self.entries@.len() as int) =~= self.entries@);
        }
        best
    }

    /// Record a range for `fan_id`, widening any range already on file so
    /// the table holds the union of everything observed.
    pub fn widen(&mut self, fan_id: u32, range: FanRpmRange)
        ensures
            final(self)@ == old(self)@.insert(fan_id, spec_widen(old(self)@, fan_id, range)),
    {
        let merged = match self.get(fan_id) {
            Some(existing) => FanRpmRange {
                min_rpm: if range.min_rpm < existing.min_rpm {
                    range.min_rpm
                } else {
                    existing.min_rpm
                },
                max_rpm: if range.max_rpm > existing.max_rpm {
                    range.max_rpm
                } else {
                    existing.max_rpm
                },
            },
            None => range,
        };
        self.insert(fan_id, merged);
    }
}

/// The per-fan curve lists described by a sequence of single-curve
/// bindings, in order of appearance.
pub open spec fn curves_map_of(entries: Seq<(u32, FanCurve)>) -> Map<u32, Seq<FanCurveModel>>
    decreases entries.len(),
{
    if entries.len() == 0 {
        Map::empty()
    } else {
        let m = curves_map_of(entries.drop_last());
        let prior = if m.contains_key(entries.last().0) {
            m[entries.last().0]
        } else {
            Seq::empty()
        };
        m.insert(entries.last().0, prior.push(entries.last().1@))
    }
}

/// The curves collected for each fan, keyed by numeric fan id.
#[derive(Debug)]
pub struct CurveTable {
    entries: Vec<(u32, FanCurve)>,
}

impl View for CurveTable {
    type V = Map<u32, Seq<FanCurveModel>>;

    closed spec fn view(&self) -> Map<u32, Seq<FanCurveModel>> {
        curves_map_of(self.entries@)
    }
}

impl CurveTable {
    /// An empty table.
    pub fn new() -> (r: CurveTable)
        ensures
            r@ == Map::<u32, Seq<FanCurveModel>>::empty(),
    {
        CurveTable { entries: Vec::new() }
    }

    /// Append `curve` to the list collected for `fan_id`.
    pub fn push_curve(&mut self, fan_id: u32, curve: FanCurve)
        ensures
            final(self)@ == old(self)@.insert(
                fan_id,
                (if old(self)@.contains_key(fan_id) {
                    old(self)@[fan_id]
                } else {
                    Seq::empty()
                }).push(curve@),
            ),
    {
        self.entries.push((fan_id, curve));
        proof {
            assert(self.entries@.drop_last() =~= old(self).entries@);
        }
    }

    /// Remove and return the curves collected for `fan_id`, in order of
    /// appearance; an empty list when none were collected.
    pub fn take_curves(&mut self, fan_id: u32) -> (r: Vec<FanCurve>)
        ensures
            r@.map_values(|c: FanCurve| c@) == if old(self)@.contains_key(fan_id) {
                old(self)@[fan_id]
            } else {
                Seq::<FanCurveModel>::empty()
            },
            final(self)@ == old(self)@.remove(fan_id),
    {
        let ghost orig = self.entries@;
        // Reverse into a stack so elements can be moved out, then replay in
        // original order.
        let mut stack: Vec<(u32, FanCurve)> = Vec::new();
        while self.entries.len() > 0
            invariant
                orig == self.entries@ + stack@.reverse(),
            decreases self.entries@.len(),
        {
            let e = self.entries.pop().unwrap();
            stack.push(e);
            proof {
                assert(self.entries@ + stack@.reverse() =~= orig);
            }
        }
        proof {
            assert(stack@.reverse() =~= orig);
        }
        let mut taken: Vec<FanCurve> = Vec::new();
        let ghost total = orig.len();
        while stack.len() > 0
            invariant
                stack@.reverse() == orig.skip(total - stack@.len()),
                stack@.len() <= total == orig.len(),
                curves_map_of(self.entries@) == curves_map_of(
                    orig.take(total - stack@.len()),
                ).remove(fan_id),
                taken@.map_values(|c: FanCurve| c@) == (if curves_map_of(
                    orig.take(total - stack@.len()),
                ).contains_key(fan_id) {
                    curves_map_of(orig.take(total - stack@.len()))[fan_id]
                } else {
                    Seq::<FanCurveModel>::empty()
                }),
            decreases stack@.len(),
        {
            let ghost j = total - stack@.len();
            let ghost m = curves_map_of(orig.take(j));
            let ghost prev_stack = stack@;
            let e = stack.pop().unwrap();
            proof {
                assert(prev_stack.reverse()[0] == prev_stack[prev_stack.len() - 1]);
                assert(prev_stack.reverse()[0] == orig.skip(j)[0]);
                assert(orig.skip(j)[0] == orig[j]);
                assert(e == orig[j]);
                assert(stack@ == prev_stack.subrange(0, prev_stack.len() - 1));
                assert forall|i: int| 0 <= i < stack@.len() implies #[trigger] stack@.reverse()[i]
                    == orig.skip(j + 1)[i] by {
                    assert(stack@.reverse()[i] == stack@[stack@.len() - 1 - i]);
                    assert(stack@[stack@.len() - 1 - i] == prev_stack[stack@.len() - 1 - i]);
                    assert(prev_stack.reverse()[i + 1] == prev_stack[prev_stack.len() - 2 - i]);
                    assert(prev_stack.reverse()[i + 1] == orig.skip(j)[i + 1]);
                    assert(orig.skip(j)[i + 1] == orig[j + 1 + i]);
                    assert(orig.skip(j + 1)[i] == orig[j + 1 + i]);
                }
                assert(stack@.reverse() =~= orig.skip(j + 1));
                assert(orig.take(j + 1).drop_last() =~= orig.take(j));
                assert(orig.take(j + 1).last() == orig[j]);
            }
            let ghost m2 = curves_map_of(orig.take(j + 1));
            let (key, curve) = e;
            if key == fan_id {
                taken.push(curve);
                proof {
                    assert(curves_map_of(self.entries@) =~= m2.remove(fan_id));
                    assert(taken@.map_values(|c: FanCurve| c@) =~= m2[fan_id]);
                }
            } else {
                let ghost prior_entries = self.entries@;
                self.entries.push((key, curve));
                proof {
                    assert(self.entries@.drop_last() =~= prior_entries);
                    assert(curves_map_of(self.entries@) =~= m2.remove(fan_id));
                    if m2.contains_key(fan_id) {
                        assert(taken@.map_values(|c: FanCurve| c@) =~= m2[fan_id]);
                    }
                }
            }
        }
        proof {
            assert(orig.take(total as int) =~= orig);
        }
        taken
    }
}

} // verus!
