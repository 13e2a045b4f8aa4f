//! The grouped store of raw observations.
//!
//! Observations are grouped by benchmark group and, within a group, by
//! variant (function) name. Both levels are kept in ascending
//! case-insensitive key order, which fixes the series index of every
//! variant and the order of all emitted output.
use vstd::prelude::*;

verus! {

use crate::fbits::div_bits;
use crate::fbits::div_f;
use crate::fbits::f64_from_u32;
use crate::fbits::f64_of_u32;
use crate::fbits::rounds_as;
use crate::strmap::StrMap;
use crate::textkey::lower_seq;
use crate::timeunit::TimeUnit;

/// One raw observation: a measurement (a binary64 bit pattern), the
/// iteration count it was taken at, and its time unit.
#[derive(Debug, Clone, Copy, PartialEq, Eq, Structural)]
pub struct CriterionDataPoint {
    pub measurement: u64,
    pub iter_count: u32,
    pub time_unit: TimeUnit,
}

impl CriterionDataPoint {
    pub fn new(measurement: u64, iter_count: u32, time_unit: TimeUnit) -> (r: CriterionDataPoint)
        ensures
            r == (CriterionDataPoint { measurement, iter_count, time_unit }),
    {
        CriterionDataPoint { measurement, iter_count, time_unit }
    }

    pub fn iter_count(&self) -> (r: u32)
        ensures
            r == self.iter_count,
    {
        self.iter_count
    }

    pub fn measurement(&self) -> (r: u64)
        ensures
            r == self.measurement,
    {
        self.measurement
    }

    pub fn time_unit(&self) -> (r: TimeUnit)
        ensures
            r == self.time_unit,
    {
        self.time_unit
    }

    /// The mean-time projection: the measurement divided by the
    /// iteration count, the per-observation transform of the
    /// mean-time collection.
    pub fn as_mean_time(&self) -> (r: CriterionDataPoint)
        ensures
            r.iter_count == self.iter_count,
            r.time_unit == self.time_unit,
            rounds_as(r.measurement, div_bits(self.measurement, f64_of_u32(self.iter_count))),
    {
        CriterionDataPoint {
            measurement: div_f(self.measurement, f64_from_u32(self.iter_count)),
            iter_count: self.iter_count,
            time_unit: self.time_unit,
        }
    }
}

/// A set of raw data points, in insertion order.
pub struct CriterionDataSet {
    pub dataset: Vec<CriterionDataPoint>,
}

impl CriterionDataSet {
    pub fn new() -> (r: CriterionDataSet)
        ensures
            r.dataset@ =~= Seq::<CriterionDataPoint>::empty(),
    {
        CriterionDataSet { dataset: Vec::new() }
    }

    pub fn insert(&mut self, measurement: u64, iter_count: u32, time_unit: TimeUnit)
        ensures
            final(self).dataset@ == old(self).dataset@.push(
                (CriterionDataPoint { measurement, iter_count, time_unit }),
            ),
    {
        let datapoint = CriterionDataPoint::new(measurement, iter_count, time_unit);
        self.dataset.push(datapoint);
    }

    pub fn get(&self, index: usize) -> (r: Option<&CriterionDataPoint>)
        ensures
            index < self.dataset@.len() ==> r == Some(&self.dataset@[index as int]),
            index >= self.dataset@.len() ==> r is None,
    {
        if index < self.dataset.len() {
            Some(&self.dataset[index])
        } else {
            None
        }
    }

    pub fn len(&self) -> (r: usize)
        ensures
            r == self.dataset@.len(),
    {
        self.dataset.len()
    }
}

/// How one observation changes a map of variants: the bucket of the
/// variant's folded key grows by the point; everything else stays. A
/// variant seen for the first time enters at its sorted position with
/// its original casing.
pub open spec fn upsert_point(
    pre: StrMap<CriterionDataSet>,
    post: StrMap<CriterionDataSet>,
    name: Seq<char>,
    p: CriterionDataPoint,
) -> bool {
    let k = lower_seq(name);
    let i = post.index_of(k);
    &&& post.contains_key(k)
    &&& if pre.contains_key(k) {
        &&& i == pre.index_of(k)
        &&& post.spec_len() == pre.spec_len()
        &&& post.entries@[i].0 == pre.entries@[i].0
        &&& post.entries@[i].1.dataset@ == pre.entries@[i].1.dataset@.push(p)
        &&& forall|j: int|
            0 <= j < post.spec_len() && j != i ==> post.entries@[j] == pre.entries@[j]
    } else {
        &&& post.spec_len() == pre.spec_len() + 1
        &&& post.entries@[i].0@ == name
        &&& post.entries@[i].1.dataset@ =~= seq![p]
        &&& post.entries@ == pre.entries@.insert(i, post.entries@[i])
    }
}

/// The variants of one group, keyed case-insensitively by their name,
/// in ascending key order. A variant's position is its series index.
pub struct CriterionFnData {
    pub fn_map: StrMap<CriterionDataSet>,
}

impl CriterionFnData {
    /// Variants in ascending key order, each holding at least one
    /// observation.
    pub open spec fn wf(self) -> bool {
        &&& self.fn_map.wf()
        &&& forall|i: int|
            0 <= i < self.fn_map.spec_len() ==> (#[trigger] self.fn_map.entries@[i]).1.dataset@.len()
                > 0
    }

    pub fn new() -> (r: CriterionFnData)
        ensures
            r.fn_map.entries@ =~= Seq::<(String, CriterionDataSet)>::empty(),
            r.wf(),
    {
        CriterionFnData { fn_map: StrMap::new() }
    }

    pub fn insert(
        &mut self,
        function: String,
        measurement: u64,
        iter_count: u32,
        time_unit: TimeUnit,
    )
        requires
            old(self).wf(),
        ensures
            final(self).wf(),
            upsert_point(
                old(self).fn_map,
                final(self).fn_map,
                function@,
                (CriterionDataPoint { measurement, iter_count, time_unit }),
            ),
    {
        let ghost p = CriterionDataPoint { measurement, iter_count, time_unit };
        let ghost pre = self.fn_map;
        let (pos, found) = self.fn_map.locate(function.as_str());
        if found {
            let (k, mut ds) = self.fn_map.remove_at(pos);
            ds.insert(measurement, iter_count, time_unit);
            proof {
                StrMap::lemma_remove_keeps_gap(pre, self.fn_map, pos as int);
            }
            self.fn_map.insert_kv_at(pos, k, ds);
            proof {
                assert(self.fn_map.entries@ =~= pre.entries@.update(
                    pos as int,
                    self.fn_map.entries@[pos as int],
                ));
                assert(self.fn_map.lkey(pos as int) == lower_seq(function@));
                assert(self.fn_map.contains_key(lower_seq(function@)));
                self.fn_map.lemma_index_unique(pos as int);
                pre.lemma_index_unique(pos as int);
            }
        } else {
            let mut ds = CriterionDataSet::new();
            ds.insert(measurement, iter_count, time_unit);
            self.fn_map.insert_kv_at(pos, function, ds);
            proof {
                assert(self.fn_map.lkey(pos as int) == lower_seq(function@));
                assert(self.fn_map.contains_key(lower_seq(function@)));
                self.fn_map.lemma_index_unique(pos as int);
            }
        }
    }

    pub fn get(&self, function: &str) -> (r: Option<&CriterionDataSet>)
        requires
            self.wf(),
        ensures
            r is Some == self.fn_map.contains_key(lower_seq(function@)),
            r matches Some(ds) ==> *ds == self.fn_map.entries@[self.fn_map.index_of(
                lower_seq(function@),
            )].1,
    {
        let (pos, found) = self.fn_map.locate(function);
        if found {
            proof {
                self.fn_map.lemma_index_unique(pos as int);
            }
            Some(&self.fn_map.entries[pos].1)
        } else {
            None
        }
    }
}

/// How one observation changes the store: the group's variant map is
/// changed as `upsert_point` says; everything else stays. A group seen
/// for the first time enters at its sorted position holding exactly
/// that one variant.
pub open spec fn upsert_group(
    pre: StrMap<CriterionFnData>,
    post: StrMap<CriterionFnData>,
    group: Seq<char>,
    name: Seq<char>,
    p: CriterionDataPoint,
) -> bool {
    let k = lower_seq(group);
    let i = post.index_of(k);
    &&& post.contains_key(k)
    &&& post.entries@[i].1.wf()
    &&& if pre.contains_key(k) {
        &&& i == pre.index_of(k)
        &&& post.spec_len() == pre.spec_len()
        &&& post.entries@[i].0 == pre.entries@[i].0
        &&& upsert_point(pre.entries@[i].1.fn_map, post.entries@[i].1.fn_map, name, p)
        &&& forall|j: int|
            0 <= j < post.spec_len() && j != i ==> post.entries@[j] == pre.entries@[j]
    } else {
        &&& post.spec_len() == pre.spec_len() + 1
        &&& post.entries@[i].0@ == group
        &&& post.entries@[i].1.fn_map.spec_len() == 1
        &&& post.entries@[i].1.fn_map.entries@[0].0@ == name
        &&& post.entries@[i].1.fn_map.entries@[0].1.dataset@ =~= seq![p]
        &&& post.entries@ == pre.entries@.insert(i, post.entries@[i])
    }
}

/// The store of all observations, grouped by benchmark group, in
/// ascending case-insensitive group order.
pub struct CriterionData {
    pub data: StrMap<CriterionFnData>,
}

impl CriterionData {
    /// Both levels of the store are in ascending key order.
    pub open spec fn wf(self) -> bool {
        &&& self.data.wf()
        &&& forall|i: int|
            0 <= i < self.data.spec_len() ==> (#[trigger] self.data.entries@[i].1).wf()
                && self.data.entries@[i].1.fn_map.spec_len() > 0
    }

    pub fn new() -> (r: CriterionData)
        ensures
            r.data.entries@ =~= Seq::<(String, CriterionFnData)>::empty(),
            r.wf(),
    {
        CriterionData { data: StrMap::new() }
    }

    /// The distinct group names, in ascending key order, with the
    /// casing they were first seen under.
    pub fn groups(&self) -> (r: Vec<String>)
        ensures
            r@.len() == self.data.spec_len(),
            forall|i: int| 0 <= i < r@.len() ==> r@[i]@ == #[trigger] self.data.entries@[i].0@,
    {
        self.data.keys()
    }

    /// Record one observation under its group and variant.
    pub fn insert(
        &mut self,
        group: String,
        function: String,
        measurement: u64,
        iter_count: u32,
        time_unit: TimeUnit,
    )
        requires
            old(self).wf(),
        ensures
            final(self).wf(),
            upsert_group(
                old(self).data,
                final(self).data,
                group@,
                function@,
                (CriterionDataPoint { measurement, iter_count, time_unit }),
            ),
    {
        let ghost p = CriterionDataPoint { measurement, iter_count, time_unit };
        let ghost pre = self.data;
        let (pos, found) = self.data.locate(group.as_str());
        if found {
            let (k, mut fd) = self.data.remove_at(pos);
            fd.insert(function, measurement, iter_count, time_unit);
            proof {
                StrMap::lemma_remove_keeps_gap(pre, self.data, pos as int);
            }
            self.data.insert_kv_at(pos, k, fd);
            proof {
                assert(self.data.entries@ =~= pre.entries@.update(
                    pos as int,
                    self.data.entries@[pos as int],
                ));
                assert(self.data.lkey(pos as int) == lower_seq(group@));
                assert(self.data.contains_key(lower_seq(group@)));
                self.data.lemma_index_unique(pos as int);
                pre.lemma_index_unique(pos as int);
            }
        } else {
            let mut fd = CriterionFnData::new();
            fd.insert(function, measurement, iter_count, time_unit);
            self.data.insert_kv_at(pos, group, fd);
            proof {
                assert(self.data.lkey(pos as int) == lower_seq(group@));
                assert(self.data.contains_key(lower_seq(group@)));
                self.data.lemma_index_unique(pos as int);
            }
        }
    }

    pub fn get(&self, group: &str) -> (r: Option<&CriterionFnData>)
        requires
            self.wf(),
        ensures
            r is Some == self.data.contains_key(lower_seq(group@)),
            r matches Some(fd) ==> *fd == self.data.entries@[self.data.index_of(
                lower_seq(group@),
            )].1,
    {
        let (pos, found) = self.data.locate(group);
        if found {
            proof {
                self.data.lemma_index_unique(pos as int);
            }
            Some(&self.data.entries[pos].1)
        } else {
            None
        }
    }
}

} // verus!
