//! Building the exported collections from the store: the mean-time
//! and total-time series collections and the series-index table.
//!
//! A variant's series index is its position in its group's variant
//! map. The map is kept in ascending case-insensitive key order, so
//! the assignment is deterministic and every query of one store
//! yields the same index.
use vstd::prelude::*;

verus! {

use crate::infomap::SeriesInfo;
use crate::infomap::SeriesInfoMap;
use crate::infomap::series_info_fmt;
use crate::rawdata::CriterionData;
use crate::rawdata::CriterionFnData;
use crate::rawdata::CriterionDataSet;
use crate::strmap::StrMap;
use crate::textkey::lex_lt;
use crate::textkey::lower_seq;
use crate::tsxdata::MeanTimeData;
use crate::tsxdata::TotalTimeData;
use crate::tsxdata::TsxDataMap;
use crate::tsxdata::UnitMismatch;

/// The label table of one group matches its variant map position by
/// position: the variant at position j carries the label keys of
/// series index j.
pub open spec fn group_series_info(
    inner: StrMap<SeriesInfo>,
    fn_map: StrMap<CriterionDataSet>,
) -> bool {
    &&& inner.spec_len() == fn_map.spec_len()
    &&& forall|j: int|
        0 <= j < inner.spec_len() ==> (#[trigger] inner.entries@[j]).0@ == fn_map.entries@[j].0@
            && series_info_fmt(inner.entries@[j].1, j)
}

/// Every group has few enough variants for a dense 16-bit series
/// index, and every variant few enough observations for a 32-bit
/// sample count.
pub open spec fn indexable(store: CriterionData) -> bool {
    &&& forall|i: int|
        0 <= i < store.data.spec_len() ==> (#[trigger] store.data.entries@[i]).1.fn_map.spec_len()
            <= u16::MAX
    &&& forall|i: int, j: int|
        0 <= i < store.data.spec_len() && 0 <= j < store.data.entries@[i].1.fn_map.spec_len()
            ==> (#[trigger] store.data.entries@[i].1.fn_map.entries@[j]).1.dataset@.len()
            <= u32::MAX
}

/// The total number of observations over all variants of a group.
pub open spec fn points_count(s: Seq<(String, CriterionDataSet)>) -> int
    decreases s.len(),
{
    if s.len() == 0 {
        0
    } else {
        points_count(s.drop_last()) + s.last().1.dataset@.len()
    }
}

/// Every observation of every variant carries this unit.
pub open spec fn units_all(fn_map: StrMap<CriterionDataSet>, u: crate::timeunit::TimeUnit) -> bool {
    forall|i: int, j: int|
        0 <= i < fn_map.spec_len() && 0 <= j < fn_map.entries@[i].1.dataset@.len() ==> (
        #[trigger] fn_map.entries@[i].1.dataset@[j]).time_unit == u
}

/// The unit every fed observation must match: the unit the collection
/// has already recorded for the group, or, for a group the collection
/// does not hold yet, the unit of the first fed observation.
pub open spec fn fed_unit(
    pre: StrMap<crate::tsxdata::TsxDataSet>,
    gk: Seq<u32>,
    fn_map: StrMap<CriterionDataSet>,
) -> crate::timeunit::TimeUnit {
    if pre.contains_key(gk) {
        pre.entries@[pre.index_of(gk)].1.time_unit->Some_0
    } else {
        fn_map.entries@[0].1.dataset@[0].time_unit
    }
}

/// A stored group's observations all share one time unit.
pub open spec fn group_uniform(fd: CriterionFnData) -> bool {
    units_all(fd.fn_map, fd.fn_map.entries@[0].1.dataset@[0].time_unit)
}

/// Append one group's label table to the series-index map; the group
/// must order above everything already present.
fn push_group_series(si_map: &mut SeriesInfoMap, group: &str, fn_map: &CriterionFnData)
    requires
        old(si_map).wf(),
        fn_map.wf(),
        0 < fn_map.fn_map.spec_len() <= u16::MAX,
        forall|j: int|
            0 <= j < old(si_map).imap.info_map.spec_len() ==> lex_lt(
                #[trigger] old(si_map).imap.info_map.lkey(j),
                lower_seq(group@),
            ),
    ensures
        final(si_map).wf(),
        final(si_map).imap.info_map.spec_len() == old(si_map).imap.info_map.spec_len() + 1,
        forall|j: int|
            0 <= j < old(si_map).imap.info_map.spec_len()
                ==> final(si_map).imap.info_map.entries@[j]
                == #[trigger] old(si_map).imap.info_map.entries@[j],
        final(si_map).imap.info_map.entries@[old(si_map).imap.info_map.spec_len()].0@ == group@,
        group_series_info(
            final(si_map).imap.info_map.entries@[old(si_map).imap.info_map.spec_len()].1,
            fn_map.fn_map,
        ),
{
    let ghost base = old(si_map).imap.info_map;
    let ghost gk = lower_seq(group@);
    let n = fn_map.fn_map.len();
    let mut i: usize = 0;
    proof {
        assert forall|j: int| 0 <= j < base.spec_len() implies base.lkey(j) != gk by {
            crate::textkey::lemma_lex_total(base.lkey(j), gk);
        }
        assert(!base.contains_key(gk));
    }
    while i < n
        invariant
            i <= n,
            n == fn_map.fn_map.spec_len(),
            n <= u16::MAX,
            fn_map.wf(),
            si_map.wf(),
            base == old(si_map).imap.info_map,
            gk == lower_seq(group@),
            !base.contains_key(gk),
            forall|j: int| 0 <= j < base.spec_len() ==> lex_lt(#[trigger] base.lkey(j), gk),
            i == 0 ==> *si_map == *old(si_map),
            i > 0 ==> {
                &&& si_map.imap.info_map.spec_len() == base.spec_len() + 1
                &&& forall|j: int|
                    0 <= j < base.spec_len() ==> si_map.imap.info_map.entries@[j]
                        == #[trigger] base.entries@[j]
                &&& si_map.imap.info_map.entries@[base.spec_len()].0@ == group@
                &&& si_map.imap.info_map.entries@[base.spec_len()].1.spec_len() == i
                &&& forall|j: int|
                    0 <= j < i ==> (#[trigger] si_map.imap.info_map.entries@[base.spec_len()].1.entries@[j]).0@
                        == fn_map.fn_map.entries@[j].0@ && series_info_fmt(
                        si_map.imap.info_map.entries@[base.spec_len()].1.entries@[j].1,
                        j,
                    )
            },
        decreases n - i,
    {
        let ghost pre = *si_map;
        let fname = &fn_map.fn_map.entries[i].0;
        si_map.push(group, fname.as_str(), i as u16);
        proof {
            let si = choose|si: SeriesInfo|
                #[trigger] series_info_fmt(si, i as int) && crate::infomap::nested_set(
                    pre.imap.info_map,
                    si_map.imap.info_map,
                    group@,
                    fname@,
                    si,
                );
            let post = si_map.imap.info_map;
            let gi = post.index_of(gk);
            if i == 0 {
                // the group entered the map, holding one variant
                assert(!pre.imap.info_map.contains_key(gk));
                assert(post.entries@ == pre.imap.info_map.entries@.insert(gi, post.entries@[gi]));
                StrMap::lemma_insert_position_is_end(pre.imap.info_map, post, gi, gk);
                assert(gi == base.spec_len());
            } else {
                // the group's table grew by the next variant
                assert(pre.imap.info_map.lkey(base.spec_len()) == gk);
                pre.imap.info_map.lemma_index_unique(base.spec_len());
                assert(gi == base.spec_len());
                let inner_pre = pre.imap.info_map.entries@[gi].1;
                let inner_post = post.entries@[gi].1;
                let fk = lower_seq(fname@);
                assert forall|j: int| 0 <= j < inner_pre.spec_len() implies lex_lt(
                    #[trigger] inner_pre.lkey(j),
                    fk,
                ) by {
                    assert(inner_pre.entries@[j].0@ == fn_map.fn_map.entries@[j].0@);
                    assert(fn_map.fn_map.lkey(j) == inner_pre.lkey(j));
                    assert(lex_lt(fn_map.fn_map.lkey(j), fn_map.fn_map.lkey(i as int)));
                }
                assert forall|j: int| 0 <= j < inner_pre.spec_len() implies inner_pre.lkey(j)
                    != fk by {
                    crate::textkey::lemma_lex_total(inner_pre.lkey(j), fk);
                }
                assert(!inner_pre.contains_key(fk));
                let fi = inner_post.index_of(fk);
                assert(inner_post.entries@ == inner_pre.entries@.insert(
                    fi,
                    inner_post.entries@[fi],
                ));
                StrMap::lemma_insert_position_is_end(inner_pre, inner_post, fi, fk);
                assert(fi == i as int);
            }
        }
        i = i + 1;
    }
}

/// Series-index assignment is deterministic within one run: any two
/// series-index tables built from one store agree, for every group
/// and variant, on the variant's series index and label keys — both
/// carry, at every position, the labels of that position.
pub proof fn lemma_series_index_deterministic(
    store: CriterionData,
    m1: SeriesInfoMap,
    m2: SeriesInfoMap,
    gi: int,
    vi: int,
)
    requires
        0 <= gi < store.data.spec_len(),
        0 <= vi < store.data.entries@[gi].1.fn_map.spec_len(),
        m1.imap.info_map.spec_len() == store.data.spec_len(),
        m2.imap.info_map.spec_len() == store.data.spec_len(),
        forall|g: int|
            0 <= g < store.data.spec_len() ==> group_series_info(
                (#[trigger] m1.imap.info_map.entries@[g]).1,
                store.data.entries@[g].1.fn_map,
            ),
        forall|g: int|
            0 <= g < store.data.spec_len() ==> group_series_info(
                (#[trigger] m2.imap.info_map.entries@[g]).1,
                store.data.entries@[g].1.fn_map,
            ),
    ensures
        m1.imap.info_map.entries@[gi].1.entries@[vi].0@ == m2.imap.info_map.entries@[gi].1.entries@[vi].0@,
        m1.imap.info_map.entries@[gi].1.entries@[vi].1.y_index@
            == m2.imap.info_map.entries@[gi].1.entries@[vi].1.y_index@,
        m1.imap.info_map.entries@[gi].1.entries@[vi].1.ty_index@
            == m2.imap.info_map.entries@[gi].1.entries@[vi].1.ty_index@,
        m1.imap.info_map.entries@[gi].1.entries@[vi].1.dy_index@
            == m2.imap.info_map.entries@[gi].1.entries@[vi].1.dy_index@,
{
    assert(group_series_info(
        m1.imap.info_map.entries@[gi].1,
        store.data.entries@[gi].1.fn_map,
    ));
    assert(group_series_info(
        m2.imap.info_map.entries@[gi].1,
        store.data.entries@[gi].1.fn_map,
    ));
    assert(series_info_fmt(m1.imap.info_map.entries@[gi].1.entries@[vi].1, vi));
    assert(series_info_fmt(m2.imap.info_map.entries@[gi].1.entries@[vi].1, vi));
}

impl CriterionData {
    /// The series-index table: for one group, or for every group, the
    /// label keys of each variant's series, assigned 0, 1, 2, ... in
    /// ascending variant order. Asking for an unknown group yields
    /// nothing.
    pub fn series_info_map(&self, group_name: Option<&str>) -> (r: Option<SeriesInfoMap>)
        requires
            self.wf(),
            indexable(*self),
        ensures
            group_name matches Some(g) ==> (r is Some == self.data.contains_key(lower_seq(g@))),
            group_name matches Some(g) ==> (r matches Some(m) ==> {
                &&& m.imap.info_map.spec_len() == 1
                &&& m.imap.info_map.entries@[0].0@ == g@
                &&& group_series_info(
                    m.imap.info_map.entries@[0].1,
                    self.data.entries@[self.data.index_of(lower_seq(g@))].1.fn_map,
                )
            }),
            group_name is None ==> (r matches Some(m) ==> {
                &&& m.imap.info_map.spec_len() == self.data.spec_len()
                &&& forall|gi: int|
                    0 <= gi < self.data.spec_len() ==> (#[trigger] m.imap.info_map.entries@[gi]).0@
                        == self.data.entries@[gi].0@ && group_series_info(
                        m.imap.info_map.entries@[gi].1,
                        self.data.entries@[gi].1.fn_map,
                    )
            }),
            group_name is None ==> r is Some,
    {
        match group_name {
            Some(g) => {
                let (pos, found) = self.data.locate(g);
                if !found {
                    return None;
                }
                proof {
                    self.data.lemma_index_unique(pos as int);
                }
                let mut si_map = SeriesInfoMap::new();
                push_group_series(&mut si_map, g, &self.data.entries[pos].1);
                Some(si_map)
            },
            None => {
                let mut si_map = SeriesInfoMap::new();
                let n = self.data.len();
                let mut gi: usize = 0;
                while gi < n
                    invariant
                        gi <= n,
                        n == self.data.spec_len(),
                        self.wf(),
                        indexable(*self),
                        si_map.wf(),
                        si_map.imap.info_map.spec_len() == gi,
                        forall|j: int|
                            0 <= j < gi ==> (#[trigger] si_map.imap.info_map.entries@[j]).0@
                                == self.data.entries@[j].0@ && group_series_info(
                                si_map.imap.info_map.entries@[j].1,
                                self.data.entries@[j].1.fn_map,
                            ),
                    decreases n - gi,
                {
                    let gname = &self.data.entries[gi].0;
                    proof {
                        assert forall|j: int|
                            0 <= j < si_map.imap.info_map.spec_len() implies lex_lt(
                            #[trigger] si_map.imap.info_map.lkey(j),
                            lower_seq(gname@),
                        ) by {
                            assert(si_map.imap.info_map.entries@[j].0@ == self.data.entries@[j].0@);
                            assert(si_map.imap.info_map.lkey(j) == self.data.lkey(j));
                            assert(lex_lt(self.data.lkey(j), self.data.lkey(gi as int)));
                        }
                    }
                    let ghost prev = si_map;
                    push_group_series(&mut si_map, gname.as_str(), &self.data.entries[gi].1);
                    proof {
                        assert forall|j: int|
                            0 <= j <= gi implies (
                        #[trigger] si_map.imap.info_map.entries@[j]).0@ == self.data.entries@[j].0@
                            && group_series_info(
                            si_map.imap.info_map.entries@[j].1,
                            self.data.entries@[j].1.fn_map,
                        ) by {
                            if j < gi {
                                assert(si_map.imap.info_map.entries@[j] == prev.imap.info_map.entries@[j]);
                            }
                        }
                    }
                    gi = gi + 1;
                }
                Some(si_map)
            },
        }
    }

    /// Feed one group's observations into a collection, with the
    /// mean-time projection applied when asked for: variants in
    /// ascending order get series indices 0, 1, 2, ..., and each
    /// variant's points enter in insertion order. For a group the
    /// collection does not hold yet - the collection builders always
    /// start from an empty collection - the contract pins the whole
    /// result: series j carries variant j's name and exactly its
    /// values (raw, or divided by their iteration counts), the
    /// regression accumulator of every series saw exactly its
    /// (iteration count, value) pairs when the collection carries
    /// trend lines and stays empty otherwise, the x buckets hold one
    /// entry per observation, and the bucket keys are exactly the
    /// observed iteration counts. For a group already held, the unit
    /// discipline and the key set are stated; feeding then appends.
    /// It succeeds if and only if every fed observation carries the
    /// group's unit; the first differing observation aborts the
    /// build, naming both units.
    #[verifier::rlimit(100)]
    pub fn to_tsx_data(
        &self,
        group: &str,
        fn_map: &CriterionFnData,
        data: &mut TsxDataMap,
        mean_time: bool,
    ) -> (r: Result<(), UnitMismatch>)
        requires
            fn_map.wf(),
            0 < fn_map.fn_map.spec_len() <= u16::MAX,
            forall|i: int|
                0 <= i < fn_map.fn_map.spec_len() ==> (#[trigger] fn_map.fn_map.entries@[i]).1.dataset@.len()
                    <= u32::MAX,
            old(data).wf(),
        ensures
            final(data).wf(),
            final(data).trendlines == old(data).trendlines,
            final(data).pdfdata == old(data).pdfdata,
            final(data).dataset_name == old(data).dataset_name,
            forall|k: Seq<u32>|
                old(data).data.contains_key(k) ==> #[trigger] final(data).data.contains_key(k),
            forall|k: Seq<u32>|
                #[trigger] final(data).data.contains_key(k) ==> old(data).data.contains_key(k) || k
                    == lower_seq(group@),
            (r is Ok) == units_all(
                fn_map.fn_map,
                fed_unit(old(data).data, lower_seq(group@), fn_map.fn_map),
            ),
            r matches Err(e) ==> e.expected == fed_unit(
                old(data).data,
                lower_seq(group@),
                fn_map.fn_map,
            ) && e.actual != e.expected && (exists|i: int, j: int|
                0 <= i < fn_map.fn_map.spec_len() && 0 <= j
                    < fn_map.fn_map.entries@[i].1.dataset@.len() && (
                #[trigger] fn_map.fn_map.entries@[i].1.dataset@[j]).time_unit == e.actual),
            r is Ok ==> final(data).data.contains_key(lower_seq(group@)),
            r is Ok && !old(data).data.contains_key(lower_seq(group@)) ==> (forall|sj: u64|
                #![trigger final(data).data.entries@[final(data).data.index_of(lower_seq(group@))].1.uv_analysis.contains_key(sj)]
                sj < fn_map.fn_map.spec_len() ==> final(data).data.entries@[final(data).data.index_of(lower_seq(group@))].1.uv_analysis.contains_key(sj)
                    && final(data).data.entries@[final(data).data.index_of(lower_seq(group@))].1.uv_analysis.entries@[final(data).data.entries@[final(data).data.index_of(
                    lower_seq(group@),
)].1.uv_analysis.index_of(sj)].1.fn_name@ == fn_map.fn_map.entries@[sj as int].0@),
            r is Ok && !old(data).data.contains_key(lower_seq(group@)) ==> (forall|sj: u64|
                #![trigger final(data).data.entries@[final(data).data.index_of(lower_seq(group@))].1.uv_analysis.contains_key(sj)]
                sj < fn_map.fn_map.spec_len() ==> final(data).data.entries@[final(data).data.index_of(lower_seq(group@))].1.uv_analysis.contains_key(sj)
                    && final(data).data.entries@[final(data).data.index_of(lower_seq(group@))].1.uv_analysis.entries@[final(data).data.entries@[final(data).data.index_of(lower_seq(group@))].1.uv_analysis.index_of(sj)].1.sample@.len() == fn_map.fn_map.entries@[sj as int].1.dataset@.len()),
            r is Ok && !old(data).data.contains_key(lower_seq(group@)) ==> (forall|sj: u64, pj: int|
                #![trigger fn_map.fn_map.entries@[sj as int].1.dataset@[pj]]
                sj < fn_map.fn_map.spec_len() && 0 <= pj < final(data).data.entries@[final(data).data.index_of(lower_seq(group@))].1.uv_analysis.entries@[final(data).data.entries@[final(data).data.index_of(lower_seq(group@))].1.uv_analysis.index_of(sj)].1.sample@.len() ==> (mean_time
                    ==> crate::fbits::rounds_as(
                    final(data).data.entries@[final(data).data.index_of(lower_seq(group@))].1.uv_analysis.entries@[final(data).data.entries@[final(data).data.index_of(lower_seq(group@))].1.uv_analysis.index_of(sj)].1.sample@[pj],
                    crate::fbits::div_bits(
                        fn_map.fn_map.entries@[sj as int].1.dataset@[pj].measurement,
                        crate::fbits::f64_of_u32(fn_map.fn_map.entries@[sj as int].1.dataset@[pj].iter_count),
                    ),
                )) && (!mean_time ==> final(data).data.entries@[final(data).data.index_of(lower_seq(group@))].1.uv_analysis.entries@[final(data).data.entries@[final(data).data.index_of(lower_seq(group@))].1.uv_analysis.index_of(sj)].1.sample@[pj] == fn_map.fn_map.entries@[sj as int].1.dataset@[pj].measurement)),
            r is Ok && !old(data).data.contains_key(lower_seq(group@)) && old(data).trendlines
                ==> (forall|sj: u64|
                #![trigger final(data).data.entries@[final(data).data.index_of(lower_seq(group@))].1.bv_analysis.contains_key(sj)]
                sj < fn_map.fn_map.spec_len() ==> final(data).data.entries@[final(data).data.index_of(lower_seq(group@))].1.bv_analysis.contains_key(sj) && (final(data).data.entries@[final(data).data.index_of(lower_seq(group@))].1.bv_analysis.entries@[final(data).data.entries@[final(data).data.index_of(lower_seq(group@))].1.bv_analysis.index_of(sj)].1.obs@.len() == fn_map.fn_map.entries@[sj as int].1.dataset@.len())),
            r is Ok && !old(data).data.contains_key(lower_seq(group@)) && old(data).trendlines
                ==> (forall|sj: u64, pj: int|
                #![trigger fn_map.fn_map.entries@[sj as int].1.dataset@[pj]]
                sj < fn_map.fn_map.spec_len() && 0 <= pj < final(data).data.entries@[final(data).data.index_of(lower_seq(group@))].1.bv_analysis.entries@[final(data).data.entries@[final(data).data.index_of(lower_seq(group@))].1.bv_analysis.index_of(sj)].1.obs@.len() ==> final(data).data.entries@[final(data).data.index_of(lower_seq(group@))].1.bv_analysis.entries@[final(data).data.entries@[final(data).data.index_of(lower_seq(group@))].1.bv_analysis.index_of(sj)].1.obs@[pj].0 == fn_map.fn_map.entries@[sj as int].1.dataset@[pj].iter_count && (mean_time
                    ==> crate::fbits::rounds_as(
                    final(data).data.entries@[final(data).data.index_of(lower_seq(group@))].1.bv_analysis.entries@[final(data).data.entries@[final(data).data.index_of(lower_seq(group@))].1.bv_analysis.index_of(sj)].1.obs@[pj].1,
                    crate::fbits::div_bits(
                        fn_map.fn_map.entries@[sj as int].1.dataset@[pj].measurement,
                        crate::fbits::f64_of_u32(fn_map.fn_map.entries@[sj as int].1.dataset@[pj].iter_count),
                    ),
                )) && (!mean_time ==> final(data).data.entries@[final(data).data.index_of(lower_seq(group@))].1.bv_analysis.entries@[final(data).data.entries@[final(data).data.index_of(lower_seq(group@))].1.bv_analysis.index_of(sj)].1.obs@[pj].1 == fn_map.fn_map.entries@[sj as int].1.dataset@[pj].measurement)),
            r is Ok && !old(data).data.contains_key(lower_seq(group@)) && !old(data).trendlines
                ==> final(data).data.entries@[final(data).data.index_of(
                lower_seq(group@),
            )].1.bv_analysis.spec_len() == 0,
            r is Ok && !old(data).data.contains_key(lower_seq(group@))
                ==> crate::tsxdata::bucket_total(final(data).data.entries@[final(data).data.index_of(lower_seq(group@))].1.points.entries@)
                == points_count(fn_map.fn_map.entries@),
            r is Ok && !old(data).data.contains_key(lower_seq(group@)) ==> (forall|k: u64|
                #[trigger] final(data).data.entries@[final(data).data.index_of(lower_seq(group@))].1.points.contains_key(k) ==> (exists|fj: int, pj: int|
                    #![trigger fn_map.fn_map.entries@[fj].1.dataset@[pj]]
                    0 <= fj < fn_map.fn_map.spec_len() && 0 <= pj < (fn_map.fn_map.entries@[fj].1.dataset@.len()) && fn_map.fn_map.entries@[fj].1.dataset@[pj].iter_count
                        as u64 == k)),
            r is Ok && !old(data).data.contains_key(lower_seq(group@)) ==> (forall|fj: int, pj: int|
                #![trigger fn_map.fn_map.entries@[fj].1.dataset@[pj]]
                0 <= fj < fn_map.fn_map.spec_len() && 0 <= pj < (fn_map.fn_map.entries@[fj].1.dataset@.len()) ==> final(data).data.entries@[final(data).data.index_of(lower_seq(group@))].1.points.contains_key(
                    fn_map.fn_map.entries@[fj].1.dataset@[pj].iter_count as u64,
                )),
    {
        let ghost og = !old(data).data.contains_key(lower_seq(group@));
        let ghost gk = lower_seq(group@);
        let ghost fu = fed_unit(old(data).data, gk, fn_map.fn_map);
        let n = fn_map.fn_map.len();
        let mut fi: usize = 0;
        while fi < n
            invariant
                fi <= n,
                n == fn_map.fn_map.spec_len(),
                0 < n <= u16::MAX,
                forall|ii: int|
                    0 <= ii < fn_map.fn_map.spec_len() ==> (#[trigger] fn_map.fn_map.entries@[ii]).1.dataset@.len()
                        <= u32::MAX,
                fn_map.wf(),
                data.wf(),
                data.trendlines == old(data).trendlines,
                data.pdfdata == old(data).pdfdata,
                data.dataset_name == old(data).dataset_name,
                forall|k: Seq<u32>|
                    old(data).data.contains_key(k) ==> #[trigger] data.data.contains_key(k),
                fi > 0 ==> data.data.contains_key(lower_seq(group@)),
                og == !old(data).data.contains_key(gk),
                gk == lower_seq(group@),
                fu == fed_unit(old(data).data, gk, fn_map.fn_map),
                data.data.contains_key(gk) ==> data.data.entries@[data.data.index_of(
                    gk,
                )].1.time_unit == Some(fu),
                forall|i: int, j: int|
                    0 <= i < fi && 0 <= j < fn_map.fn_map.entries@[i].1.dataset@.len() ==> (
                    #[trigger] fn_map.fn_map.entries@[i].1.dataset@[j]).time_unit == fu,
                forall|k: Seq<u32>|
                    #[trigger] data.data.contains_key(k) ==> old(data).data.contains_key(k) || k
                        == gk,
                fi == 0 ==> *data == *old(data),
                og && fi > 0 ==> (forall|sj: u64|
                    #![trigger data.data.entries@[data.data.index_of(gk)].1.uv_analysis.contains_key(sj)]
                    sj < fi as int ==> data.data.entries@[data.data.index_of(gk)].1.uv_analysis.contains_key(sj)
                        && data.data.entries@[data.data.index_of(gk)].1.uv_analysis.entries@[data.data.entries@[data.data.index_of(
                        gk,
                    )].1.uv_analysis.index_of(sj)].1.fn_name@ == fn_map.fn_map.entries@[sj as int].0@),
                og && fi > 0 ==> (forall|sj: u64|
                    #![trigger data.data.entries@[data.data.index_of(gk)].1.uv_analysis.contains_key(sj)]
                    sj < fi as int ==> data.data.entries@[data.data.index_of(gk)].1.uv_analysis.contains_key(sj)
                        && data.data.entries@[data.data.index_of(gk)].1.uv_analysis.entries@[data.data.entries@[data.data.index_of(gk)].1.uv_analysis.index_of(sj)].1.sample@.len() == fn_map.fn_map.entries@[sj as int].1.dataset@.len()),
                og && fi > 0 ==> (forall|sj: u64, pj: int|
                    #![trigger fn_map.fn_map.entries@[sj as int].1.dataset@[pj]]
                    sj < fi as int && 0 <= pj < data.data.entries@[data.data.index_of(gk)].1.uv_analysis.entries@[data.data.entries@[data.data.index_of(gk)].1.uv_analysis.index_of(sj)].1.sample@.len() ==> (mean_time
                        ==> crate::fbits::rounds_as(
                        data.data.entries@[data.data.index_of(gk)].1.uv_analysis.entries@[data.data.entries@[data.data.index_of(gk)].1.uv_analysis.index_of(sj)].1.sample@[pj],
                        crate::fbits::div_bits(
                            fn_map.fn_map.entries@[sj as int].1.dataset@[pj].measurement,
                            crate::fbits::f64_of_u32(fn_map.fn_map.entries@[sj as int].1.dataset@[pj].iter_count),
                        ),
                    )) && (!mean_time ==> data.data.entries@[data.data.index_of(gk)].1.uv_analysis.entries@[data.data.entries@[data.data.index_of(gk)].1.uv_analysis.index_of(sj)].1.sample@[pj] == fn_map.fn_map.entries@[sj as int].1.dataset@[pj].measurement)),
                og && fi > 0 && data.trendlines ==> (forall|sj: u64|
                    #![trigger data.data.entries@[data.data.index_of(gk)].1.bv_analysis.contains_key(sj)]
                    sj < fi as int ==> data.data.entries@[data.data.index_of(gk)].1.bv_analysis.contains_key(sj) && (data.data.entries@[data.data.index_of(gk)].1.bv_analysis.entries@[data.data.entries@[data.data.index_of(gk)].1.bv_analysis.index_of(sj)].1.obs@.len() == fn_map.fn_map.entries@[sj as int].1.dataset@.len())),
                og && fi > 0 && data.trendlines ==> (forall|sj: u64, pj: int|
                    #![trigger fn_map.fn_map.entries@[sj as int].1.dataset@[pj]]
                    sj < fi as int && 0 <= pj < data.data.entries@[data.data.index_of(gk)].1.bv_analysis.entries@[data.data.entries@[data.data.index_of(gk)].1.bv_analysis.index_of(sj)].1.obs@.len() ==> data.data.entries@[data.data.index_of(gk)].1.bv_analysis.entries@[data.data.entries@[data.data.index_of(gk)].1.bv_analysis.index_of(sj)].1.obs@[pj].0 == fn_map.fn_map.entries@[sj as int].1.dataset@[pj].iter_count && (mean_time
                        ==> crate::fbits::rounds_as(
                        data.data.entries@[data.data.index_of(gk)].1.bv_analysis.entries@[data.data.entries@[data.data.index_of(gk)].1.bv_analysis.index_of(sj)].1.obs@[pj].1,
                        crate::fbits::div_bits(
                            fn_map.fn_map.entries@[sj as int].1.dataset@[pj].measurement,
                            crate::fbits::f64_of_u32(fn_map.fn_map.entries@[sj as int].1.dataset@[pj].iter_count),
                        ),
                    )) && (!mean_time ==> data.data.entries@[data.data.index_of(gk)].1.bv_analysis.entries@[data.data.entries@[data.data.index_of(gk)].1.bv_analysis.index_of(sj)].1.obs@[pj].1 == fn_map.fn_map.entries@[sj as int].1.dataset@[pj].measurement)),
                og && fi > 0 && !data.trendlines ==> data.data.entries@[data.data.index_of(
                    gk,
                )].1.bv_analysis.spec_len() == 0,
                og && fi > 0 ==> crate::tsxdata::bucket_total(data.data.entries@[data.data.index_of(gk)].1.points.entries@)
                    == points_count(fn_map.fn_map.entries@.take(fi as int)),
                og && fi > 0 ==> (forall|k: u64|
                    #[trigger] data.data.entries@[data.data.index_of(gk)].1.points.contains_key(k) ==> (exists|fj: int, pj: int|
                        #![trigger fn_map.fn_map.entries@[fj].1.dataset@[pj]]
                        0 <= fj < fi as int && 0 <= pj < (fn_map.fn_map.entries@[fj].1.dataset@.len()) && fn_map.fn_map.entries@[fj].1.dataset@[pj].iter_count
                            as u64 == k)),
                og && fi > 0 ==> (forall|fj: int, pj: int|
                    #![trigger fn_map.fn_map.entries@[fj].1.dataset@[pj]]
                    0 <= fj < fi as int && 0 <= pj < (fn_map.fn_map.entries@[fj].1.dataset@.len()) ==> data.data.entries@[data.data.index_of(gk)].1.points.contains_key(
                        fn_map.fn_map.entries@[fj].1.dataset@[pj].iter_count as u64,
                    )),
                og && fi > 0 ==> (forall|k: u64|
                    #[trigger] data.data.entries@[data.data.index_of(gk)].1.uv_analysis.contains_key(k) ==> k
                        < fi as int),
                og && fi > 0 && data.trendlines ==> (forall|k: u64|
                    #[trigger] data.data.entries@[data.data.index_of(gk)].1.bv_analysis.contains_key(k) ==> k
                        < fi as int),
            decreases n - fi,
        {
            let dn = fn_map.fn_map.entries[fi].1.dataset.len();
            let mut di: usize = 0;
            proof {
                if og && fi > 0 {
                    assert forall|sj: u64|
                        sj < fi as int implies #[trigger] data.data.entries@[data.data.index_of(gk)].1.uv_analysis.contains_key(sj)
                        && data.data.entries@[data.data.index_of(gk)].1.uv_analysis.entries@[data.data.entries@[data.data.index_of(gk)].1.uv_analysis.index_of(sj)].1.fn_name@
                        == fn_map.fn_map.entries@[sj as int].0@ by {
                        assert(data.data.entries@[data.data.index_of(gk)].1.uv_analysis.contains_key(sj));
                    }
                    assert forall|sj: u64| sj < fi as int implies #[trigger] data.data.entries@[data.data.index_of(gk)].1.uv_analysis.contains_key(sj)
                        && ((sj < fi as u64 ==> data.data.entries@[data.data.index_of(gk)].1.uv_analysis.entries@[data.data.entries@[data.data.index_of(gk)].1.uv_analysis.index_of(sj)].1.sample@.len() == fn_map.fn_map.entries@[sj as int].1.dataset@.len()) && (sj == fi as u64
                            ==> data.data.entries@[data.data.index_of(gk)].1.uv_analysis.entries@[data.data.entries@[data.data.index_of(gk)].1.uv_analysis.index_of(sj)].1.sample@.len() == di)) by {
                        assert(data.data.entries@[data.data.index_of(gk)].1.uv_analysis.contains_key(sj));
                    }
                    assert forall|sj: u64, pj: int|
                        sj < fi as int && 0 <= pj < data.data.entries@[data.data.index_of(gk)].1.uv_analysis.entries@[data.data.entries@[data.data.index_of(gk)].1.uv_analysis.index_of(sj)].1.sample@.len() implies (mean_time
                        ==> crate::fbits::rounds_as(
                        data.data.entries@[data.data.index_of(gk)].1.uv_analysis.entries@[data.data.entries@[data.data.index_of(gk)].1.uv_analysis.index_of(sj)].1.sample@[pj],
                        crate::fbits::div_bits(
                            (#[trigger] fn_map.fn_map.entries@[sj as int].1.dataset@[pj]).measurement,
                            crate::fbits::f64_of_u32(fn_map.fn_map.entries@[sj as int].1.dataset@[pj].iter_count),
                        ),
                    )) && (!mean_time ==> data.data.entries@[data.data.index_of(gk)].1.uv_analysis.entries@[data.data.entries@[data.data.index_of(gk)].1.uv_analysis.index_of(sj)].1.sample@[pj] == fn_map.fn_map.entries@[sj as int].1.dataset@[pj].measurement) by {
                        assert(data.data.entries@[data.data.index_of(gk)].1.uv_analysis.contains_key(sj));
                        assert(fn_map.fn_map.entries@[sj as int].1.dataset@[pj] == fn_map.fn_map.entries@[sj as int].1.dataset@[pj]);
                    }
                    if data.trendlines {
                        assert forall|sj: u64| sj < fi as int implies #[trigger] data.data.entries@[data.data.index_of(gk)].1.bv_analysis.contains_key(sj)
                            && ((sj < fi as u64 ==> data.data.entries@[data.data.index_of(gk)].1.bv_analysis.entries@[data.data.entries@[data.data.index_of(gk)].1.bv_analysis.index_of(sj)].1.obs@.len() == fn_map.fn_map.entries@[sj as int].1.dataset@.len()) && (sj == fi as u64
                            ==> data.data.entries@[data.data.index_of(gk)].1.bv_analysis.entries@[data.data.entries@[data.data.index_of(gk)].1.bv_analysis.index_of(sj)].1.obs@.len() == di)) by {
                            assert(data.data.entries@[data.data.index_of(gk)].1.bv_analysis.contains_key(sj));
                        }
                        assert forall|sj: u64, pj: int|
                            sj < fi as int && 0 <= pj < data.data.entries@[data.data.index_of(gk)].1.bv_analysis.entries@[data.data.entries@[data.data.index_of(gk)].1.bv_analysis.index_of(sj)].1.obs@.len() implies data.data.entries@[data.data.index_of(gk)].1.bv_analysis.entries@[data.data.entries@[data.data.index_of(gk)].1.bv_analysis.index_of(sj)].1.obs@[pj].0
                            == (#[trigger] fn_map.fn_map.entries@[sj as int].1.dataset@[pj]).iter_count && (mean_time
                            ==> crate::fbits::rounds_as(
                            data.data.entries@[data.data.index_of(gk)].1.bv_analysis.entries@[data.data.entries@[data.data.index_of(gk)].1.bv_analysis.index_of(sj)].1.obs@[pj].1,
                            crate::fbits::div_bits(
                                fn_map.fn_map.entries@[sj as int].1.dataset@[pj].measurement,
                                crate::fbits::f64_of_u32(fn_map.fn_map.entries@[sj as int].1.dataset@[pj].iter_count),
                            ),
                        )) && (!mean_time ==> data.data.entries@[data.data.index_of(gk)].1.bv_analysis.entries@[data.data.entries@[data.data.index_of(gk)].1.bv_analysis.index_of(sj)].1.obs@[pj].1 == fn_map.fn_map.entries@[sj as int].1.dataset@[pj].measurement) by {
                            assert(data.data.entries@[data.data.index_of(gk)].1.bv_analysis.contains_key(sj));
                            assert(fn_map.fn_map.entries@[sj as int].1.dataset@[pj] == fn_map.fn_map.entries@[sj as int].1.dataset@[pj]);
                        }
                    }
                    assert forall|k: u64| #[trigger] data.data.entries@[data.data.index_of(gk)].1.points.contains_key(k) implies (exists|fj: int, pj: int|
                        #![trigger fn_map.fn_map.entries@[fj].1.dataset@[pj]]
                        0 <= fj < fi as int + 1 && 0 <= pj < (if fj < fi as int { fn_map.fn_map.entries@[fj].1.dataset@.len() as int } else { di as int })
                            && fn_map.fn_map.entries@[fj].1.dataset@[pj].iter_count as u64 == k) by {
                        let (fj, pj) = choose|fj: int, pj: int|
                            #![trigger fn_map.fn_map.entries@[fj].1.dataset@[pj]]
                            0 <= fj < fi as int && 0 <= pj < fn_map.fn_map.entries@[fj].1.dataset@.len()
                                && fn_map.fn_map.entries@[fj].1.dataset@[pj].iter_count as u64 == k;
                        assert(0 <= fj < fi as int + 1 && 0 <= pj < (if fj < fi as int { fn_map.fn_map.entries@[fj].1.dataset@.len() as int } else { di as int })
                            && fn_map.fn_map.entries@[fj].1.dataset@[pj].iter_count as u64 == k);
                    }
                    assert forall|fj: int, pj: int|
                        0 <= fj < fi as int + 1 && 0 <= pj < (if fj < fi as int { fn_map.fn_map.entries@[fj].1.dataset@.len() as int } else { di as int }) implies data.data.entries@[data.data.index_of(gk)].1.points.contains_key(
                        (#[trigger] fn_map.fn_map.entries@[fj].1.dataset@[pj]).iter_count as u64,
                    ) by {
                        assert(fj < fi as int);
                    }
                }
            }
            while di < dn
                invariant
                    di <= dn,
                    fi < n,
                    n == fn_map.fn_map.spec_len(),
                    n <= u16::MAX,
                    forall|ii: int|
                        0 <= ii < fn_map.fn_map.spec_len() ==> (#[trigger] fn_map.fn_map.entries@[ii]).1.dataset@.len()
                            <= u32::MAX,
                    dn == fn_map.fn_map.entries@[fi as int].1.dataset@.len(),
                    fn_map.wf(),
                    data.wf(),
                    data.trendlines == old(data).trendlines,
                    data.pdfdata == old(data).pdfdata,
                    data.dataset_name == old(data).dataset_name,
                    forall|k: Seq<u32>|
                        old(data).data.contains_key(k) ==> #[trigger] data.data.contains_key(k),
                    fi > 0 || di > 0 ==> data.data.contains_key(lower_seq(group@)),
                    og == !old(data).data.contains_key(gk),
                    gk == lower_seq(group@),
                    fu == fed_unit(old(data).data, gk, fn_map.fn_map),
                    data.data.contains_key(gk) ==> data.data.entries@[data.data.index_of(
                        gk,
                    )].1.time_unit == Some(fu),
                    forall|i: int, j: int|
                        0 <= i < fi && 0 <= j < fn_map.fn_map.entries@[i].1.dataset@.len() ==> (
                        #[trigger] fn_map.fn_map.entries@[i].1.dataset@[j]).time_unit == fu,
                    forall|j: int|
                        0 <= j < di ==> (#[trigger] fn_map.fn_map.entries@[fi as int].1.dataset@[j]).time_unit
                            == fu,
                    forall|k: Seq<u32>|
                        #[trigger] data.data.contains_key(k) ==> old(data).data.contains_key(k)
                            || k == gk,
                    fi == 0 && di == 0 ==> *data == *old(data),
                    og && (fi > 0 || di > 0) ==> (forall|sj: u64|
                        #![trigger data.data.entries@[data.data.index_of(gk)].1.uv_analysis.contains_key(sj)]
                        sj < (if di > 0 {
                        fi as int + 1
                    } else {
                        fi as int
                    }) ==> data.data.entries@[data.data.index_of(gk)].1.uv_analysis.contains_key(sj)
                            && data.data.entries@[data.data.index_of(gk)].1.uv_analysis.entries@[data.data.entries@[data.data.index_of(
                            gk,
                        )].1.uv_analysis.index_of(sj)].1.fn_name@ == fn_map.fn_map.entries@[sj as int].0@),
                    og && (fi > 0 || di > 0) ==> (forall|sj: u64|
                        #![trigger data.data.entries@[data.data.index_of(gk)].1.uv_analysis.contains_key(sj)]
                        sj < (if di > 0 {
                        fi as int + 1
                    } else {
                        fi as int
                    }) ==> data.data.entries@[data.data.index_of(gk)].1.uv_analysis.contains_key(
                        sj,
                    ) && (sj < fi as u64 ==> data.data.entries@[data.data.index_of(gk)].1.uv_analysis.entries@[data.data.entries@[data.data.index_of(gk)].1.uv_analysis.index_of(sj)].1.sample@.len() == fn_map.fn_map.entries@[sj as int].1.dataset@.len()) && (sj
                            == fi as u64 ==> data.data.entries@[data.data.index_of(gk)].1.uv_analysis.entries@[data.data.entries@[data.data.index_of(gk)].1.uv_analysis.index_of(sj)].1.sample@.len() == di)),
                    og && (fi > 0 || di > 0) ==> (forall|sj: u64, pj: int|
                        #![trigger fn_map.fn_map.entries@[sj as int].1.dataset@[pj]]
                        sj < (if di > 0 {
                        fi as int + 1
                    } else {
                        fi as int
                    }) && 0 <= pj < data.data.entries@[data.data.index_of(gk)].1.uv_analysis.entries@[data.data.entries@[data.data.index_of(gk)].1.uv_analysis.index_of(sj)].1.sample@.len() ==> (mean_time
                            ==> crate::fbits::rounds_as(
                            data.data.entries@[data.data.index_of(gk)].1.uv_analysis.entries@[data.data.entries@[data.data.index_of(gk)].1.uv_analysis.index_of(sj)].1.sample@[pj],
                            crate::fbits::div_bits(
                                fn_map.fn_map.entries@[sj as int].1.dataset@[pj].measurement,
                                crate::fbits::f64_of_u32(fn_map.fn_map.entries@[sj as int].1.dataset@[pj].iter_count),
                            ),
                        )) && (!mean_time ==> data.data.entries@[data.data.index_of(gk)].1.uv_analysis.entries@[data.data.entries@[data.data.index_of(gk)].1.uv_analysis.index_of(sj)].1.sample@[pj] == fn_map.fn_map.entries@[sj as int].1.dataset@[pj].measurement)),
                    og && (fi > 0 || di > 0) && data.trendlines ==> (forall|sj: u64|
                        #![trigger data.data.entries@[data.data.index_of(gk)].1.bv_analysis.contains_key(sj)]
                        sj < (if di > 0 {
                        fi as int + 1
                    } else {
                        fi as int
                    }) ==> data.data.entries@[data.data.index_of(gk)].1.bv_analysis.contains_key(sj) && ((sj < fi as u64 ==> data.data.entries@[data.data.index_of(gk)].1.bv_analysis.entries@[data.data.entries@[data.data.index_of(gk)].1.bv_analysis.index_of(sj)].1.obs@.len() == fn_map.fn_map.entries@[sj as int].1.dataset@.len()) && (sj == fi as u64
                            ==> data.data.entries@[data.data.index_of(gk)].1.bv_analysis.entries@[data.data.entries@[data.data.index_of(gk)].1.bv_analysis.index_of(sj)].1.obs@.len() == di))),
                    og && (fi > 0 || di > 0) && data.trendlines ==> (forall|sj: u64, pj: int|
                        #![trigger fn_map.fn_map.entries@[sj as int].1.dataset@[pj]]
                        sj < (if di > 0 {
                        fi as int + 1
                    } else {
                        fi as int
                    }) && 0 <= pj < data.data.entries@[data.data.index_of(gk)].1.bv_analysis.entries@[data.data.entries@[data.data.index_of(gk)].1.bv_analysis.index_of(sj)].1.obs@.len() ==> data.data.entries@[data.data.index_of(gk)].1.bv_analysis.entries@[data.data.entries@[data.data.index_of(gk)].1.bv_analysis.index_of(sj)].1.obs@[pj].0 == fn_map.fn_map.entries@[sj as int].1.dataset@[pj].iter_count && (mean_time
                            ==> crate::fbits::rounds_as(
                            data.data.entries@[data.data.index_of(gk)].1.bv_analysis.entries@[data.data.entries@[data.data.index_of(gk)].1.bv_analysis.index_of(sj)].1.obs@[pj].1,
                            crate::fbits::div_bits(
                                fn_map.fn_map.entries@[sj as int].1.dataset@[pj].measurement,
                                crate::fbits::f64_of_u32(fn_map.fn_map.entries@[sj as int].1.dataset@[pj].iter_count),
                            ),
                        )) && (!mean_time ==> data.data.entries@[data.data.index_of(gk)].1.bv_analysis.entries@[data.data.entries@[data.data.index_of(gk)].1.bv_analysis.index_of(sj)].1.obs@[pj].1 == fn_map.fn_map.entries@[sj as int].1.dataset@[pj].measurement)),
                    og && (fi > 0 || di > 0) && !data.trendlines ==> data.data.entries@[data.data.index_of(
                        gk,
                    )].1.bv_analysis.spec_len() == 0,
                    og && (fi > 0 || di > 0) ==> crate::tsxdata::bucket_total(data.data.entries@[data.data.index_of(gk)].1.points.entries@)
                        == points_count(fn_map.fn_map.entries@.take(fi as int)) + di,
                    og && (fi > 0 || di > 0) ==> (forall|k: u64|
                        #[trigger] data.data.entries@[data.data.index_of(gk)].1.points.contains_key(k) ==> (exists|fj: int, pj: int|
                            #![trigger fn_map.fn_map.entries@[fj].1.dataset@[pj]]
                            0 <= fj < fi as int + 1 && 0 <= pj < (if fj < fi as int { fn_map.fn_map.entries@[fj].1.dataset@.len() as int } else { di as int }) && fn_map.fn_map.entries@[fj].1.dataset@[pj].iter_count
                                as u64 == k)),
                    og && (fi > 0 || di > 0) ==> (forall|fj: int, pj: int|
                        #![trigger fn_map.fn_map.entries@[fj].1.dataset@[pj]]
                        0 <= fj < fi as int + 1 && 0 <= pj < (if fj < fi as int { fn_map.fn_map.entries@[fj].1.dataset@.len() as int } else { di as int }) ==> data.data.entries@[data.data.index_of(gk)].1.points.contains_key(
                            fn_map.fn_map.entries@[fj].1.dataset@[pj].iter_count as u64,
                        )),
                    og && (fi > 0 || di > 0) ==> (forall|k: u64|
                        #[trigger] data.data.entries@[data.data.index_of(gk)].1.uv_analysis.contains_key(k) ==> k
                            < (if di > 0 {
                        fi as int + 1
                    } else {
                        fi as int
                    })),
                    og && (fi > 0 || di > 0) && data.trendlines ==> (forall|k: u64|
                        #[trigger] data.data.entries@[data.data.index_of(gk)].1.bv_analysis.contains_key(k) ==> k
                            < (if di > 0 {
                        fi as int + 1
                    } else {
                        fi as int
                    })),
                decreases dn - di,
            {
                let ghost before = data.data;
                let datapoint = &fn_map.fn_map.entries[fi].1.dataset[di];
                let pushed_point = if mean_time {
                    datapoint.as_mean_time()
                } else {
                    *datapoint
                };
                let res = data.push(
                    group,
                    fn_map.fn_map.entries[fi].0.as_str(),
                    &pushed_point,
                    fi as u16,
                );
                match res {
                    Err(e) => {
                        proof {
                            assert forall|k: Seq<u32>|
                                before.contains_key(k) implies #[trigger] data.data.contains_key(
                                k,
                            ) by {
                                let j = choose|j: int|
                                    0 <= j < before.spec_len() && before.lkey(j) == k;
                                assert(data.data.entries@[j] == before.entries@[j]);
                                assert(data.data.lkey(j) == k);
                            }
                            assert forall|k: Seq<u32>|
                                #[trigger] data.data.contains_key(k) implies before.contains_key(
                                k,
                            ) by {
                                let j = choose|j: int|
                                    0 <= j < data.data.spec_len() && data.data.lkey(j) == k;
                                assert(before.entries@[j] == data.data.entries@[j]);
                                assert(before.lkey(j) == k);
                            }
                            // the refused observation's unit differs from the
                            // group's unit
                            assert(before.contains_key(gk));
                            assert(before.entries@[before.index_of(gk)].1.time_unit == Some(fu));
                            assert(e.expected == fu);
                            assert(e.actual == datapoint.time_unit);
                            assert(e.actual != fu);
                            assert(fn_map.fn_map.entries@[fi as int].1.dataset@[di as int].time_unit
                                == e.actual);
                            assert(!units_all(fn_map.fn_map, fu));
                        }
                        return Err(e);
                    },
                    Ok(()) => {},
                }
                proof {
                    crate::tsxdata::lemma_push_keeps_keys(
                        before,
                        data.data,
                        group@,
                        fn_map.fn_map.entries@[fi as int].0@,
                        pushed_point,
                        fi as u16,
                        old(data).trendlines,
                    );
                    // the accepted observation's unit is the group's unit
                    if before.contains_key(gk) {
                        assert(before.entries@[before.index_of(gk)].1.time_unit == Some(fu));
                        assert(Some(pushed_point.time_unit) == before.entries@[before.index_of(
                            gk,
                        )].1.time_unit);
                    } else {
                        assert(fi == 0 && di == 0);
                        assert(og);
                        assert(pushed_point.time_unit
                            == fn_map.fn_map.entries@[0].1.dataset@[0].time_unit);
                    }
                    assert(pushed_point.time_unit == fu);
                    assert(fn_map.fn_map.entries@[fi as int].1.dataset@[di as int].time_unit
                        == fu);
                    assert(data.data.entries@[data.data.index_of(gk)].1.time_unit == Some(fu));
                    assert forall|k: Seq<u32>|
                        #[trigger] data.data.contains_key(k) implies old(
                        data,
                    ).data.contains_key(k) || k == gk by {
                        if k != gk {
                            assert(before.contains_key(k));
                        }
                    }
                    if og {
                        let ghost upto_pre: int = if di > 0 {
                            fi as int + 1
                        } else {
                            fi as int
                        };
                        // the observation joined its x bucket
                        if before.contains_key(gk) {
                            crate::tsxdata::lemma_bucket_push_keeps(
                                before.entries@[before.index_of(gk)].1.points,
                                data.data.entries@[data.data.index_of(gk)].1.points,
                                pushed_point.iter_count as u64,
                                (crate::tsxdata::TsxYDataPoint(pushed_point.measurement, fi as u16)),
                            );
                        } else {
                            assert(fi == 0 && di == 0);
                            assert(data.data.entries@[data.data.index_of(gk)].1.points.spec_len() == 1);
                            assert(data.data.entries@[data.data.index_of(gk)].1.points.entries@.drop_last() =~= Seq::<(u64, Vec<crate::tsxdata::TsxYDataPoint>)>::empty());
                            assert(crate::tsxdata::bucket_total(
                                Seq::<(u64, Vec<crate::tsxdata::TsxYDataPoint>)>::empty(),
                            ) == 0);
                            assert(data.data.entries@[data.data.index_of(gk)].1.points.entries@.last()
                                == data.data.entries@[data.data.index_of(gk)].1.points.entries@[0]);
                            assert(data.data.entries@[data.data.index_of(gk)].1.points.entries@[0].1@.len() == 1);
                            assert(crate::tsxdata::bucket_total(data.data.entries@[data.data.index_of(gk)].1.points.entries@) == 1);
                            assert(data.data.entries@[data.data.index_of(gk)].1.points.key(0) == pushed_point.iter_count as u64);
                            assert(data.data.entries@[data.data.index_of(gk)].1.points.contains_key(pushed_point.iter_count as u64));
                        }
                        assert(pushed_point.iter_count == fn_map.fn_map.entries@[fi as int].1.dataset@[di as int].iter_count);
                        assert forall|k: u64| #[trigger] data.data.entries@[data.data.index_of(gk)].1.points.contains_key(k) implies (exists|fj: int, pj: int|
                            #![trigger fn_map.fn_map.entries@[fj].1.dataset@[pj]]
                            0 <= fj < fi as int + 1 && 0 <= pj < (if fj < fi as int { fn_map.fn_map.entries@[fj].1.dataset@.len() as int } else { di as int + 1 })
                                && fn_map.fn_map.entries@[fj].1.dataset@[pj].iter_count as u64 == k) by {
                            if before.contains_key(gk) && before.entries@[before.index_of(gk)].1.points.contains_key(k) {
                                let (fj, pj) = choose|fj: int, pj: int|
                                    #![trigger fn_map.fn_map.entries@[fj].1.dataset@[pj]]
                                    0 <= fj < fi as int + 1 && 0 <= pj < (if fj < fi as int { fn_map.fn_map.entries@[fj].1.dataset@.len() as int } else { di as int })
                                        && fn_map.fn_map.entries@[fj].1.dataset@[pj].iter_count as u64 == k;
                                assert(0 <= fj < fi as int + 1 && 0 <= pj < (if fj < fi as int { fn_map.fn_map.entries@[fj].1.dataset@.len() as int } else { di as int + 1 })
                                    && fn_map.fn_map.entries@[fj].1.dataset@[pj].iter_count as u64 == k);
                            } else {
                                assert(k == pushed_point.iter_count as u64);
                                assert(fn_map.fn_map.entries@[fi as int].1.dataset@[di as int].iter_count as u64 == k);
                            }
                        }
                        assert forall|fj: int, pj: int|
                            0 <= fj < fi as int + 1 && 0 <= pj < (if fj < fi as int { fn_map.fn_map.entries@[fj].1.dataset@.len() as int } else { di as int + 1 }) implies data.data.entries@[data.data.index_of(gk)].1.points.contains_key(
                            (#[trigger] fn_map.fn_map.entries@[fj].1.dataset@[pj]).iter_count as u64,
                        ) by {
                            if fj < fi as int || pj < di as int {
                                assert(before.entries@[before.index_of(gk)].1.points.contains_key(fn_map.fn_map.entries@[fj].1.dataset@[pj].iter_count as u64));
                            } else {
                                assert(fj == fi as int && pj == di as int);
                                assert(data.data.entries@[data.data.index_of(gk)].1.points.contains_key(pushed_point.iter_count as u64));
                            }
                        }

                        if before.contains_key(gk) {
                            if fi == 0 && di == 0 {
                                assert(before == old(data).data);
                                assert(false);
                            }
                            assert(data.data.index_of(gk) == before.index_of(gk));
                            assert(before.entries@[before.index_of(gk)].1.wf());
                            assert(data.data.entries@[data.data.index_of(gk)].1.wf());
                            crate::tsxdata::lemma_uv_upsert_keeps(
                                before.entries@[before.index_of(gk)].1.uv_analysis,
                                data.data.entries@[data.data.index_of(gk)].1.uv_analysis,
                                fi as u64,
                                fn_map.fn_map.entries@[fi as int].0@,
                                pushed_point.measurement,
                            );
                            assert forall|sj: u64|
                                sj < fi as int + 1 implies #[trigger] data.data.entries@[data.data.index_of(gk)].1.uv_analysis.contains_key(sj)
                                && data.data.entries@[data.data.index_of(gk)].1.uv_analysis.entries@[data.data.entries@[data.data.index_of(gk)].1.uv_analysis.index_of(sj)].1.fn_name@
                                == fn_map.fn_map.entries@[sj as int].0@ by {
                                if sj < upto_pre {
                                    assert(before.entries@[before.index_of(gk)].1.uv_analysis.contains_key(sj));
                                    if sj != fi as u64 {
                                        assert(data.data.entries@[data.data.index_of(gk)].1.uv_analysis.entries@[data.data.entries@[data.data.index_of(gk)].1.uv_analysis.index_of(sj)].1
                                            == before.entries@[before.index_of(gk)].1.uv_analysis.entries@[before.entries@[before.index_of(gk)].1.uv_analysis.index_of(sj)].1);
                                    }
                                } else {
                                    assert(sj == fi as u64);
                                    assert(!before.entries@[before.index_of(gk)].1.uv_analysis.contains_key(sj));
                                }
                            }
                            assert forall|sj: u64|
                                sj < fi as int + 1 implies (sj < fi as u64 ==> data.data.entries@[data.data.index_of(gk)].1.uv_analysis.entries@[data.data.entries@[data.data.index_of(gk)].1.uv_analysis.index_of(sj)].1.sample@.len()
                                == fn_map.fn_map.entries@[sj as int].1.dataset@.len()) && (sj == fi as u64 ==> data.data.entries@[data.data.index_of(gk)].1.uv_analysis.entries@[data.data.entries@[data.data.index_of(gk)].1.uv_analysis.index_of(sj)].1.sample@.len()
                                == di + 1) by {
                                assert(data.data.entries@[data.data.index_of(gk)].1.uv_analysis.contains_key(sj));
                                if sj < fi as u64 {
                                    assert(before.entries@[before.index_of(gk)].1.uv_analysis.contains_key(sj));
                                    assert(data.data.entries@[data.data.index_of(gk)].1.uv_analysis.entries@[data.data.entries@[data.data.index_of(gk)].1.uv_analysis.index_of(sj)].1
                                        == before.entries@[before.index_of(gk)].1.uv_analysis.entries@[before.entries@[before.index_of(gk)].1.uv_analysis.index_of(sj)].1);
                                } else {
                                    assert(sj == fi as u64);
                                    if before.contains_key(gk) && before.entries@[before.index_of(gk)].1.uv_analysis.contains_key(sj) {
                                        assert(before.entries@[before.index_of(gk)].1.uv_analysis.entries@[before.entries@[before.index_of(gk)].1.uv_analysis.index_of(sj)].1.sample@.len() == di);
                                        assert(fn_map.fn_map.entries@[fi as int].1.dataset@.len() <= u32::MAX);
                                        assert(before.entries@[before.index_of(gk)].1.uv_analysis.entries@[before.entries@[before.index_of(gk)].1.uv_analysis.index_of(sj)].1.wf());
                                        assert(before.entries@[before.index_of(gk)].1.uv_analysis.entries@[before.entries@[before.index_of(gk)].1.uv_analysis.index_of(sj)].1.n < u32::MAX);
                                        assert(data.data.entries@[data.data.index_of(gk)].1.uv_analysis.entries@[data.data.entries@[data.data.index_of(gk)].1.uv_analysis.index_of(sj)].1.sample@ == before.entries@[before.index_of(gk)].1.uv_analysis.entries@[before.entries@[before.index_of(gk)].1.uv_analysis.index_of(sj)].1.sample@.push(
                                            pushed_point.measurement,
                                        ));
                                    } else {
                                        assert(di == 0);
                                        assert(data.data.entries@[data.data.index_of(gk)].1.uv_analysis.entries@[data.data.entries@[data.data.index_of(gk)].1.uv_analysis.index_of(sj)].1.sample@ =~= seq![pushed_point.measurement]);
                                    }
                                }
                            }
                            assert forall|sj: u64, pj: int|
                                sj < fi as int + 1 && 0 <= pj < data.data.entries@[data.data.index_of(gk)].1.uv_analysis.entries@[data.data.entries@[data.data.index_of(gk)].1.uv_analysis.index_of(sj)].1.sample@.len() implies (
                            mean_time ==> crate::fbits::rounds_as(
                                data.data.entries@[data.data.index_of(gk)].1.uv_analysis.entries@[data.data.entries@[data.data.index_of(gk)].1.uv_analysis.index_of(sj)].1.sample@[pj],
                                crate::fbits::div_bits(
                                    (#[trigger] fn_map.fn_map.entries@[sj as int].1.dataset@[pj]).measurement,
                                    crate::fbits::f64_of_u32(fn_map.fn_map.entries@[sj as int].1.dataset@[pj].iter_count),
                                ),
                            )) && (!mean_time ==> data.data.entries@[data.data.index_of(gk)].1.uv_analysis.entries@[data.data.entries@[data.data.index_of(gk)].1.uv_analysis.index_of(sj)].1.sample@[pj] == fn_map.fn_map.entries@[sj as int].1.dataset@[pj].measurement) by {
                                assert(data.data.entries@[data.data.index_of(gk)].1.uv_analysis.contains_key(sj));
                                if sj < fi as u64 {
                                    assert(before.entries@[before.index_of(gk)].1.uv_analysis.contains_key(sj));
                                    assert(data.data.entries@[data.data.index_of(gk)].1.uv_analysis.entries@[data.data.entries@[data.data.index_of(gk)].1.uv_analysis.index_of(sj)].1
                                        == before.entries@[before.index_of(gk)].1.uv_analysis.entries@[before.entries@[before.index_of(gk)].1.uv_analysis.index_of(sj)].1);
                                } else {
                                    assert(sj == fi as u64);
                                    if before.contains_key(gk) && before.entries@[before.index_of(gk)].1.uv_analysis.contains_key(sj) {
                                        assert(data.data.entries@[data.data.index_of(gk)].1.uv_analysis.entries@[data.data.entries@[data.data.index_of(gk)].1.uv_analysis.index_of(sj)].1.sample@ == before.entries@[before.index_of(gk)].1.uv_analysis.entries@[before.entries@[before.index_of(gk)].1.uv_analysis.index_of(sj)].1.sample@.push(
                                            pushed_point.measurement,
                                        ));
                                        if pj < di {
                                            assert(data.data.entries@[data.data.index_of(gk)].1.uv_analysis.entries@[data.data.entries@[data.data.index_of(gk)].1.uv_analysis.index_of(sj)].1.sample@[pj] == before.entries@[before.index_of(gk)].1.uv_analysis.entries@[before.entries@[before.index_of(gk)].1.uv_analysis.index_of(sj)].1.sample@[pj]);
                                        } else {
                                            assert(pj == di);
                                            assert(data.data.entries@[data.data.index_of(gk)].1.uv_analysis.entries@[data.data.entries@[data.data.index_of(gk)].1.uv_analysis.index_of(sj)].1.sample@[pj] == pushed_point.measurement);
                                        }
                                    } else {
                                        assert(di == 0);
                                        assert(data.data.entries@[data.data.index_of(gk)].1.uv_analysis.entries@[data.data.entries@[data.data.index_of(gk)].1.uv_analysis.index_of(sj)].1.sample@ =~= seq![pushed_point.measurement]);
                                        assert(pj == 0);
                                    }
                                }
                            }
                            if data.trendlines {
                                crate::tsxdata::lemma_bv_upsert_keeps(
                                    before.entries@[before.index_of(gk)].1.bv_analysis,
                                    data.data.entries@[data.data.index_of(gk)].1.bv_analysis,
                                    fi as u64,
                                    pushed_point.iter_count,
                                    pushed_point.measurement,
                                );
                                assert forall|k: u64| #[trigger] data.data.entries@[data.data.index_of(gk)].1.bv_analysis.contains_key(
                                    k,
                                ) implies k < fi as int + 1 by {
                                    if k != fi as u64 {
                                        assert(before.entries@[before.index_of(gk)].1.bv_analysis.contains_key(k));
                                    }
                                }
                                assert forall|sj: u64|
                                    sj < fi as int + 1 implies #[trigger] data.data.entries@[data.data.index_of(gk)].1.bv_analysis.contains_key(sj)
                                    && (sj < fi as u64 ==> data.data.entries@[data.data.index_of(gk)].1.bv_analysis.entries@[data.data.entries@[data.data.index_of(gk)].1.bv_analysis.index_of(sj)].1.obs@.len() == fn_map.fn_map.entries@[sj as int].1.dataset@.len()) && (sj == fi as u64
                                    ==> data.data.entries@[data.data.index_of(gk)].1.bv_analysis.entries@[data.data.entries@[data.data.index_of(gk)].1.bv_analysis.index_of(sj)].1.obs@.len() == di + 1) by {
                                    if sj < upto_pre {
                                        assert(before.entries@[before.index_of(gk)].1.bv_analysis.contains_key(sj));
                                        if sj != fi as u64 {
                                            assert(data.data.entries@[data.data.index_of(gk)].1.bv_analysis.entries@[data.data.entries@[data.data.index_of(gk)].1.bv_analysis.index_of(sj)].1
                                                == before.entries@[before.index_of(gk)].1.bv_analysis.entries@[before.entries@[before.index_of(gk)].1.bv_analysis.index_of(sj)].1);
                                        } else {
                                            assert(before.entries@[before.index_of(gk)].1.bv_analysis.entries@[before.entries@[before.index_of(gk)].1.bv_analysis.index_of(sj)].1.obs@.len() == di);
                                            assert(fn_map.fn_map.entries@[fi as int].1.dataset@.len() <= u32::MAX);
                                            assert(before.entries@[before.index_of(gk)].1.bv_analysis.entries@[before.entries@[before.index_of(gk)].1.bv_analysis.index_of(sj)].1.wf());
                                            assert(before.entries@[before.index_of(gk)].1.bv_analysis.entries@[before.entries@[before.index_of(gk)].1.bv_analysis.index_of(sj)].1.n < u32::MAX);
                                            assert(data.data.entries@[data.data.index_of(gk)].1.bv_analysis.entries@[data.data.entries@[data.data.index_of(gk)].1.bv_analysis.index_of(sj)].1.obs@ == before.entries@[before.index_of(gk)].1.bv_analysis.entries@[before.entries@[before.index_of(gk)].1.bv_analysis.index_of(sj)].1.obs@.push(
                                                (pushed_point.iter_count, pushed_point.measurement),
                                            ));
                                        }
                                    } else {
                                        assert(sj == fi as u64);
                                        assert(!before.entries@[before.index_of(gk)].1.bv_analysis.contains_key(sj));
                                        assert(data.data.entries@[data.data.index_of(gk)].1.bv_analysis.entries@[data.data.entries@[data.data.index_of(gk)].1.bv_analysis.index_of(sj)].1.obs@ =~= seq![(pushed_point.iter_count, pushed_point.measurement)]);
                                    }
                                }
                                assert forall|sj: u64, pj: int|
                                    sj < fi as int + 1 && 0 <= pj < data.data.entries@[data.data.index_of(gk)].1.bv_analysis.entries@[data.data.entries@[data.data.index_of(gk)].1.bv_analysis.index_of(sj)].1.obs@.len() implies data.data.entries@[data.data.index_of(gk)].1.bv_analysis.entries@[data.data.entries@[data.data.index_of(gk)].1.bv_analysis.index_of(sj)].1.obs@[pj].0
                                    == (#[trigger] fn_map.fn_map.entries@[sj as int].1.dataset@[pj]).iter_count && (mean_time ==> crate::fbits::rounds_as(
                                    data.data.entries@[data.data.index_of(gk)].1.bv_analysis.entries@[data.data.entries@[data.data.index_of(gk)].1.bv_analysis.index_of(sj)].1.obs@[pj].1,
                                    crate::fbits::div_bits(
                                        fn_map.fn_map.entries@[sj as int].1.dataset@[pj].measurement,
                                        crate::fbits::f64_of_u32(fn_map.fn_map.entries@[sj as int].1.dataset@[pj].iter_count),
                                    ),
                                )) && (!mean_time ==> data.data.entries@[data.data.index_of(gk)].1.bv_analysis.entries@[data.data.entries@[data.data.index_of(gk)].1.bv_analysis.index_of(sj)].1.obs@[pj].1 == fn_map.fn_map.entries@[sj as int].1.dataset@[pj].measurement) by {
                                    assert(data.data.entries@[data.data.index_of(gk)].1.bv_analysis.contains_key(sj));
                                    if sj < upto_pre && sj != fi as u64 {
                                        assert(before.entries@[before.index_of(gk)].1.bv_analysis.contains_key(sj));
                                        assert(data.data.entries@[data.data.index_of(gk)].1.bv_analysis.entries@[data.data.entries@[data.data.index_of(gk)].1.bv_analysis.index_of(sj)].1
                                            == before.entries@[before.index_of(gk)].1.bv_analysis.entries@[before.entries@[before.index_of(gk)].1.bv_analysis.index_of(sj)].1);
                                    } else if sj < upto_pre {
                                        assert(data.data.entries@[data.data.index_of(gk)].1.bv_analysis.entries@[data.data.entries@[data.data.index_of(gk)].1.bv_analysis.index_of(sj)].1.obs@ == before.entries@[before.index_of(gk)].1.bv_analysis.entries@[before.entries@[before.index_of(gk)].1.bv_analysis.index_of(sj)].1.obs@.push(
                                            (pushed_point.iter_count, pushed_point.measurement),
                                        ));
                                        if pj < di {
                                            assert(data.data.entries@[data.data.index_of(gk)].1.bv_analysis.entries@[data.data.entries@[data.data.index_of(gk)].1.bv_analysis.index_of(sj)].1.obs@[pj] == before.entries@[before.index_of(gk)].1.bv_analysis.entries@[before.entries@[before.index_of(gk)].1.bv_analysis.index_of(sj)].1.obs@[pj]);
                                        } else {
                                            assert(pj == di);
                                            assert(data.data.entries@[data.data.index_of(gk)].1.bv_analysis.entries@[data.data.entries@[data.data.index_of(gk)].1.bv_analysis.index_of(sj)].1.obs@[pj] == (pushed_point.iter_count, pushed_point.measurement));
                                        }
                                    } else {
                                        assert(sj == fi as u64);
                                        assert(data.data.entries@[data.data.index_of(gk)].1.bv_analysis.entries@[data.data.entries@[data.data.index_of(gk)].1.bv_analysis.index_of(sj)].1.obs@ =~= seq![(pushed_point.iter_count, pushed_point.measurement)]);
                                        assert(pj == 0);
                                    }
                                }
                            } else {
                                assert(data.data.entries@[data.data.index_of(gk)].1.bv_analysis.spec_len() == 0);
                            }
                            assert forall|k: u64| #[trigger] data.data.entries@[data.data.index_of(gk)].1.uv_analysis.contains_key(k) implies k
                                < fi as int + 1 by {
                                if k != fi as u64 {
                                    assert(before.entries@[before.index_of(gk)].1.uv_analysis.contains_key(k));
                                }
                            }
                        } else {
                            // the group entered the collection with this
                            // very observation as series 0
                            assert(fi == 0 && di == 0);
                            assert(data.data.entries@[data.data.index_of(gk)].1.wf());
                            assert(crate::tsxdata::set_single(
                                data.data.entries@[data.data.index_of(gk)].1,
                                fn_map.fn_map.entries@[0].0@,
                                pushed_point,
                                0u16,
                                old(data).trendlines,
                            ));
                            assert(data.data.entries@[data.data.index_of(gk)].1.uv_analysis.key(0) == 0u64);
                            assert(data.data.entries@[data.data.index_of(gk)].1.uv_analysis.contains_key(0u64));
                            data.data.entries@[data.data.index_of(gk)].1.uv_analysis.lemma_index_unique(0);
                            assert forall|k: u64| #[trigger] data.data.entries@[data.data.index_of(gk)].1.uv_analysis.contains_key(k) implies k
                                < 1 by {
                                let j = data.data.entries@[data.data.index_of(gk)].1.uv_analysis.index_of(k);
                                assert(j == 0);
                                assert(data.data.entries@[data.data.index_of(gk)].1.uv_analysis.key(0) == k);
                            }
                            assert forall|sj: u64|
                                sj < 1 implies #[trigger] data.data.entries@[data.data.index_of(gk)].1.uv_analysis.contains_key(sj)
                                && data.data.entries@[data.data.index_of(gk)].1.uv_analysis.entries@[data.data.entries@[data.data.index_of(gk)].1.uv_analysis.index_of(sj)].1.fn_name@
                                == fn_map.fn_map.entries@[sj as int].0@ by {
                                assert(sj == 0);
                            }
                            assert forall|sj: u64|
                                sj < fi as int + 1 implies (sj < fi as u64 ==> data.data.entries@[data.data.index_of(gk)].1.uv_analysis.entries@[data.data.entries@[data.data.index_of(gk)].1.uv_analysis.index_of(sj)].1.sample@.len()
                                == fn_map.fn_map.entries@[sj as int].1.dataset@.len()) && (sj == fi as u64 ==> data.data.entries@[data.data.index_of(gk)].1.uv_analysis.entries@[data.data.entries@[data.data.index_of(gk)].1.uv_analysis.index_of(sj)].1.sample@.len()
                                == di + 1) by {
                                assert(data.data.entries@[data.data.index_of(gk)].1.uv_analysis.contains_key(sj));
                                if sj < fi as u64 {
                                    assert(before.entries@[before.index_of(gk)].1.uv_analysis.contains_key(sj));
                                    assert(data.data.entries@[data.data.index_of(gk)].1.uv_analysis.entries@[data.data.entries@[data.data.index_of(gk)].1.uv_analysis.index_of(sj)].1
                                        == before.entries@[before.index_of(gk)].1.uv_analysis.entries@[before.entries@[before.index_of(gk)].1.uv_analysis.index_of(sj)].1);
                                } else {
                                    assert(sj == fi as u64);
                                    if before.contains_key(gk) && before.entries@[before.index_of(gk)].1.uv_analysis.contains_key(sj) {
                                        assert(before.entries@[before.index_of(gk)].1.uv_analysis.entries@[before.entries@[before.index_of(gk)].1.uv_analysis.index_of(sj)].1.sample@.len() == di);
                                        assert(fn_map.fn_map.entries@[fi as int].1.dataset@.len() <= u32::MAX);
                                        assert(before.entries@[before.index_of(gk)].1.uv_analysis.entries@[before.entries@[before.index_of(gk)].1.uv_analysis.index_of(sj)].1.wf());
                                        assert(before.entries@[before.index_of(gk)].1.uv_analysis.entries@[before.entries@[before.index_of(gk)].1.uv_analysis.index_of(sj)].1.n < u32::MAX);
                                        assert(data.data.entries@[data.data.index_of(gk)].1.uv_analysis.entries@[data.data.entries@[data.data.index_of(gk)].1.uv_analysis.index_of(sj)].1.sample@ == before.entries@[before.index_of(gk)].1.uv_analysis.entries@[before.entries@[before.index_of(gk)].1.uv_analysis.index_of(sj)].1.sample@.push(
                                            pushed_point.measurement,
                                        ));
                                    } else {
                                        assert(di == 0);
                                        assert(data.data.entries@[data.data.index_of(gk)].1.uv_analysis.entries@[data.data.entries@[data.data.index_of(gk)].1.uv_analysis.index_of(sj)].1.sample@ =~= seq![pushed_point.measurement]);
                                    }
                                }
                            }
                            assert forall|sj: u64, pj: int|
                                sj < fi as int + 1 && 0 <= pj < data.data.entries@[data.data.index_of(gk)].1.uv_analysis.entries@[data.data.entries@[data.data.index_of(gk)].1.uv_analysis.index_of(sj)].1.sample@.len() implies (
                            mean_time ==> crate::fbits::rounds_as(
                                data.data.entries@[data.data.index_of(gk)].1.uv_analysis.entries@[data.data.entries@[data.data.index_of(gk)].1.uv_analysis.index_of(sj)].1.sample@[pj],
                                crate::fbits::div_bits(
                                    (#[trigger] fn_map.fn_map.entries@[sj as int].1.dataset@[pj]).measurement,
                                    crate::fbits::f64_of_u32(fn_map.fn_map.entries@[sj as int].1.dataset@[pj].iter_count),
                                ),
                            )) && (!mean_time ==> data.data.entries@[data.data.index_of(gk)].1.uv_analysis.entries@[data.data.entries@[data.data.index_of(gk)].1.uv_analysis.index_of(sj)].1.sample@[pj] == fn_map.fn_map.entries@[sj as int].1.dataset@[pj].measurement) by {
                                assert(data.data.entries@[data.data.index_of(gk)].1.uv_analysis.contains_key(sj));
                                if sj < fi as u64 {
                                    assert(before.entries@[before.index_of(gk)].1.uv_analysis.contains_key(sj));
                                    assert(data.data.entries@[data.data.index_of(gk)].1.uv_analysis.entries@[data.data.entries@[data.data.index_of(gk)].1.uv_analysis.index_of(sj)].1
                                        == before.entries@[before.index_of(gk)].1.uv_analysis.entries@[before.entries@[before.index_of(gk)].1.uv_analysis.index_of(sj)].1);
                                } else {
                                    assert(sj == fi as u64);
                                    if before.contains_key(gk) && before.entries@[before.index_of(gk)].1.uv_analysis.contains_key(sj) {
                                        assert(data.data.entries@[data.data.index_of(gk)].1.uv_analysis.entries@[data.data.entries@[data.data.index_of(gk)].1.uv_analysis.index_of(sj)].1.sample@ == before.entries@[before.index_of(gk)].1.uv_analysis.entries@[before.entries@[before.index_of(gk)].1.uv_analysis.index_of(sj)].1.sample@.push(
                                            pushed_point.measurement,
                                        ));
                                        if pj < di {
                                            assert(data.data.entries@[data.data.index_of(gk)].1.uv_analysis.entries@[data.data.entries@[data.data.index_of(gk)].1.uv_analysis.index_of(sj)].1.sample@[pj] == before.entries@[before.index_of(gk)].1.uv_analysis.entries@[before.entries@[before.index_of(gk)].1.uv_analysis.index_of(sj)].1.sample@[pj]);
                                        } else {
                                            assert(pj == di);
                                            assert(data.data.entries@[data.data.index_of(gk)].1.uv_analysis.entries@[data.data.entries@[data.data.index_of(gk)].1.uv_analysis.index_of(sj)].1.sample@[pj] == pushed_point.measurement);
                                        }
                                    } else {
                                        assert(di == 0);
                                        assert(data.data.entries@[data.data.index_of(gk)].1.uv_analysis.entries@[data.data.entries@[data.data.index_of(gk)].1.uv_analysis.index_of(sj)].1.sample@ =~= seq![pushed_point.measurement]);
                                        assert(pj == 0);
                                    }
                                }
                            }
                            if data.trendlines {
                                assert(data.data.entries@[data.data.index_of(gk)].1.bv_analysis.key(0) == 0u64);
                                assert(data.data.entries@[data.data.index_of(gk)].1.bv_analysis.contains_key(0u64));
                                data.data.entries@[data.data.index_of(gk)].1.bv_analysis.lemma_index_unique(0);
                                assert forall|k: u64| #[trigger] data.data.entries@[data.data.index_of(gk)].1.bv_analysis.contains_key(
                                    k,
                                ) implies k < 1 by {
                                    let j = data.data.entries@[data.data.index_of(gk)].1.bv_analysis.index_of(k);
                                    assert(j == 0);
                                    assert(data.data.entries@[data.data.index_of(gk)].1.bv_analysis.key(0) == k);
                                }
                                assert forall|sj: u64|
                                    sj < 1 implies #[trigger] data.data.entries@[data.data.index_of(gk)].1.bv_analysis.contains_key(sj)
                                    && data.data.entries@[data.data.index_of(gk)].1.bv_analysis.entries@[data.data.entries@[data.data.index_of(gk)].1.bv_analysis.index_of(sj)].1.obs@.len() == 1 by {
                                    assert(sj == 0);
                                    assert(data.data.entries@[data.data.index_of(gk)].1.bv_analysis.entries@[data.data.entries@[data.data.index_of(gk)].1.bv_analysis.index_of(sj)].1.obs@ =~= seq![(pushed_point.iter_count, pushed_point.measurement)]);
                                }
                                assert forall|sj: u64, pj: int|
                                    sj < 1 && 0 <= pj < data.data.entries@[data.data.index_of(gk)].1.bv_analysis.entries@[data.data.entries@[data.data.index_of(gk)].1.bv_analysis.index_of(sj)].1.obs@.len() implies data.data.entries@[data.data.index_of(gk)].1.bv_analysis.entries@[data.data.entries@[data.data.index_of(gk)].1.bv_analysis.index_of(sj)].1.obs@[pj].0
                                    == (#[trigger] fn_map.fn_map.entries@[sj as int].1.dataset@[pj]).iter_count && (mean_time ==> crate::fbits::rounds_as(
                                    data.data.entries@[data.data.index_of(gk)].1.bv_analysis.entries@[data.data.entries@[data.data.index_of(gk)].1.bv_analysis.index_of(sj)].1.obs@[pj].1,
                                    crate::fbits::div_bits(
                                        fn_map.fn_map.entries@[sj as int].1.dataset@[pj].measurement,
                                        crate::fbits::f64_of_u32(fn_map.fn_map.entries@[sj as int].1.dataset@[pj].iter_count),
                                    ),
                                )) && (!mean_time ==> data.data.entries@[data.data.index_of(gk)].1.bv_analysis.entries@[data.data.entries@[data.data.index_of(gk)].1.bv_analysis.index_of(sj)].1.obs@[pj].1 == fn_map.fn_map.entries@[sj as int].1.dataset@[pj].measurement) by {
                                    assert(sj == 0);
                                    assert(data.data.entries@[data.data.index_of(gk)].1.bv_analysis.entries@[data.data.entries@[data.data.index_of(gk)].1.bv_analysis.index_of(sj)].1.obs@ =~= seq![(pushed_point.iter_count, pushed_point.measurement)]);
                                    assert(pj == 0);
                                }
                            } else {
                                assert(data.data.entries@[data.data.index_of(gk)].1.bv_analysis.spec_len() == 0);
                            }
                        }
                    }
                }
                di = di + 1;
            }
            proof {
                assert(dn > 0);
                if og {
                    assert forall|sj: u64| sj < fi as int + 1 implies #[trigger] data.data.entries@[data.data.index_of(gk)].1.uv_analysis.contains_key(sj)
                        && (data.data.entries@[data.data.index_of(gk)].1.uv_analysis.entries@[data.data.entries@[data.data.index_of(gk)].1.uv_analysis.index_of(sj)].1.sample@.len() == fn_map.fn_map.entries@[sj as int].1.dataset@.len()) by {
                        assert(data.data.entries@[data.data.index_of(gk)].1.uv_analysis.contains_key(sj));
                    }
                    assert forall|sj: u64, pj: int|
                        sj < fi as int + 1 && 0 <= pj < data.data.entries@[data.data.index_of(gk)].1.uv_analysis.entries@[data.data.entries@[data.data.index_of(gk)].1.uv_analysis.index_of(sj)].1.sample@.len() implies (mean_time
                        ==> crate::fbits::rounds_as(
                        data.data.entries@[data.data.index_of(gk)].1.uv_analysis.entries@[data.data.entries@[data.data.index_of(gk)].1.uv_analysis.index_of(sj)].1.sample@[pj],
                        crate::fbits::div_bits(
                            (#[trigger] fn_map.fn_map.entries@[sj as int].1.dataset@[pj]).measurement,
                            crate::fbits::f64_of_u32(fn_map.fn_map.entries@[sj as int].1.dataset@[pj].iter_count),
                        ),
                    )) && (!mean_time ==> data.data.entries@[data.data.index_of(gk)].1.uv_analysis.entries@[data.data.entries@[data.data.index_of(gk)].1.uv_analysis.index_of(sj)].1.sample@[pj] == fn_map.fn_map.entries@[sj as int].1.dataset@[pj].measurement) by {
                        assert(data.data.entries@[data.data.index_of(gk)].1.uv_analysis.contains_key(sj));
                        assert(fn_map.fn_map.entries@[sj as int].1.dataset@[pj] == fn_map.fn_map.entries@[sj as int].1.dataset@[pj]);
                    }
                    if data.trendlines {
                        assert forall|sj: u64| sj < fi as int + 1 implies #[trigger] data.data.entries@[data.data.index_of(gk)].1.bv_analysis.contains_key(sj)
                            && (data.data.entries@[data.data.index_of(gk)].1.bv_analysis.entries@[data.data.entries@[data.data.index_of(gk)].1.bv_analysis.index_of(sj)].1.obs@.len() == fn_map.fn_map.entries@[sj as int].1.dataset@.len()) by {
                            assert(data.data.entries@[data.data.index_of(gk)].1.bv_analysis.contains_key(sj));
                        }
                        assert forall|sj: u64, pj: int|
                            sj < fi as int + 1 && 0 <= pj < data.data.entries@[data.data.index_of(gk)].1.bv_analysis.entries@[data.data.entries@[data.data.index_of(gk)].1.bv_analysis.index_of(sj)].1.obs@.len() implies data.data.entries@[data.data.index_of(gk)].1.bv_analysis.entries@[data.data.entries@[data.data.index_of(gk)].1.bv_analysis.index_of(sj)].1.obs@[pj].0
                            == (#[trigger] fn_map.fn_map.entries@[sj as int].1.dataset@[pj]).iter_count && (mean_time
                            ==> crate::fbits::rounds_as(
                            data.data.entries@[data.data.index_of(gk)].1.bv_analysis.entries@[data.data.entries@[data.data.index_of(gk)].1.bv_analysis.index_of(sj)].1.obs@[pj].1,
                            crate::fbits::div_bits(
                                fn_map.fn_map.entries@[sj as int].1.dataset@[pj].measurement,
                                crate::fbits::f64_of_u32(fn_map.fn_map.entries@[sj as int].1.dataset@[pj].iter_count),
                            ),
                        )) && (!mean_time ==> data.data.entries@[data.data.index_of(gk)].1.bv_analysis.entries@[data.data.entries@[data.data.index_of(gk)].1.bv_analysis.index_of(sj)].1.obs@[pj].1 == fn_map.fn_map.entries@[sj as int].1.dataset@[pj].measurement) by {
                            assert(data.data.entries@[data.data.index_of(gk)].1.bv_analysis.contains_key(sj));
                            assert(fn_map.fn_map.entries@[sj as int].1.dataset@[pj] == fn_map.fn_map.entries@[sj as int].1.dataset@[pj]);
                        }
                    }
                    assert(fn_map.fn_map.entries@.take(fi as int + 1).drop_last() =~= fn_map.fn_map.entries@.take(
                        fi as int,
                    ));
                    assert(fn_map.fn_map.entries@.take(fi as int + 1).last() == fn_map.fn_map.entries@[fi as int]);
                    assert(crate::tsxdata::bucket_total(data.data.entries@[data.data.index_of(gk)].1.points.entries@) == points_count(
                        fn_map.fn_map.entries@.take(fi as int + 1),
                    ));
                    assert forall|k: u64| #[trigger] data.data.entries@[data.data.index_of(gk)].1.points.contains_key(k) implies (exists|fj: int, pj: int|
                        #![trigger fn_map.fn_map.entries@[fj].1.dataset@[pj]]
                        0 <= fj < fi as int + 1 && 0 <= pj < fn_map.fn_map.entries@[fj].1.dataset@.len()
                            && fn_map.fn_map.entries@[fj].1.dataset@[pj].iter_count as u64 == k) by {
                        let (fj, pj) = choose|fj: int, pj: int|
                            #![trigger fn_map.fn_map.entries@[fj].1.dataset@[pj]]
                            0 <= fj < fi as int + 1 && 0 <= pj < (if fj < fi as int { fn_map.fn_map.entries@[fj].1.dataset@.len() as int } else { di as int })
                                && fn_map.fn_map.entries@[fj].1.dataset@[pj].iter_count as u64 == k;
                        assert(0 <= fj < fi as int + 1 && 0 <= pj < fn_map.fn_map.entries@[fj].1.dataset@.len()
                            && fn_map.fn_map.entries@[fj].1.dataset@[pj].iter_count as u64 == k);
                    }
                    assert forall|fj: int, pj: int|
                        0 <= fj < fi as int + 1 && 0 <= pj < fn_map.fn_map.entries@[fj].1.dataset@.len() implies data.data.entries@[data.data.index_of(gk)].1.points.contains_key(
                        (#[trigger] fn_map.fn_map.entries@[fj].1.dataset@[pj]).iter_count as u64,
                    ) by {
                        assert(0 <= fj < fi as int + 1 && 0 <= pj < (if fj < fi as int { fn_map.fn_map.entries@[fj].1.dataset@.len() as int } else { di as int }));
                    }
                }
            }
            fi = fi + 1;
        }
        proof {
            assert(units_all(fn_map.fn_map, fu));
            if og {
                assert forall|sj: u64| sj < fn_map.fn_map.spec_len() implies #[trigger] data.data.entries@[data.data.index_of(gk)].1.uv_analysis.contains_key(sj)
                    && (data.data.entries@[data.data.index_of(gk)].1.uv_analysis.entries@[data.data.entries@[data.data.index_of(gk)].1.uv_analysis.index_of(sj)].1.sample@.len() == fn_map.fn_map.entries@[sj as int].1.dataset@.len()) by {
                    assert(data.data.entries@[data.data.index_of(gk)].1.uv_analysis.contains_key(sj));
                }
                assert forall|sj: u64, pj: int|
                    sj < fn_map.fn_map.spec_len() && 0 <= pj < data.data.entries@[data.data.index_of(gk)].1.uv_analysis.entries@[data.data.entries@[data.data.index_of(gk)].1.uv_analysis.index_of(sj)].1.sample@.len() implies (mean_time
                    ==> crate::fbits::rounds_as(
                    data.data.entries@[data.data.index_of(gk)].1.uv_analysis.entries@[data.data.entries@[data.data.index_of(gk)].1.uv_analysis.index_of(sj)].1.sample@[pj],
                    crate::fbits::div_bits(
                        (#[trigger] fn_map.fn_map.entries@[sj as int].1.dataset@[pj]).measurement,
                        crate::fbits::f64_of_u32(fn_map.fn_map.entries@[sj as int].1.dataset@[pj].iter_count),
                    ),
                )) && (!mean_time ==> data.data.entries@[data.data.index_of(gk)].1.uv_analysis.entries@[data.data.entries@[data.data.index_of(gk)].1.uv_analysis.index_of(sj)].1.sample@[pj] == fn_map.fn_map.entries@[sj as int].1.dataset@[pj].measurement) by {
                    assert(data.data.entries@[data.data.index_of(gk)].1.uv_analysis.contains_key(sj));
                    assert(fn_map.fn_map.entries@[sj as int].1.dataset@[pj] == fn_map.fn_map.entries@[sj as int].1.dataset@[pj]);
                }
                if data.trendlines {
                    assert forall|sj: u64| sj < fn_map.fn_map.spec_len() implies #[trigger] data.data.entries@[data.data.index_of(gk)].1.bv_analysis.contains_key(sj)
                        && (data.data.entries@[data.data.index_of(gk)].1.bv_analysis.entries@[data.data.entries@[data.data.index_of(gk)].1.bv_analysis.index_of(sj)].1.obs@.len() == fn_map.fn_map.entries@[sj as int].1.dataset@.len()) by {
                        assert(data.data.entries@[data.data.index_of(gk)].1.bv_analysis.contains_key(sj));
                    }
                    assert forall|sj: u64, pj: int|
                        sj < fn_map.fn_map.spec_len() && 0 <= pj < data.data.entries@[data.data.index_of(gk)].1.bv_analysis.entries@[data.data.entries@[data.data.index_of(gk)].1.bv_analysis.index_of(sj)].1.obs@.len() implies data.data.entries@[data.data.index_of(gk)].1.bv_analysis.entries@[data.data.entries@[data.data.index_of(gk)].1.bv_analysis.index_of(sj)].1.obs@[pj].0
                        == (#[trigger] fn_map.fn_map.entries@[sj as int].1.dataset@[pj]).iter_count && (mean_time
                        ==> crate::fbits::rounds_as(
                        data.data.entries@[data.data.index_of(gk)].1.bv_analysis.entries@[data.data.entries@[data.data.index_of(gk)].1.bv_analysis.index_of(sj)].1.obs@[pj].1,
                        crate::fbits::div_bits(
                            fn_map.fn_map.entries@[sj as int].1.dataset@[pj].measurement,
                            crate::fbits::f64_of_u32(fn_map.fn_map.entries@[sj as int].1.dataset@[pj].iter_count),
                        ),
                    )) && (!mean_time ==> data.data.entries@[data.data.index_of(gk)].1.bv_analysis.entries@[data.data.entries@[data.data.index_of(gk)].1.bv_analysis.index_of(sj)].1.obs@[pj].1 == fn_map.fn_map.entries@[sj as int].1.dataset@[pj].measurement) by {
                        assert(data.data.entries@[data.data.index_of(gk)].1.bv_analysis.contains_key(sj));
                        assert(fn_map.fn_map.entries@[sj as int].1.dataset@[pj] == fn_map.fn_map.entries@[sj as int].1.dataset@[pj]);
                    }
                }
                assert(fn_map.fn_map.entries@.take(fn_map.fn_map.spec_len()) =~= fn_map.fn_map.entries@);
            }
        }
        Ok(())
    }

    /// The mean-time collection: every observation projected to its
    /// per-iteration mean, for one group or for all. Asking for an
    /// unknown group yields nothing. It fails, with `UnitMismatch`,
    /// exactly when some selected group's observations carry two
    /// different units.
    #[verifier::rlimit(100)]
    pub fn mean_time_data(&self, group_name: Option<&str>) -> (r: Result<
        Option<MeanTimeData>,
        UnitMismatch,
    >)
        requires
            self.wf(),
            indexable(*self),
        ensures
            group_name matches Some(g) ==> (r matches Ok(o) ==> (o is Some
                == self.data.contains_key(lower_seq(g@)))),
            group_name matches Some(g) ==> ((r is Err) == (self.data.contains_key(lower_seq(g@))
                && !group_uniform(self.data.entries@[self.data.index_of(lower_seq(g@))].1))),
            group_name is None ==> ((r is Err) == (exists|gi: int|
                0 <= gi < self.data.spec_len() && !group_uniform(
                    (#[trigger] self.data.entries@[gi]).1,
                ))),
            group_name is None ==> (r matches Ok(o) ==> o is Some),
            r matches Ok(o) ==> (o matches Some(m) ==> m.wf() && !m.data.trendlines
                && m.data.pdfdata),
            group_name matches Some(g) ==> (r matches Ok(o) ==> (o matches Some(m)
                ==> m.data.data.contains_key(lower_seq(g@)))),
            group_name matches Some(g) ==> (r matches Ok(o) ==> (o matches Some(m)
                ==> m.data.data.spec_len() == 1)),
            group_name matches Some(g) ==> (r matches Ok(o) ==> (o matches Some(m)
                ==> crate::tsxdata::bucket_total(m.data.data.entries@[m.data.data.index_of(lower_seq(g@))].1.points.entries@) == points_count(
                    self.data.entries@[self.data.index_of(lower_seq(g@))].1.fn_map.entries@,
                ))),
            group_name matches Some(g) ==> (r matches Ok(o) ==> (o matches Some(m)
                ==> (forall|k: u64|
                    #[trigger] m.data.data.entries@[m.data.data.index_of(lower_seq(g@))].1.points.contains_key(k) ==> (exists|fj: int, pj: int|
                        #![trigger self.data.entries@[self.data.index_of(lower_seq(g@))].1.fn_map.entries@[fj].1.dataset@[pj]]
                        0 <= fj < self.data.entries@[self.data.index_of(lower_seq(g@))].1.fn_map.spec_len() && 0 <= pj < self.data.entries@[self.data.index_of(lower_seq(g@))].1.fn_map.entries@[fj].1.dataset@.len()
                            && self.data.entries@[self.data.index_of(lower_seq(g@))].1.fn_map.entries@[fj].1.dataset@[pj].iter_count as u64 == k)))),
            group_name matches Some(g) ==> (r matches Ok(o) ==> (o matches Some(m)
                ==> (forall|fj: int, pj: int|
                    #![trigger self.data.entries@[self.data.index_of(lower_seq(g@))].1.fn_map.entries@[fj].1.dataset@[pj]]
                    0 <= fj < self.data.entries@[self.data.index_of(lower_seq(g@))].1.fn_map.spec_len() && 0 <= pj < self.data.entries@[self.data.index_of(lower_seq(g@))].1.fn_map.entries@[fj].1.dataset@.len()
                        ==> m.data.data.entries@[m.data.data.index_of(lower_seq(g@))].1.points.contains_key(
                        self.data.entries@[self.data.index_of(lower_seq(g@))].1.fn_map.entries@[fj].1.dataset@[pj].iter_count as u64,
                    )))),
            group_name matches Some(g) ==> (r matches Ok(o) ==> (o matches Some(m)
                ==> (forall|sj: u64|
                    #![trigger m.data.data.entries@[m.data.data.index_of(lower_seq(g@))].1.uv_analysis.contains_key(sj)]
                    sj < self.data.entries@[self.data.index_of(lower_seq(g@))].1.fn_map.spec_len() ==> m.data.data.entries@[m.data.data.index_of(lower_seq(g@))].1.uv_analysis.contains_key(sj)
                        && m.data.data.entries@[m.data.data.index_of(lower_seq(g@))].1.uv_analysis.entries@[m.data.data.entries@[m.data.data.index_of(lower_seq(g@))].1.uv_analysis.index_of(sj)].1.fn_name@ == self.data.entries@[self.data.index_of(lower_seq(g@))].1.fn_map.entries@[sj as int].0@
                        && m.data.data.entries@[m.data.data.index_of(lower_seq(g@))].1.uv_analysis.entries@[m.data.data.entries@[m.data.data.index_of(lower_seq(g@))].1.uv_analysis.index_of(sj)].1.sample@.len() == self.data.entries@[self.data.index_of(lower_seq(g@))].1.fn_map.entries@[sj as int].1.dataset@.len()))),
            group_name matches Some(g) ==> (r matches Ok(o) ==> (o matches Some(m)
                ==> (forall|sj: u64, pj: int|
                    #![trigger self.data.entries@[self.data.index_of(lower_seq(g@))].1.fn_map.entries@[sj as int].1.dataset@[pj]]
                    sj < self.data.entries@[self.data.index_of(lower_seq(g@))].1.fn_map.spec_len() && 0 <= pj < m.data.data.entries@[m.data.data.index_of(lower_seq(g@))].1.uv_analysis.entries@[m.data.data.entries@[m.data.data.index_of(lower_seq(g@))].1.uv_analysis.index_of(sj)].1.sample@.len() ==> crate::fbits::rounds_as(
                        m.data.data.entries@[m.data.data.index_of(lower_seq(g@))].1.uv_analysis.entries@[m.data.data.entries@[m.data.data.index_of(lower_seq(g@))].1.uv_analysis.index_of(sj)].1.sample@[pj],
                        crate::fbits::div_bits(
                            self.data.entries@[self.data.index_of(lower_seq(g@))].1.fn_map.entries@[sj as int].1.dataset@[pj].measurement,
                            crate::fbits::f64_of_u32(self.data.entries@[self.data.index_of(lower_seq(g@))].1.fn_map.entries@[sj as int].1.dataset@[pj].iter_count),
                        ),
                    )))),
            group_name matches Some(g) ==> (r matches Ok(o) ==> (o matches Some(m)
                ==> m.data.data.entries@[m.data.data.index_of(lower_seq(g@))].1.bv_analysis.spec_len() == 0)),
            group_name is None ==> (r matches Ok(o) ==> (o matches Some(m) ==> forall|gi: int|
                0 <= gi < self.data.spec_len() ==> m.data.data.contains_key(
                    lower_seq((#[trigger] self.data.entries@[gi]).0@),
                ))),
            group_name is None ==> (r matches Ok(o) ==> (o matches Some(m) ==> (forall|k: Seq<
                u32,
            >|
                #[trigger] m.data.data.contains_key(k) ==> (exists|gj: int|
                    0 <= gj < self.data.spec_len() && k == self.data.lkey(gj))))),
    {
        let mut map = TsxDataMap::new("MEAN_TIME_DATA", false, true);
        if group_name.is_some() {
            let g = match group_name {
                Some(s) => s,
                None => {
                    proof {
                        assert(false);
                    }
                    ""
                },
            };
            {
                let (pos, found) = self.data.locate(g);
                if !found {
                    return Ok(None);
                }
                proof {
                    assert(self.data.entries@[pos as int].1.wf());
                    self.data.lemma_index_unique(pos as int);
                    assert(!map.data.contains_key(lower_seq(g@)));
                }
                match self.to_tsx_data(g, &self.data.entries[pos].1, &mut map, true) {
                    Err(e) => {
                        proof {
                            assert(self.data.contains_key(lower_seq(g@)));
                            assert(self.data.index_of(lower_seq(g@)) == pos as int);
                            assert(!group_uniform(
                                self.data.entries@[self.data.index_of(lower_seq(g@))].1,
                            ));
                        }
                        Err(e)
                    },
                    Ok(()) => {
                        proof {
                            assert(self.data.contains_key(lower_seq(g@)));
                            assert(self.data.index_of(lower_seq(g@)) == pos as int);
                            assert(group_uniform(
                                self.data.entries@[self.data.index_of(lower_seq(g@))].1,
                            ));
                            // the collection holds exactly this one group
                            assert forall|k: Seq<u32>| #[trigger] map.data.contains_key(k) implies k
                                == lower_seq(g@) by {}
                            if map.data.spec_len() >= 2 {
                                assert(map.data.contains_key(map.data.lkey(0)));
                                assert(map.data.contains_key(map.data.lkey(1)));
                                assert(crate::textkey::lex_lt(map.data.lkey(0), map.data.lkey(1)));
                                crate::textkey::lemma_lex_total(map.data.lkey(0), map.data.lkey(1));
                                assert(false);
                            }
                            assert(map.data.contains_key(lower_seq(g@)));
                            assert(map.data.spec_len() == 1);
                            assert(crate::tsxdata::bucket_total(map.data.entries@[map.data.index_of(lower_seq(g@))].1.points.entries@)
                                == points_count(self.data.entries@[self.data.index_of(lower_seq(g@))].1.fn_map.entries@));
                            assert forall|k: u64| #[trigger] map.data.entries@[map.data.index_of(lower_seq(g@))].1.points.contains_key(k) implies (exists|fj: int, pj: int|
                                #![trigger self.data.entries@[self.data.index_of(lower_seq(g@))].1.fn_map.entries@[fj].1.dataset@[pj]]
                                0 <= fj < self.data.entries@[self.data.index_of(lower_seq(g@))].1.fn_map.spec_len() && 0 <= pj < self.data.entries@[self.data.index_of(lower_seq(g@))].1.fn_map.entries@[fj].1.dataset@.len()
                                    && self.data.entries@[self.data.index_of(lower_seq(g@))].1.fn_map.entries@[fj].1.dataset@[pj].iter_count as u64 == k) by {
                                assert(map.data.entries@[map.data.index_of(lower_seq(g@))].1.points.contains_key(k));
                            }
                            assert forall|fj: int, pj: int|
                                0 <= fj < self.data.entries@[self.data.index_of(lower_seq(g@))].1.fn_map.spec_len() && 0 <= pj < self.data.entries@[self.data.index_of(lower_seq(g@))].1.fn_map.entries@[fj].1.dataset@.len() implies map.data.entries@[map.data.index_of(lower_seq(g@))].1.points.contains_key(
                                (#[trigger] self.data.entries@[self.data.index_of(lower_seq(g@))].1.fn_map.entries@[fj].1.dataset@[pj]).iter_count as u64,
                            ) by {
                                assert(self.data.entries@[self.data.index_of(lower_seq(g@))].1.fn_map.entries@[fj].1.dataset@[pj] == self.data.entries@[self.data.index_of(lower_seq(g@))].1.fn_map.entries@[fj].1.dataset@[pj]);
                            }

                            assert forall|sj: u64|
                                sj < self.data.entries@[self.data.index_of(lower_seq(g@))].1.fn_map.spec_len() implies #[trigger] map.data.entries@[map.data.index_of(lower_seq(g@))].1.uv_analysis.contains_key(sj)
                                && map.data.entries@[map.data.index_of(lower_seq(g@))].1.uv_analysis.entries@[map.data.entries@[map.data.index_of(lower_seq(g@))].1.uv_analysis.index_of(sj)].1.fn_name@ == self.data.entries@[self.data.index_of(lower_seq(g@))].1.fn_map.entries@[sj as int].0@
                                && map.data.entries@[map.data.index_of(lower_seq(g@))].1.uv_analysis.entries@[map.data.entries@[map.data.index_of(lower_seq(g@))].1.uv_analysis.index_of(sj)].1.sample@.len() == self.data.entries@[self.data.index_of(lower_seq(g@))].1.fn_map.entries@[sj as int].1.dataset@.len() by {
                                assert(map.data.entries@[map.data.index_of(lower_seq(g@))].1.uv_analysis.contains_key(sj));
                            }
                            assert forall|sj: u64, pj: int|
                                sj < self.data.entries@[self.data.index_of(lower_seq(g@))].1.fn_map.spec_len() && 0 <= pj < map.data.entries@[map.data.index_of(lower_seq(g@))].1.uv_analysis.entries@[map.data.entries@[map.data.index_of(lower_seq(g@))].1.uv_analysis.index_of(sj)].1.sample@.len() implies crate::fbits::rounds_as(
                                map.data.entries@[map.data.index_of(lower_seq(g@))].1.uv_analysis.entries@[map.data.entries@[map.data.index_of(lower_seq(g@))].1.uv_analysis.index_of(sj)].1.sample@[pj],
                                crate::fbits::div_bits(
                                    (#[trigger] self.data.entries@[self.data.index_of(lower_seq(g@))].1.fn_map.entries@[sj as int].1.dataset@[pj]).measurement,
                                    crate::fbits::f64_of_u32(self.data.entries@[self.data.index_of(lower_seq(g@))].1.fn_map.entries@[sj as int].1.dataset@[pj].iter_count),
                                ),
                            ) by {
                                assert(map.data.entries@[map.data.index_of(lower_seq(g@))].1.uv_analysis.contains_key(sj));
                            }
                            assert(map.data.entries@[map.data.index_of(lower_seq(g@))].1.bv_analysis.spec_len() == 0);
                        }
                        return Ok(Some(MeanTimeData { data: map }));
                    },
                }
            }
        } else {
            {
                let n = self.data.len();
                let mut gi: usize = 0;
                while gi < n
                    invariant
                        group_name is None,
                        gi <= n,
                        n == self.data.spec_len(),
                        self.wf(),
                        indexable(*self),
                        map.wf(),
                        !map.trendlines,
                        map.pdfdata,
                        forall|gj: int|
                            0 <= gj < gi ==> map.data.contains_key(
                                lower_seq((#[trigger] self.data.entries@[gj]).0@),
                            ),
                        forall|gj: int|
                            0 <= gj < gi ==> group_uniform((#[trigger] self.data.entries@[gj]).1),
                        forall|k: Seq<u32>|
                            #[trigger] map.data.contains_key(k) ==> exists|gj: int|
                                0 <= gj < gi && k == self.data.lkey(gj),
                    decreases n - gi,
                {
                    proof {
                        assert(self.data.entries@[gi as int].1.wf());
                        assert(lower_seq(self.data.entries@[gi as int].0@) == self.data.lkey(
                            gi as int,
                        ));
                        if map.data.contains_key(self.data.lkey(gi as int)) {
                            let gj = choose|gj: int|
                                0 <= gj < gi && self.data.lkey(gi as int) == self.data.lkey(gj);
                            crate::textkey::lemma_lex_total(
                                self.data.lkey(gj),
                                self.data.lkey(gi as int),
                            );
                            assert(false);
                        }
                    }
                    let ghost map_pre = map.data;
                    let res = self.to_tsx_data(
                        self.data.entries[gi].0.as_str(),
                        &self.data.entries[gi].1,
                        &mut map,
                        true,
                    );
                    match res {
                        Err(e) => {
                            proof {
                                assert(!group_uniform(self.data.entries@[gi as int].1));
                            }
                            return Err(e);
                        },
                        Ok(()) => {},
                    }
                    proof {
                        assert(group_uniform(self.data.entries@[gi as int].1));
                        assert forall|k: Seq<u32>|
                            #[trigger] map.data.contains_key(k) implies exists|gj: int|
                            0 <= gj < gi + 1 && k == self.data.lkey(gj) by {
                            if map_pre.contains_key(k) {
                                let gj = choose|gj: int|
                                    0 <= gj < gi && k == self.data.lkey(gj);
                                assert(0 <= gj < gi + 1 && k == self.data.lkey(gj));
                            } else {
                                assert(k == self.data.lkey(gi as int));
                            }
                        }
                    }
                    gi = gi + 1;
                }
                proof {
                    if exists|gi: int|
                        0 <= gi < self.data.spec_len() && !group_uniform(
                            (#[trigger] self.data.entries@[gi]).1,
                        ) {
                        let bad = choose|gi: int|
                            0 <= gi < self.data.spec_len() && !group_uniform(
                                (#[trigger] self.data.entries@[gi]).1,
                            );
                        assert(group_uniform(self.data.entries@[bad].1));
                    }
                }
                proof {
                    assert forall|k: Seq<u32>| #[trigger] map.data.contains_key(k) implies (exists|
                        gj: int,
                    |
                        0 <= gj < self.data.spec_len() && k == self.data.lkey(gj)) by {
                        let gj = choose|gj: int| 0 <= gj < n && k == self.data.lkey(gj);
                        assert(0 <= gj < self.data.spec_len() && k == self.data.lkey(gj));
                    }
                }
                Ok(Some(MeanTimeData { data: map }))
            }
        }
    }

    /// The total-time collection: raw measurements with trend lines,
    /// for one group or for all. Asking for an unknown group yields
    /// nothing. It fails, with `UnitMismatch`, exactly when some
    /// selected group's observations carry two different units.
    #[verifier::rlimit(100)]
    pub fn total_time_data(&self, group_name: Option<&str>) -> (r: Result<
        Option<TotalTimeData>,
        UnitMismatch,
    >)
        requires
            self.wf(),
            indexable(*self),
        ensures
            group_name matches Some(g) ==> (r matches Ok(o) ==> (o is Some
                == self.data.contains_key(lower_seq(g@)))),
            group_name is None ==> (r matches Ok(o) ==> o is Some),
            r matches Ok(o) ==> (o matches Some(m) ==> m.wf() && m.data.trendlines
                && !m.data.pdfdata),
            group_name matches Some(g) ==> ((r is Err) == (self.data.contains_key(lower_seq(g@))
                && !group_uniform(self.data.entries@[self.data.index_of(lower_seq(g@))].1))),
            group_name is None ==> ((r is Err) == (exists|gi: int|
                0 <= gi < self.data.spec_len() && !group_uniform(
                    (#[trigger] self.data.entries@[gi]).1,
                ))),
            group_name matches Some(g) ==> (r matches Ok(o) ==> (o matches Some(m)
                ==> m.data.data.contains_key(lower_seq(g@)))),
            group_name matches Some(g) ==> (r matches Ok(o) ==> (o matches Some(m)
                ==> m.data.data.spec_len() == 1)),
            group_name matches Some(g) ==> (r matches Ok(o) ==> (o matches Some(m)
                ==> crate::tsxdata::bucket_total(m.data.data.entries@[m.data.data.index_of(lower_seq(g@))].1.points.entries@) == points_count(
                    self.data.entries@[self.data.index_of(lower_seq(g@))].1.fn_map.entries@,
                ))),
            group_name matches Some(g) ==> (r matches Ok(o) ==> (o matches Some(m)
                ==> (forall|k: u64|
                    #[trigger] m.data.data.entries@[m.data.data.index_of(lower_seq(g@))].1.points.contains_key(k) ==> (exists|fj: int, pj: int|
                        #![trigger self.data.entries@[self.data.index_of(lower_seq(g@))].1.fn_map.entries@[fj].1.dataset@[pj]]
                        0 <= fj < self.data.entries@[self.data.index_of(lower_seq(g@))].1.fn_map.spec_len() && 0 <= pj < self.data.entries@[self.data.index_of(lower_seq(g@))].1.fn_map.entries@[fj].1.dataset@.len()
                            && self.data.entries@[self.data.index_of(lower_seq(g@))].1.fn_map.entries@[fj].1.dataset@[pj].iter_count as u64 == k)))),
            group_name matches Some(g) ==> (r matches Ok(o) ==> (o matches Some(m)
                ==> (forall|fj: int, pj: int|
                    #![trigger self.data.entries@[self.data.index_of(lower_seq(g@))].1.fn_map.entries@[fj].1.dataset@[pj]]
                    0 <= fj < self.data.entries@[self.data.index_of(lower_seq(g@))].1.fn_map.spec_len() && 0 <= pj < self.data.entries@[self.data.index_of(lower_seq(g@))].1.fn_map.entries@[fj].1.dataset@.len()
                        ==> m.data.data.entries@[m.data.data.index_of(lower_seq(g@))].1.points.contains_key(
                        self.data.entries@[self.data.index_of(lower_seq(g@))].1.fn_map.entries@[fj].1.dataset@[pj].iter_count as u64,
                    )))),
            group_name matches Some(g) ==> (r matches Ok(o) ==> (o matches Some(m)
                ==> (forall|sj: u64|
                    #![trigger m.data.data.entries@[m.data.data.index_of(lower_seq(g@))].1.uv_analysis.contains_key(sj)]
                    sj < self.data.entries@[self.data.index_of(lower_seq(g@))].1.fn_map.spec_len() ==> m.data.data.entries@[m.data.data.index_of(lower_seq(g@))].1.uv_analysis.contains_key(sj)
                        && m.data.data.entries@[m.data.data.index_of(lower_seq(g@))].1.uv_analysis.entries@[m.data.data.entries@[m.data.data.index_of(lower_seq(g@))].1.uv_analysis.index_of(sj)].1.fn_name@ == self.data.entries@[self.data.index_of(lower_seq(g@))].1.fn_map.entries@[sj as int].0@
                        && m.data.data.entries@[m.data.data.index_of(lower_seq(g@))].1.uv_analysis.entries@[m.data.data.entries@[m.data.data.index_of(lower_seq(g@))].1.uv_analysis.index_of(sj)].1.sample@.len() == self.data.entries@[self.data.index_of(lower_seq(g@))].1.fn_map.entries@[sj as int].1.dataset@.len()))),
            group_name matches Some(g) ==> (r matches Ok(o) ==> (o matches Some(m)
                ==> (forall|sj: u64, pj: int|
                    #![trigger self.data.entries@[self.data.index_of(lower_seq(g@))].1.fn_map.entries@[sj as int].1.dataset@[pj]]
                    sj < self.data.entries@[self.data.index_of(lower_seq(g@))].1.fn_map.spec_len() && 0 <= pj < m.data.data.entries@[m.data.data.index_of(lower_seq(g@))].1.uv_analysis.entries@[m.data.data.entries@[m.data.data.index_of(lower_seq(g@))].1.uv_analysis.index_of(sj)].1.sample@.len() ==> m.data.data.entries@[m.data.data.index_of(lower_seq(g@))].1.uv_analysis.entries@[m.data.data.entries@[m.data.data.index_of(lower_seq(g@))].1.uv_analysis.index_of(sj)].1.sample@[pj] == self.data.entries@[self.data.index_of(lower_seq(g@))].1.fn_map.entries@[sj as int].1.dataset@[pj].measurement))),
            group_name matches Some(g) ==> (r matches Ok(o) ==> (o matches Some(m)
                ==> (forall|sj: u64|
                    #![trigger m.data.data.entries@[m.data.data.index_of(lower_seq(g@))].1.bv_analysis.contains_key(sj)]
                    sj < self.data.entries@[self.data.index_of(lower_seq(g@))].1.fn_map.spec_len() ==> m.data.data.entries@[m.data.data.index_of(lower_seq(g@))].1.bv_analysis.contains_key(sj) && m.data.data.entries@[m.data.data.index_of(lower_seq(g@))].1.bv_analysis.entries@[m.data.data.entries@[m.data.data.index_of(lower_seq(g@))].1.bv_analysis.index_of(sj)].1.obs@.len() == self.data.entries@[self.data.index_of(lower_seq(g@))].1.fn_map.entries@[sj as int].1.dataset@.len()))),
            group_name matches Some(g) ==> (r matches Ok(o) ==> (o matches Some(m)
                ==> (forall|sj: u64, pj: int|
                    #![trigger self.data.entries@[self.data.index_of(lower_seq(g@))].1.fn_map.entries@[sj as int].1.dataset@[pj]]
                    sj < self.data.entries@[self.data.index_of(lower_seq(g@))].1.fn_map.spec_len() && 0 <= pj < m.data.data.entries@[m.data.data.index_of(lower_seq(g@))].1.bv_analysis.entries@[m.data.data.entries@[m.data.data.index_of(lower_seq(g@))].1.bv_analysis.index_of(sj)].1.obs@.len() ==> m.data.data.entries@[m.data.data.index_of(lower_seq(g@))].1.bv_analysis.entries@[m.data.data.entries@[m.data.data.index_of(lower_seq(g@))].1.bv_analysis.index_of(sj)].1.obs@[pj].0 == self.data.entries@[self.data.index_of(lower_seq(g@))].1.fn_map.entries@[sj as int].1.dataset@[pj].iter_count
                        && m.data.data.entries@[m.data.data.index_of(lower_seq(g@))].1.bv_analysis.entries@[m.data.data.entries@[m.data.data.index_of(lower_seq(g@))].1.bv_analysis.index_of(sj)].1.obs@[pj].1 == self.data.entries@[self.data.index_of(lower_seq(g@))].1.fn_map.entries@[sj as int].1.dataset@[pj].measurement))),

            group_name is None ==> (r matches Ok(o) ==> (o matches Some(m) ==> forall|gi: int|
                0 <= gi < self.data.spec_len() ==> m.data.data.contains_key(
                    lower_seq((#[trigger] self.data.entries@[gi]).0@),
                ))),
            group_name is None ==> (r matches Ok(o) ==> (o matches Some(m) ==> (forall|k: Seq<
                u32,
            >|
                #[trigger] m.data.data.contains_key(k) ==> (exists|gj: int|
                    0 <= gj < self.data.spec_len() && k == self.data.lkey(gj))))),
    {
        let mut map = TsxDataMap::new("TOTAL_TIME_DATA", true, false);
        if group_name.is_some() {
            let g = match group_name {
                Some(s) => s,
                None => {
                    proof {
                        assert(false);
                    }
                    ""
                },
            };
            {
                let (pos, found) = self.data.locate(g);
                if !found {
                    return Ok(None);
                }
                proof {
                    assert(self.data.entries@[pos as int].1.wf());
                    self.data.lemma_index_unique(pos as int);
                    assert(!map.data.contains_key(lower_seq(g@)));
                }
                match self.to_tsx_data(g, &self.data.entries[pos].1, &mut map, false) {
                    Err(e) => {
                        proof {
                            assert(self.data.contains_key(lower_seq(g@)));
                            assert(self.data.index_of(lower_seq(g@)) == pos as int);
                            assert(!group_uniform(
                                self.data.entries@[self.data.index_of(lower_seq(g@))].1,
                            ));
                        }
                        Err(e)
                    },
                    Ok(()) => {
                        proof {
                            assert(self.data.contains_key(lower_seq(g@)));
                            assert(self.data.index_of(lower_seq(g@)) == pos as int);
                            assert(group_uniform(
                                self.data.entries@[self.data.index_of(lower_seq(g@))].1,
                            ));
                            // the collection holds exactly this one group
                            assert forall|k: Seq<u32>| #[trigger] map.data.contains_key(k) implies k
                                == lower_seq(g@) by {}
                            if map.data.spec_len() >= 2 {
                                assert(map.data.contains_key(map.data.lkey(0)));
                                assert(map.data.contains_key(map.data.lkey(1)));
                                assert(crate::textkey::lex_lt(map.data.lkey(0), map.data.lkey(1)));
                                crate::textkey::lemma_lex_total(map.data.lkey(0), map.data.lkey(1));
                                assert(false);
                            }
                            assert(map.data.contains_key(lower_seq(g@)));
                            assert(map.data.spec_len() == 1);
                            assert(crate::tsxdata::bucket_total(map.data.entries@[map.data.index_of(lower_seq(g@))].1.points.entries@)
                                == points_count(self.data.entries@[self.data.index_of(lower_seq(g@))].1.fn_map.entries@));
                            assert forall|k: u64| #[trigger] map.data.entries@[map.data.index_of(lower_seq(g@))].1.points.contains_key(k) implies (exists|fj: int, pj: int|
                                #![trigger self.data.entries@[self.data.index_of(lower_seq(g@))].1.fn_map.entries@[fj].1.dataset@[pj]]
                                0 <= fj < self.data.entries@[self.data.index_of(lower_seq(g@))].1.fn_map.spec_len() && 0 <= pj < self.data.entries@[self.data.index_of(lower_seq(g@))].1.fn_map.entries@[fj].1.dataset@.len()
                                    && self.data.entries@[self.data.index_of(lower_seq(g@))].1.fn_map.entries@[fj].1.dataset@[pj].iter_count as u64 == k) by {
                                assert(map.data.entries@[map.data.index_of(lower_seq(g@))].1.points.contains_key(k));
                            }
                            assert forall|fj: int, pj: int|
                                0 <= fj < self.data.entries@[self.data.index_of(lower_seq(g@))].1.fn_map.spec_len() && 0 <= pj < self.data.entries@[self.data.index_of(lower_seq(g@))].1.fn_map.entries@[fj].1.dataset@.len() implies map.data.entries@[map.data.index_of(lower_seq(g@))].1.points.contains_key(
                                (#[trigger] self.data.entries@[self.data.index_of(lower_seq(g@))].1.fn_map.entries@[fj].1.dataset@[pj]).iter_count as u64,
                            ) by {
                                assert(self.data.entries@[self.data.index_of(lower_seq(g@))].1.fn_map.entries@[fj].1.dataset@[pj] == self.data.entries@[self.data.index_of(lower_seq(g@))].1.fn_map.entries@[fj].1.dataset@[pj]);
                            }

                            assert forall|sj: u64|
                                sj < self.data.entries@[self.data.index_of(lower_seq(g@))].1.fn_map.spec_len() implies #[trigger] map.data.entries@[map.data.index_of(lower_seq(g@))].1.uv_analysis.contains_key(sj)
                                && map.data.entries@[map.data.index_of(lower_seq(g@))].1.uv_analysis.entries@[map.data.entries@[map.data.index_of(lower_seq(g@))].1.uv_analysis.index_of(sj)].1.fn_name@ == self.data.entries@[self.data.index_of(lower_seq(g@))].1.fn_map.entries@[sj as int].0@
                                && map.data.entries@[map.data.index_of(lower_seq(g@))].1.uv_analysis.entries@[map.data.entries@[map.data.index_of(lower_seq(g@))].1.uv_analysis.index_of(sj)].1.sample@.len() == self.data.entries@[self.data.index_of(lower_seq(g@))].1.fn_map.entries@[sj as int].1.dataset@.len() by {
                                assert(map.data.entries@[map.data.index_of(lower_seq(g@))].1.uv_analysis.contains_key(sj));
                            }
                            assert forall|sj: u64, pj: int|
                                sj < self.data.entries@[self.data.index_of(lower_seq(g@))].1.fn_map.spec_len() && 0 <= pj < map.data.entries@[map.data.index_of(lower_seq(g@))].1.uv_analysis.entries@[map.data.entries@[map.data.index_of(lower_seq(g@))].1.uv_analysis.index_of(sj)].1.sample@.len() implies map.data.entries@[map.data.index_of(lower_seq(g@))].1.uv_analysis.entries@[map.data.entries@[map.data.index_of(lower_seq(g@))].1.uv_analysis.index_of(sj)].1.sample@[pj] == (
                            #[trigger] self.data.entries@[self.data.index_of(lower_seq(g@))].1.fn_map.entries@[sj as int].1.dataset@[pj]).measurement by {
                                assert(map.data.entries@[map.data.index_of(lower_seq(g@))].1.uv_analysis.contains_key(sj));
                            }
                            assert forall|sj: u64|
                                sj < self.data.entries@[self.data.index_of(lower_seq(g@))].1.fn_map.spec_len() implies #[trigger] map.data.entries@[map.data.index_of(lower_seq(g@))].1.bv_analysis.contains_key(sj)
                                && map.data.entries@[map.data.index_of(lower_seq(g@))].1.bv_analysis.entries@[map.data.entries@[map.data.index_of(lower_seq(g@))].1.bv_analysis.index_of(sj)].1.obs@.len() == self.data.entries@[self.data.index_of(lower_seq(g@))].1.fn_map.entries@[sj as int].1.dataset@.len() by {
                                assert(map.data.entries@[map.data.index_of(lower_seq(g@))].1.bv_analysis.contains_key(sj));
                            }
                            assert forall|sj: u64, pj: int|
                                sj < self.data.entries@[self.data.index_of(lower_seq(g@))].1.fn_map.spec_len() && 0 <= pj < map.data.entries@[map.data.index_of(lower_seq(g@))].1.bv_analysis.entries@[map.data.entries@[map.data.index_of(lower_seq(g@))].1.bv_analysis.index_of(sj)].1.obs@.len() implies map.data.entries@[map.data.index_of(lower_seq(g@))].1.bv_analysis.entries@[map.data.entries@[map.data.index_of(lower_seq(g@))].1.bv_analysis.index_of(sj)].1.obs@[pj].0 == (
                            #[trigger] self.data.entries@[self.data.index_of(lower_seq(g@))].1.fn_map.entries@[sj as int].1.dataset@[pj]).iter_count && map.data.entries@[map.data.index_of(lower_seq(g@))].1.bv_analysis.entries@[map.data.entries@[map.data.index_of(lower_seq(g@))].1.bv_analysis.index_of(sj)].1.obs@[pj].1 == self.data.entries@[self.data.index_of(lower_seq(g@))].1.fn_map.entries@[sj as int].1.dataset@[pj].measurement by {
                                assert(map.data.entries@[map.data.index_of(lower_seq(g@))].1.bv_analysis.contains_key(sj));
                            }
                        }
                        return Ok(Some(TotalTimeData { data: map }));
                    },
                }
            }
        } else {
            {
                let n = self.data.len();
                let mut gi: usize = 0;
                while gi < n
                    invariant
                        group_name is None,
                        gi <= n,
                        n == self.data.spec_len(),
                        self.wf(),
                        indexable(*self),
                        map.wf(),
                        map.trendlines,
                        !map.pdfdata,
                        forall|gj: int|
                            0 <= gj < gi ==> map.data.contains_key(
                                lower_seq((#[trigger] self.data.entries@[gj]).0@),
                            ),
                        forall|gj: int|
                            0 <= gj < gi ==> group_uniform((#[trigger] self.data.entries@[gj]).1),
                        forall|k: Seq<u32>|
                            #[trigger] map.data.contains_key(k) ==> exists|gj: int|
                                0 <= gj < gi && k == self.data.lkey(gj),
                    decreases n - gi,
                {
                    proof {
                        assert(self.data.entries@[gi as int].1.wf());
                        assert(lower_seq(self.data.entries@[gi as int].0@) == self.data.lkey(
                            gi as int,
                        ));
                        if map.data.contains_key(self.data.lkey(gi as int)) {
                            let gj = choose|gj: int|
                                0 <= gj < gi && self.data.lkey(gi as int) == self.data.lkey(gj);
                            crate::textkey::lemma_lex_total(
                                self.data.lkey(gj),
                                self.data.lkey(gi as int),
                            );
                            assert(false);
                        }
                    }
                    let ghost map_pre = map.data;
                    let res = self.to_tsx_data(
                        self.data.entries[gi].0.as_str(),
                        &self.data.entries[gi].1,
                        &mut map,
                        false,
                    );
                    match res {
                        Err(e) => {
                            proof {
                                assert(!group_uniform(self.data.entries@[gi as int].1));
                            }
                            return Err(e);
                        },
                        Ok(()) => {},
                    }
                    proof {
                        assert(group_uniform(self.data.entries@[gi as int].1));
                        assert forall|k: Seq<u32>|
                            #[trigger] map.data.contains_key(k) implies exists|gj: int|
                            0 <= gj < gi + 1 && k == self.data.lkey(gj) by {
                            if map_pre.contains_key(k) {
                                let gj = choose|gj: int|
                                    0 <= gj < gi && k == self.data.lkey(gj);
                                assert(0 <= gj < gi + 1 && k == self.data.lkey(gj));
                            } else {
                                assert(k == self.data.lkey(gi as int));
                            }
                        }
                    }
                    gi = gi + 1;
                }
                proof {
                    if exists|gi: int|
                        0 <= gi < self.data.spec_len() && !group_uniform(
                            (#[trigger] self.data.entries@[gi]).1,
                        ) {
                        let bad = choose|gi: int|
                            0 <= gi < self.data.spec_len() && !group_uniform(
                                (#[trigger] self.data.entries@[gi]).1,
                            );
                        assert(group_uniform(self.data.entries@[bad].1));
                    }
                }
                proof {
                    assert forall|k: Seq<u32>| #[trigger] map.data.contains_key(k) implies (exists|
                        gj: int,
                    |
                        0 <= gj < self.data.spec_len() && k == self.data.lkey(gj)) by {
                        let gj = choose|gj: int| 0 <= gj < n && k == self.data.lkey(gj);
                        assert(0 <= gj < self.data.spec_len() && k == self.data.lkey(gj));
                    }
                }
                Ok(Some(TotalTimeData { data: map }))
            }
        }
    }
}

} // verus!
