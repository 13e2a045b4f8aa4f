//! One plot per group: the group's collections and series-index
//! table, assembled from the store.
use vstd::prelude::*;

verus! {

use crate::collect::indexable;
use crate::infomap::SeriesInfoMap;
use crate::rawdata::CriterionData;
use crate::tsxdata::MeanTimeData;
use crate::tsxdata::TotalTimeData;
use crate::tsxdata::UnitMismatch;

/// The chart data of one group.
pub struct CriterionPlot {
    pub group: String,
    pub mean_time_data: Option<MeanTimeData>,
    pub total_time_data: Option<TotalTimeData>,
    pub series_info_map: Option<SeriesInfoMap>,
}

impl CriterionPlot {
    pub fn new(group: &str) -> (r: CriterionPlot)
        ensures
            r.group@ == group@,
            r.mean_time_data is None,
            r.total_time_data is None,
            r.series_info_map is None,
    {
        CriterionPlot {
            group: group.to_owned(),
            series_info_map: None,
            mean_time_data: None,
            total_time_data: None,
        }
    }

    pub fn set_mt_data(&mut self, mt_data: Option<MeanTimeData>)
        ensures
            final(self).mean_time_data == mt_data,
            final(self).group == old(self).group,
            final(self).total_time_data == old(self).total_time_data,
            final(self).series_info_map == old(self).series_info_map,
    {
        self.mean_time_data = mt_data;
    }

    pub fn set_tt_data(&mut self, tt_data: Option<TotalTimeData>)
        ensures
            final(self).total_time_data == tt_data,
            final(self).group == old(self).group,
            final(self).mean_time_data == old(self).mean_time_data,
            final(self).series_info_map == old(self).series_info_map,
    {
        self.total_time_data = tt_data;
    }

    pub fn set_si_map(&mut self, si_map: Option<SeriesInfoMap>)
        ensures
            final(self).series_info_map == si_map,
            final(self).group == old(self).group,
            final(self).mean_time_data == old(self).mean_time_data,
            final(self).total_time_data == old(self).total_time_data,
    {
        self.series_info_map = si_map;
    }

    pub fn group(&self) -> (r: &String)
        ensures
            r == self.group,
    {
        &self.group
    }
}

/// The whole run's chart data: the store and, from it, one plot per
/// group.
pub struct CriterionPlots {
    pub cdata: CriterionData,
}

impl CriterionPlots {
    pub fn new() -> (r: CriterionPlots)
        ensures
            r.cdata.wf(),
            r.cdata.data.entries@.len() == 0,
    {
        CriterionPlots { cdata: CriterionData::new() }
    }

    /// One plot per group, in ascending group order, each holding the
    /// group's series-index table and both collections built from
    /// exactly that group's observations: each collection holds that
    /// one group, its series carry the variants' names in ascending
    /// variant order, and its values are the group's measurements -
    /// verbatim in the total-time part, divided by their iteration
    /// counts in the mean-time part. It fails, with `UnitMismatch`,
    /// exactly when some group's observations carry two different
    /// units.
    pub fn plots(&self) -> (r: Result<Vec<CriterionPlot>, UnitMismatch>)
        requires
            self.cdata.wf(),
            indexable(self.cdata),
        ensures
            (r is Err) == (exists|gi: int|
                0 <= gi < self.cdata.data.spec_len() && !crate::collect::group_uniform(
                    (#[trigger] self.cdata.data.entries@[gi]).1,
                )),
            r matches Ok(v) ==> v@.len() == self.cdata.data.spec_len(),
            r matches Ok(v) ==> forall|i: int|
                0 <= i < v@.len() ==> (#[trigger] v@[i]).group@ == self.cdata.data.entries@[i].0@
                    && v@[i].series_info_map is Some && v@[i].mean_time_data is Some
                    && v@[i].total_time_data is Some
                    && v@[i].mean_time_data->Some_0.data.data.contains_key(self.cdata.data.lkey(i))
                    && v@[i].mean_time_data->Some_0.data.data.spec_len() == 1
                    && v@[i].total_time_data->Some_0.data.data.contains_key(
                    self.cdata.data.lkey(i),
                ) && v@[i].total_time_data->Some_0.data.data.spec_len() == 1,
            r matches Ok(v) ==> (forall|i: int, sj: u64, pj: int|
                    #![trigger self.cdata.data.entries@[i].1.fn_map.entries@[sj as int].1.dataset@[pj]]
                    0 <= i < v@.len() && sj < self.cdata.data.entries@[i].1.fn_map.spec_len() && 0 <= pj < v@[i].mean_time_data->Some_0.data.data.entries@[v@[i].mean_time_data->Some_0.data.data.index_of(self.cdata.data.lkey(i))].1.uv_analysis.entries@[v@[i].mean_time_data->Some_0.data.data.entries@[v@[i].mean_time_data->Some_0.data.data.index_of(self.cdata.data.lkey(i))].1.uv_analysis.index_of(sj)].1.sample@.len() ==> crate::fbits::rounds_as(
                        v@[i].mean_time_data->Some_0.data.data.entries@[v@[i].mean_time_data->Some_0.data.data.index_of(self.cdata.data.lkey(i))].1.uv_analysis.entries@[v@[i].mean_time_data->Some_0.data.data.entries@[v@[i].mean_time_data->Some_0.data.data.index_of(self.cdata.data.lkey(i))].1.uv_analysis.index_of(sj)].1.sample@[pj],
                        crate::fbits::div_bits(
                            self.cdata.data.entries@[i].1.fn_map.entries@[sj as int].1.dataset@[pj].measurement,
                            crate::fbits::f64_of_u32(self.cdata.data.entries@[i].1.fn_map.entries@[sj as int].1.dataset@[pj].iter_count),
                        ),
                    )),
            r matches Ok(v) ==> (forall|i: int, sj: u64, pj: int|
                    #![trigger self.cdata.data.entries@[i].1.fn_map.entries@[sj as int].1.dataset@[pj]]
                    0 <= i < v@.len() && sj < self.cdata.data.entries@[i].1.fn_map.spec_len() && 0 <= pj < v@[i].total_time_data->Some_0.data.data.entries@[v@[i].total_time_data->Some_0.data.data.index_of(self.cdata.data.lkey(i))].1.uv_analysis.entries@[v@[i].total_time_data->Some_0.data.data.entries@[v@[i].total_time_data->Some_0.data.data.index_of(self.cdata.data.lkey(i))].1.uv_analysis.index_of(sj)].1.sample@.len() ==> v@[i].total_time_data->Some_0.data.data.entries@[v@[i].total_time_data->Some_0.data.data.index_of(self.cdata.data.lkey(i))].1.uv_analysis.entries@[v@[i].total_time_data->Some_0.data.data.entries@[v@[i].total_time_data->Some_0.data.data.index_of(self.cdata.data.lkey(i))].1.uv_analysis.index_of(sj)].1.sample@[pj] == self.cdata.data.entries@[i].1.fn_map.entries@[sj as int].1.dataset@[pj].measurement),
            r matches Ok(v) ==> (forall|i: int, sj: u64|
                    #![trigger v@[i].mean_time_data->Some_0.data.data.entries@[v@[i].mean_time_data->Some_0.data.data.index_of(self.cdata.data.lkey(i))].1.uv_analysis.contains_key(sj)]
                    0 <= i < v@.len() && sj < self.cdata.data.entries@[i].1.fn_map.spec_len() ==> v@[i].mean_time_data->Some_0.data.data.entries@[v@[i].mean_time_data->Some_0.data.data.index_of(self.cdata.data.lkey(i))].1.uv_analysis.contains_key(sj)
                        && v@[i].mean_time_data->Some_0.data.data.entries@[v@[i].mean_time_data->Some_0.data.data.index_of(self.cdata.data.lkey(i))].1.uv_analysis.entries@[v@[i].mean_time_data->Some_0.data.data.entries@[v@[i].mean_time_data->Some_0.data.data.index_of(self.cdata.data.lkey(i))].1.uv_analysis.index_of(sj)].1.fn_name@ == self.cdata.data.entries@[i].1.fn_map.entries@[sj as int].0@
                        && v@[i].mean_time_data->Some_0.data.data.entries@[v@[i].mean_time_data->Some_0.data.data.index_of(self.cdata.data.lkey(i))].1.uv_analysis.entries@[v@[i].mean_time_data->Some_0.data.data.entries@[v@[i].mean_time_data->Some_0.data.data.index_of(self.cdata.data.lkey(i))].1.uv_analysis.index_of(sj)].1.sample@.len() == self.cdata.data.entries@[i].1.fn_map.entries@[sj as int].1.dataset@.len()),
            r matches Ok(v) ==> (forall|i: int, sj: u64|
                    #![trigger v@[i].total_time_data->Some_0.data.data.entries@[v@[i].total_time_data->Some_0.data.data.index_of(self.cdata.data.lkey(i))].1.uv_analysis.contains_key(sj)]
                    0 <= i < v@.len() && sj < self.cdata.data.entries@[i].1.fn_map.spec_len() ==> v@[i].total_time_data->Some_0.data.data.entries@[v@[i].total_time_data->Some_0.data.data.index_of(self.cdata.data.lkey(i))].1.uv_analysis.contains_key(sj)
                        && v@[i].total_time_data->Some_0.data.data.entries@[v@[i].total_time_data->Some_0.data.data.index_of(self.cdata.data.lkey(i))].1.uv_analysis.entries@[v@[i].total_time_data->Some_0.data.data.entries@[v@[i].total_time_data->Some_0.data.data.index_of(self.cdata.data.lkey(i))].1.uv_analysis.index_of(sj)].1.fn_name@ == self.cdata.data.entries@[i].1.fn_map.entries@[sj as int].0@
                        && v@[i].total_time_data->Some_0.data.data.entries@[v@[i].total_time_data->Some_0.data.data.index_of(self.cdata.data.lkey(i))].1.uv_analysis.entries@[v@[i].total_time_data->Some_0.data.data.entries@[v@[i].total_time_data->Some_0.data.data.index_of(self.cdata.data.lkey(i))].1.uv_analysis.index_of(sj)].1.sample@.len() == self.cdata.data.entries@[i].1.fn_map.entries@[sj as int].1.dataset@.len()),
    {
        let groups = self.cdata.groups();
        let mut cplots: Vec<CriterionPlot> = Vec::new();
        let n = groups.len();
        let mut gi: usize = 0;
        while gi < n
            invariant
                gi <= n,
                n == groups@.len(),
                n == self.cdata.data.spec_len(),
                self.cdata.wf(),
                indexable(self.cdata),
                forall|i: int|
                    0 <= i < n ==> #[trigger] groups@[i]@ == self.cdata.data.entries@[i].0@,
                cplots@.len() == gi,
                forall|i: int|
                    0 <= i < gi ==> (#[trigger] cplots@[i]).group@
                        == self.cdata.data.entries@[i].0@ && cplots@[i].series_info_map is Some
                        && cplots@[i].mean_time_data is Some && cplots@[i].total_time_data is Some
                        && cplots@[i].mean_time_data->Some_0.data.data.contains_key(
                        self.cdata.data.lkey(i),
                    ) && cplots@[i].mean_time_data->Some_0.data.data.spec_len() == 1
                        && cplots@[i].total_time_data->Some_0.data.data.contains_key(
                        self.cdata.data.lkey(i),
                    ) && cplots@[i].total_time_data->Some_0.data.data.spec_len() == 1,
                (forall|i: int, sj: u64, pj: int|
                        #![trigger self.cdata.data.entries@[i].1.fn_map.entries@[sj as int].1.dataset@[pj]]
                        0 <= i < gi && sj < self.cdata.data.entries@[i].1.fn_map.spec_len() && 0 <= pj < cplots@[i].mean_time_data->Some_0.data.data.entries@[cplots@[i].mean_time_data->Some_0.data.data.index_of(self.cdata.data.lkey(i))].1.uv_analysis.entries@[cplots@[i].mean_time_data->Some_0.data.data.entries@[cplots@[i].mean_time_data->Some_0.data.data.index_of(self.cdata.data.lkey(i))].1.uv_analysis.index_of(sj)].1.sample@.len() ==> crate::fbits::rounds_as(
                            cplots@[i].mean_time_data->Some_0.data.data.entries@[cplots@[i].mean_time_data->Some_0.data.data.index_of(self.cdata.data.lkey(i))].1.uv_analysis.entries@[cplots@[i].mean_time_data->Some_0.data.data.entries@[cplots@[i].mean_time_data->Some_0.data.data.index_of(self.cdata.data.lkey(i))].1.uv_analysis.index_of(sj)].1.sample@[pj],
                            crate::fbits::div_bits(
                                self.cdata.data.entries@[i].1.fn_map.entries@[sj as int].1.dataset@[pj].measurement,
                                crate::fbits::f64_of_u32(self.cdata.data.entries@[i].1.fn_map.entries@[sj as int].1.dataset@[pj].iter_count),
                            ),
                        )),
                (forall|i: int, sj: u64, pj: int|
                        #![trigger self.cdata.data.entries@[i].1.fn_map.entries@[sj as int].1.dataset@[pj]]
                        0 <= i < gi && sj < self.cdata.data.entries@[i].1.fn_map.spec_len() && 0 <= pj < cplots@[i].total_time_data->Some_0.data.data.entries@[cplots@[i].total_time_data->Some_0.data.data.index_of(self.cdata.data.lkey(i))].1.uv_analysis.entries@[cplots@[i].total_time_data->Some_0.data.data.entries@[cplots@[i].total_time_data->Some_0.data.data.index_of(self.cdata.data.lkey(i))].1.uv_analysis.index_of(sj)].1.sample@.len() ==> cplots@[i].total_time_data->Some_0.data.data.entries@[cplots@[i].total_time_data->Some_0.data.data.index_of(self.cdata.data.lkey(i))].1.uv_analysis.entries@[cplots@[i].total_time_data->Some_0.data.data.entries@[cplots@[i].total_time_data->Some_0.data.data.index_of(self.cdata.data.lkey(i))].1.uv_analysis.index_of(sj)].1.sample@[pj] == self.cdata.data.entries@[i].1.fn_map.entries@[sj as int].1.dataset@[pj].measurement),
                (forall|i: int, sj: u64|
                        #![trigger cplots@[i].mean_time_data->Some_0.data.data.entries@[cplots@[i].mean_time_data->Some_0.data.data.index_of(self.cdata.data.lkey(i))].1.uv_analysis.contains_key(sj)]
                        0 <= i < gi && sj < self.cdata.data.entries@[i].1.fn_map.spec_len() ==> cplots@[i].mean_time_data->Some_0.data.data.entries@[cplots@[i].mean_time_data->Some_0.data.data.index_of(self.cdata.data.lkey(i))].1.uv_analysis.contains_key(sj)
                            && cplots@[i].mean_time_data->Some_0.data.data.entries@[cplots@[i].mean_time_data->Some_0.data.data.index_of(self.cdata.data.lkey(i))].1.uv_analysis.entries@[cplots@[i].mean_time_data->Some_0.data.data.entries@[cplots@[i].mean_time_data->Some_0.data.data.index_of(self.cdata.data.lkey(i))].1.uv_analysis.index_of(sj)].1.fn_name@ == self.cdata.data.entries@[i].1.fn_map.entries@[sj as int].0@
                            && cplots@[i].mean_time_data->Some_0.data.data.entries@[cplots@[i].mean_time_data->Some_0.data.data.index_of(self.cdata.data.lkey(i))].1.uv_analysis.entries@[cplots@[i].mean_time_data->Some_0.data.data.entries@[cplots@[i].mean_time_data->Some_0.data.data.index_of(self.cdata.data.lkey(i))].1.uv_analysis.index_of(sj)].1.sample@.len() == self.cdata.data.entries@[i].1.fn_map.entries@[sj as int].1.dataset@.len()),
                (forall|i: int, sj: u64|
                        #![trigger cplots@[i].total_time_data->Some_0.data.data.entries@[cplots@[i].total_time_data->Some_0.data.data.index_of(self.cdata.data.lkey(i))].1.uv_analysis.contains_key(sj)]
                        0 <= i < gi && sj < self.cdata.data.entries@[i].1.fn_map.spec_len() ==> cplots@[i].total_time_data->Some_0.data.data.entries@[cplots@[i].total_time_data->Some_0.data.data.index_of(self.cdata.data.lkey(i))].1.uv_analysis.contains_key(sj)
                            && cplots@[i].total_time_data->Some_0.data.data.entries@[cplots@[i].total_time_data->Some_0.data.data.index_of(self.cdata.data.lkey(i))].1.uv_analysis.entries@[cplots@[i].total_time_data->Some_0.data.data.entries@[cplots@[i].total_time_data->Some_0.data.data.index_of(self.cdata.data.lkey(i))].1.uv_analysis.index_of(sj)].1.fn_name@ == self.cdata.data.entries@[i].1.fn_map.entries@[sj as int].0@
                            && cplots@[i].total_time_data->Some_0.data.data.entries@[cplots@[i].total_time_data->Some_0.data.data.index_of(self.cdata.data.lkey(i))].1.uv_analysis.entries@[cplots@[i].total_time_data->Some_0.data.data.entries@[cplots@[i].total_time_data->Some_0.data.data.index_of(self.cdata.data.lkey(i))].1.uv_analysis.index_of(sj)].1.sample@.len() == self.cdata.data.entries@[i].1.fn_map.entries@[sj as int].1.dataset@.len()),
                forall|gj: int|
                    0 <= gj < gi ==> crate::collect::group_uniform(
                        (#[trigger] self.cdata.data.entries@[gj]).1,
                    ),
            decreases n - gi,
        {
            let group = &groups[gi];
            proof {
                assert(self.cdata.data.lkey(gi as int) == crate::textkey::lower_seq(group@));
                assert(self.cdata.data.contains_key(crate::textkey::lower_seq(group@)));
            }
            proof {
                self.cdata.data.lemma_index_unique(gi as int);
            }
            let mut cplot = CriterionPlot::new(group.as_str());

            cplot.set_si_map(self.cdata.series_info_map(Some(group.as_str())));
            match self.cdata.total_time_data(Some(group.as_str())) {
                Err(e) => {
                    proof {
                        assert(!crate::collect::group_uniform(
                            self.cdata.data.entries@[gi as int].1,
                        ));
                    }
                    return Err(e);
                },
                Ok(tt) => {
                    cplot.set_tt_data(tt);
                },
            }
            proof {
                assert(crate::collect::group_uniform(self.cdata.data.entries@[gi as int].1));
            }
            match self.cdata.mean_time_data(Some(group.as_str())) {
                Err(e) => {
                    proof {
                        assert(!crate::collect::group_uniform(
                            self.cdata.data.entries@[gi as int].1,
                        ));
                    }
                    return Err(e);
                },
                Ok(mt) => {
                    cplot.set_mt_data(mt);
                },
            }
            let ghost pre_plots = cplots@;
            cplots.push(cplot);
            gi = gi + 1;
            proof {
                assert forall|i: int, sj: u64|
                    0 <= i < gi && sj < self.cdata.data.entries@[i].1.fn_map.spec_len() implies #[trigger] cplots@[i].mean_time_data->Some_0.data.data.entries@[cplots@[i].mean_time_data->Some_0.data.data.index_of(self.cdata.data.lkey(i))].1.uv_analysis.contains_key(sj)
                    && cplots@[i].mean_time_data->Some_0.data.data.entries@[cplots@[i].mean_time_data->Some_0.data.data.index_of(self.cdata.data.lkey(i))].1.uv_analysis.entries@[cplots@[i].mean_time_data->Some_0.data.data.entries@[cplots@[i].mean_time_data->Some_0.data.data.index_of(self.cdata.data.lkey(i))].1.uv_analysis.index_of(sj)].1.fn_name@ == self.cdata.data.entries@[i].1.fn_map.entries@[sj as int].0@
                    && cplots@[i].mean_time_data->Some_0.data.data.entries@[cplots@[i].mean_time_data->Some_0.data.data.index_of(self.cdata.data.lkey(i))].1.uv_analysis.entries@[cplots@[i].mean_time_data->Some_0.data.data.entries@[cplots@[i].mean_time_data->Some_0.data.data.index_of(self.cdata.data.lkey(i))].1.uv_analysis.index_of(sj)].1.sample@.len() == self.cdata.data.entries@[i].1.fn_map.entries@[sj as int].1.dataset@.len() by {
                    if i < gi - 1 {
                        assert(cplots@[i] == pre_plots[i]);
                        assert(pre_plots[i].mean_time_data->Some_0.data.data.entries@[pre_plots[i].mean_time_data->Some_0.data.data.index_of(self.cdata.data.lkey(i))].1.uv_analysis.contains_key(sj));
                    } else {
                        assert(cplots@[i] == cplot);
                        assert(cplots@[i].mean_time_data->Some_0.data.data.entries@[cplots@[i].mean_time_data->Some_0.data.data.index_of(self.cdata.data.lkey(i))].1.uv_analysis.contains_key(sj));
                    }
                }
                assert forall|i: int, sj: u64|
                    0 <= i < gi && sj < self.cdata.data.entries@[i].1.fn_map.spec_len() implies #[trigger] cplots@[i].total_time_data->Some_0.data.data.entries@[cplots@[i].total_time_data->Some_0.data.data.index_of(self.cdata.data.lkey(i))].1.uv_analysis.contains_key(sj)
                    && cplots@[i].total_time_data->Some_0.data.data.entries@[cplots@[i].total_time_data->Some_0.data.data.index_of(self.cdata.data.lkey(i))].1.uv_analysis.entries@[cplots@[i].total_time_data->Some_0.data.data.entries@[cplots@[i].total_time_data->Some_0.data.data.index_of(self.cdata.data.lkey(i))].1.uv_analysis.index_of(sj)].1.fn_name@ == self.cdata.data.entries@[i].1.fn_map.entries@[sj as int].0@
                    && cplots@[i].total_time_data->Some_0.data.data.entries@[cplots@[i].total_time_data->Some_0.data.data.index_of(self.cdata.data.lkey(i))].1.uv_analysis.entries@[cplots@[i].total_time_data->Some_0.data.data.entries@[cplots@[i].total_time_data->Some_0.data.data.index_of(self.cdata.data.lkey(i))].1.uv_analysis.index_of(sj)].1.sample@.len() == self.cdata.data.entries@[i].1.fn_map.entries@[sj as int].1.dataset@.len() by {
                    if i < gi - 1 {
                        assert(cplots@[i] == pre_plots[i]);
                        assert(pre_plots[i].total_time_data->Some_0.data.data.entries@[pre_plots[i].total_time_data->Some_0.data.data.index_of(self.cdata.data.lkey(i))].1.uv_analysis.contains_key(sj));
                    } else {
                        assert(cplots@[i] == cplot);
                        assert(cplots@[i].total_time_data->Some_0.data.data.entries@[cplots@[i].total_time_data->Some_0.data.data.index_of(self.cdata.data.lkey(i))].1.uv_analysis.contains_key(sj));
                    }
                }
                assert forall|i: int, sj: u64, pj: int|
                    0 <= i < gi && sj < self.cdata.data.entries@[i].1.fn_map.spec_len() && 0 <= pj < cplots@[i].mean_time_data->Some_0.data.data.entries@[cplots@[i].mean_time_data->Some_0.data.data.index_of(self.cdata.data.lkey(i))].1.uv_analysis.entries@[cplots@[i].mean_time_data->Some_0.data.data.entries@[cplots@[i].mean_time_data->Some_0.data.data.index_of(self.cdata.data.lkey(i))].1.uv_analysis.index_of(sj)].1.sample@.len() implies crate::fbits::rounds_as(
                        cplots@[i].mean_time_data->Some_0.data.data.entries@[cplots@[i].mean_time_data->Some_0.data.data.index_of(self.cdata.data.lkey(i))].1.uv_analysis.entries@[cplots@[i].mean_time_data->Some_0.data.data.entries@[cplots@[i].mean_time_data->Some_0.data.data.index_of(self.cdata.data.lkey(i))].1.uv_analysis.index_of(sj)].1.sample@[pj],
                        crate::fbits::div_bits(
                            (#[trigger] self.cdata.data.entries@[i].1.fn_map.entries@[sj as int].1.dataset@[pj]).measurement,
                            crate::fbits::f64_of_u32(self.cdata.data.entries@[i].1.fn_map.entries@[sj as int].1.dataset@[pj].iter_count),
                        ),
                    ) by {
                    assert(cplots@[i].mean_time_data->Some_0.data.data.entries@[cplots@[i].mean_time_data->Some_0.data.data.index_of(self.cdata.data.lkey(i))].1.uv_analysis.contains_key(sj));
                    if i < gi - 1 {
                        assert(cplots@[i] == pre_plots[i]);
                        assert(pre_plots[i].mean_time_data->Some_0.data.data.entries@[pre_plots[i].mean_time_data->Some_0.data.data.index_of(self.cdata.data.lkey(i))].1.uv_analysis.contains_key(sj));
                    } else {
                        assert(cplots@[i] == cplot);
                    }
                }
                assert forall|i: int, sj: u64, pj: int|
                    0 <= i < gi && sj < self.cdata.data.entries@[i].1.fn_map.spec_len() && 0 <= pj < cplots@[i].total_time_data->Some_0.data.data.entries@[cplots@[i].total_time_data->Some_0.data.data.index_of(self.cdata.data.lkey(i))].1.uv_analysis.entries@[cplots@[i].total_time_data->Some_0.data.data.entries@[cplots@[i].total_time_data->Some_0.data.data.index_of(self.cdata.data.lkey(i))].1.uv_analysis.index_of(sj)].1.sample@.len() implies cplots@[i].total_time_data->Some_0.data.data.entries@[cplots@[i].total_time_data->Some_0.data.data.index_of(self.cdata.data.lkey(i))].1.uv_analysis.entries@[cplots@[i].total_time_data->Some_0.data.data.entries@[cplots@[i].total_time_data->Some_0.data.data.index_of(self.cdata.data.lkey(i))].1.uv_analysis.index_of(sj)].1.sample@[pj] == (#[trigger] self.cdata.data.entries@[i].1.fn_map.entries@[sj as int].1.dataset@[pj]).measurement by {
                    assert(cplots@[i].total_time_data->Some_0.data.data.entries@[cplots@[i].total_time_data->Some_0.data.data.index_of(self.cdata.data.lkey(i))].1.uv_analysis.contains_key(sj));
                    if i < gi - 1 {
                        assert(cplots@[i] == pre_plots[i]);
                        assert(pre_plots[i].total_time_data->Some_0.data.data.entries@[pre_plots[i].total_time_data->Some_0.data.data.index_of(self.cdata.data.lkey(i))].1.uv_analysis.contains_key(sj));
                    } else {
                        assert(cplots@[i] == cplot);
                    }
                }
            }
        }
        proof {
            if exists|gi: int|
                0 <= gi < self.cdata.data.spec_len() && !crate::collect::group_uniform(
                    (#[trigger] self.cdata.data.entries@[gi]).1,
                ) {
                let bad = choose|gi: int|
                    0 <= gi < self.cdata.data.spec_len() && !crate::collect::group_uniform(
                        (#[trigger] self.cdata.data.entries@[gi]).1,
                    );
                assert(crate::collect::group_uniform(self.cdata.data.entries@[bad].1));
            }
        }
        Ok(cplots)
    }
}

} // verus!
