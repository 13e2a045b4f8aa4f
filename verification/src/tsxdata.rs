//! The aggregated chart data: sparse ordered point sets per group,
//! per-series analyses, and the merged probability-density data set.
use vstd::prelude::*;

verus! {

use vstd::multiset::Multiset;

use crate::fbits::sort_key;
use crate::fbits::total_key;
use crate::intmap::IntMap;
use crate::infomap::StatsInfoMap;
use crate::rawdata::CriterionDataPoint;
use crate::stats::BvAnalysis;
use crate::stats::KdeDataSet;
use crate::stats::StatisticsPrecondition;
use crate::stats::UvAnalysis;
use crate::stats::bw_bits;
use crate::stats::bw_ok;
use crate::stats::est_bits;
use crate::stats::est_ok;
use crate::stats::grid_ok;
use crate::stats::grid_step;
use crate::stats::grid_x;
use crate::strmap::StrMap;
use crate::textkey::lower_seq;
use crate::timeunit::TimeUnit;

/// One entry of the merged probability-density data set: either a raw
/// measurement tagged with its series index and iteration count, or
/// one point of a series' smoothed density curve.
#[derive(Debug, Clone, Copy, PartialEq, Eq, Structural)]
pub enum PdfEntry {
    Measurement { y_index: u16, iter_count: u32 },
    Density { y_index: u16, density: u64 },
}

/// One point of the merged probability-density data set, positioned
/// at a measurement value on the x axis.
#[derive(Debug, Clone, Copy, PartialEq, Eq, Structural)]
pub struct PdfDataPoint {
    pub x_val: u64,
    pub entry: PdfEntry,
}

impl PdfDataPoint {
    /// A raw measurement: x is the measured value, the label carries
    /// the series index and the iteration count.
    pub fn from_measurement(x_val: u64, y_index: u16, iter_count: u32) -> (r: PdfDataPoint)
        ensures
            r == (PdfDataPoint { x_val, entry: PdfEntry::Measurement { y_index, iter_count } }),
    {
        PdfDataPoint { x_val, entry: PdfEntry::Measurement { y_index, iter_count } }
    }

    /// One smoothed density point of a series.
    pub fn from_kde_data(x_val: u64, y_index: u16, density: u64) -> (r: PdfDataPoint)
        ensures
            r == (PdfDataPoint { x_val, entry: PdfEntry::Density { y_index, density } }),
    {
        PdfDataPoint { x_val, entry: PdfEntry::Density { y_index, density } }
    }

    pub fn x_val(&self) -> (r: u64)
        ensures
            r == self.x_val,
    {
        self.x_val
    }

    pub fn entry(&self) -> (r: PdfEntry)
        ensures
            r == self.entry,
    {
        self.entry
    }
}

/// Ascending in the total order of the x values.
pub open spec fn pdf_sorted(s: Seq<PdfDataPoint>) -> bool {
    forall|i: int, j: int|
        0 <= i <= j < s.len() ==> sort_key((#[trigger] s[i]).x_val) <= sort_key(
            (#[trigger] s[j]).x_val,
        )
}

/// The merged probability-density data set of one group: every raw
/// measurement of every series together with every series' density
/// curve, globally ordered by x.
pub struct PdfDataSet {
    pub data: Vec<PdfDataPoint>,
}

impl PdfDataSet {
    pub fn new() -> (r: PdfDataSet)
        ensures
            r.data@ =~= Seq::<PdfDataPoint>::empty(),
    {
        PdfDataSet { data: Vec::new() }
    }

    pub fn add_measurement(&mut self, measurement: u64, y_index: u16, iter_count: u32)
        ensures
            final(self).data@ == old(self).data@.push(
                (PdfDataPoint {
                    x_val: measurement,
                    entry: PdfEntry::Measurement { y_index, iter_count },
                }),
            ),
    {
        self.data.push(PdfDataPoint::from_measurement(measurement, y_index, iter_count));
    }

    /// Append every point of a series' density curve, in curve order.
    pub fn add_kde_data(&mut self, kde_data: &KdeDataSet, y_index: u16)
        ensures
            final(self).data@.len() == old(self).data@.len() + kde_data.points@.len(),
            forall|i: int|
                0 <= i < old(self).data@.len() ==> final(self).data@[i] == old(self).data@[i],
            forall|k: int|
                0 <= k < kde_data.points@.len() ==> final(self).data@[old(self).data@.len() + k]
                    == (PdfDataPoint {
                    x_val: kde_data.points@[k].x_val,
                    entry: PdfEntry::Density { y_index, density: kde_data.points@[k].density },
                }),
    {
        let n = kde_data.points.len();
        let mut k: usize = 0;
        while k < n
            invariant
                k <= n,
                n == kde_data.points@.len(),
                self.data@.len() == old(self).data@.len() + k,
                forall|i: int|
                    0 <= i < old(self).data@.len() ==> self.data@[i] == old(self).data@[i],
                forall|m: int|
                    0 <= m < k ==> self.data@[old(self).data@.len() + m] == (PdfDataPoint {
                        x_val: kde_data.points@[m].x_val,
                        entry: PdfEntry::Density { y_index, density: kde_data.points@[m].density },
                    }),
            decreases n - k,
        {
            let point = &kde_data.points[k];
            self.data.push(PdfDataPoint::from_kde_data(point.x_val, y_index, point.density));
            k = k + 1;
        }
    }

    /// Order the data set ascending by x, in the IEEE-754 total order
    /// of the x values, keeping exactly the same entries.
    pub fn sort(&mut self)
        ensures
            final(self).data@.to_multiset() == old(self).data@.to_multiset(),
            final(self).data@.len() == old(self).data@.len(),
            pdf_sorted(final(self).data@),
    {
        broadcast use vstd::seq_lib::group_to_multiset_ensures;

        let ghost orig = self.data@;
        let mut out: Vec<PdfDataPoint> = Vec::new();
        while self.data.len() > 0
            invariant
                pdf_sorted(out@),
                out@.to_multiset().add(self.data@.to_multiset()) == orig.to_multiset(),
                out@.len() + self.data@.len() == orig.len(),
                forall|a: int, b: int|
                    0 <= a < out@.len() && 0 <= b < self.data@.len() ==> sort_key(
                        (#[trigger] out@[a]).x_val,
                    ) <= sort_key((#[trigger] self.data@[b]).x_val),
            decreases self.data@.len(),
        {
            let n = self.data.len();
            let mut m: usize = 0;
            let mut mkey: u64 = total_key(self.data[0].x_val);
            let mut j: usize = 1;
            while j < n
                invariant
                    1 <= j <= n,
                    m < j,
                    n == self.data@.len(),
                    mkey == sort_key(self.data@[m as int].x_val),
                    forall|jj: int|
                        0 <= jj < j ==> mkey <= sort_key((#[trigger] self.data@[jj]).x_val),
                decreases n - j,
            {
                let jkey = total_key(self.data[j].x_val);
                if jkey < mkey {
                    m = j;
                    mkey = jkey;
                }
                j = j + 1;
            }
            let ghost pre = self.data@;
            let ghost pre_out = out@;
            let v = self.data.remove(m);
            out.push(v);
            proof {
                vstd::seq_lib::to_multiset_build::<PdfDataPoint>(pre_out, v);
                vstd::seq_lib::to_multiset_remove::<PdfDataPoint>(pre, m as int);
                assert(out@ == pre_out.push(v));
                assert(pre_out.push(v).to_multiset() =~= pre_out.to_multiset().insert(v));
                assert(self.data@ == pre.remove(m as int));
                assert(pre.remove(m as int).to_multiset() =~= pre.to_multiset().remove(
                    pre[m as int],
                ));
                assert(v == pre[m as int]);
                vstd::seq_lib::to_multiset_contains::<PdfDataPoint>(pre, v);
                assert(pre.contains(v));
                assert(pre.to_multiset().contains(v));
                assert(out@.to_multiset().add(self.data@.to_multiset()) =~= pre_out.to_multiset()
                    .add(pre.to_multiset()));
                assert forall|a: int, b: int|
                    0 <= a < out@.len() && 0 <= b < self.data@.len() implies sort_key(
                    (#[trigger] out@[a]).x_val,
                ) <= sort_key((#[trigger] self.data@[b]).x_val) by {
                    let bb = if b < m {
                        b
                    } else {
                        b + 1
                    };
                    assert(self.data@[b] == pre[bb]);
                    if a < out@.len() - 1 {
                        assert(out@[a] == pre_out[a]);
                    } else {
                        assert(out@[a] == v);
                    }
                }
                assert forall|a: int, b: int|
                    0 <= a <= b < out@.len() implies sort_key((#[trigger] out@[a]).x_val)
                    <= sort_key((#[trigger] out@[b]).x_val) by {
                    if b == out@.len() - 1 {
                        if a < b {
                            assert(out@[a] == pre_out[a]);
                            assert(out@[b] == v);
                        }
                    } else {
                        assert(out@[a] == pre_out[a]);
                        assert(out@[b] == pre_out[b]);
                    }
                }
            }
        }
        proof {
            assert(self.data@.to_multiset() =~= Multiset::<PdfDataPoint>::empty());
            assert(out@.to_multiset() =~= orig.to_multiset());
        }
        self.data = out;
    }
}

/// Inconsistent time units within one group: all observations of a
/// group must share one unit, and units are never converted away.
#[derive(Debug, Clone, Copy, PartialEq, Eq, Structural)]
pub struct UnitMismatch {
    pub expected: TimeUnit,
    pub actual: TimeUnit,
}

/// One value of a sparse point set's bucket: the measurement and the
/// series index it belongs to.
#[derive(Debug, Clone, Copy, PartialEq, Eq, Structural)]
pub struct TsxYDataPoint(pub u64, pub u16);

/// How one observation changes the sparse point set: the bucket of
/// its x grows by the point, created if absent; no bucket is ever
/// overwritten.
pub open spec fn bucket_push(
    pre: IntMap<Vec<TsxYDataPoint>>,
    post: IntMap<Vec<TsxYDataPoint>>,
    x: u64,
    p: TsxYDataPoint,
) -> bool {
    let i = post.index_of(x);
    &&& post.contains_key(x)
    &&& if pre.contains_key(x) {
        &&& i == pre.index_of(x)
        &&& post.spec_len() == pre.spec_len()
        &&& post.entries@[i].0 == pre.entries@[i].0
        &&& post.entries@[i].1@ == pre.entries@[i].1@.push(p)
        &&& forall|j: int|
            0 <= j < post.spec_len() && j != i ==> post.entries@[j] == pre.entries@[j]
    } else {
        &&& post.spec_len() == pre.spec_len() + 1
        &&& post.entries@[i].0 == x
        &&& post.entries@[i].1@ =~= seq![p]
        &&& post.entries@ == pre.entries@.insert(i, post.entries@[i])
    }
}

/// How one observation changes the per-series univariate analyses:
/// the analysis of its series accumulates the value (up to the sample
/// capacity); the others stay.
pub open spec fn uv_upsert(
    pre: IntMap<UvAnalysis>,
    post: IntMap<UvAnalysis>,
    y: u64,
    name: Seq<char>,
    val: u64,
) -> bool {
    let i = post.index_of(y);
    &&& post.contains_key(y)
    &&& post.entries@[i].1.wf()
    &&& if pre.contains_key(y) {
        &&& i == pre.index_of(y)
        &&& post.spec_len() == pre.spec_len()
        &&& post.entries@[i].0 == pre.entries@[i].0
        &&& post.entries@[i].1.fn_name == pre.entries@[i].1.fn_name
        &&& (pre.entries@[i].1.n < u32::MAX ==> post.entries@[i].1.sample@ == pre.entries@[i]
            .1.sample@.push(val))
        &&& forall|j: int|
            0 <= j < post.spec_len() && j != i ==> post.entries@[j] == pre.entries@[j]
    } else {
        &&& post.spec_len() == pre.spec_len() + 1
        &&& post.entries@[i].0 == y
        &&& post.entries@[i].1.fn_name@ == name
        &&& post.entries@[i].1.sample@ =~= seq![val]
        &&& post.entries@ == pre.entries@.insert(i, post.entries@[i])
    }
}

/// How one observation changes the per-series regression analyses.
pub open spec fn bv_upsert(
    pre: IntMap<BvAnalysis>,
    post: IntMap<BvAnalysis>,
    y: u64,
    x: u32,
    val: u64,
) -> bool {
    let i = post.index_of(y);
    &&& post.contains_key(y)
    &&& post.entries@[i].1.wf()
    &&& if pre.contains_key(y) {
        &&& i == pre.index_of(y)
        &&& post.spec_len() == pre.spec_len()
        &&& post.entries@[i].0 == pre.entries@[i].0
        &&& (pre.entries@[i].1.n < u32::MAX ==> post.entries@[i].1.obs@ == pre.entries@[i]
            .1.obs@.push((x, val)))
        &&& forall|j: int|
            0 <= j < post.spec_len() && j != i ==> post.entries@[j] == pre.entries@[j]
    } else {
        &&& post.spec_len() == pre.spec_len() + 1
        &&& post.entries@[i].0 == y
        &&& post.entries@[i].1.obs@ =~= seq![(x, val)]
        &&& post.entries@ == pre.entries@.insert(i, post.entries@[i])
    }
}

/// Two observations at different iteration counts always occupy two
/// distinct x buckets: the second insert leaves the first bucket
/// exactly as it was, and each bucket ends with its own observation —
/// values at equal x coexist and are never overwritten.
pub proof fn lemma_distinct_x_buckets(
    pre: IntMap<Vec<TsxYDataPoint>>,
    mid: IntMap<Vec<TsxYDataPoint>>,
    post: IntMap<Vec<TsxYDataPoint>>,
    x1: u64,
    p1: TsxYDataPoint,
    x2: u64,
    p2: TsxYDataPoint,
)
    requires
        pre.wf(),
        mid.wf(),
        post.wf(),
        bucket_push(pre, mid, x1, p1),
        bucket_push(mid, post, x2, p2),
        x1 != x2,
    ensures
        post.contains_key(x1),
        post.contains_key(x2),
        post.entries@[post.index_of(x1)].1@ == mid.entries@[mid.index_of(x1)].1@,
        post.entries@[post.index_of(x1)].1@.last() == p1,
        post.entries@[post.index_of(x2)].1@.last() == p2,
{
    let i1 = mid.index_of(x1);
    let i2 = post.index_of(x2);
    assert(mid.key(i1) == x1);
    assert(mid.entries@[i1].1@.last() == p1);
    if mid.contains_key(x2) {
        assert(i2 == mid.index_of(x2));
        assert(mid.key(i2) == x2);
        assert(i1 != i2);
        assert(post.entries@[i1] == mid.entries@[i1]);
        assert(post.key(i1) == x1);
        post.lemma_index_unique(i1);
        assert(post.contains_key(x1));
    } else {
        assert(post.entries@ == mid.entries@.insert(i2, post.entries@[i2]));
        let j1 = if i1 < i2 {
            i1
        } else {
            i1 + 1
        };
        assert(post.entries@[j1] == mid.entries@[i1]);
        assert(post.key(j1) == x1);
        post.lemma_index_unique(j1);
        assert(post.contains_key(x1));
    }
    assert(post.entries@[post.index_of(x2)].1@.last() == p2);
}

/// The g-th point of a series' 500-point density curve, as the entry
/// it contributes to the merged data set: the canonical grid x and
/// the canonical estimate there, tagged with the series index.
pub open spec fn curve_point(u: UvAnalysis, y: u16, g: int) -> PdfDataPoint {
    PdfDataPoint {
        x_val: grid_x(u.sigma_x, u.sigma_xsq, u.n, u.x_min->Some_0, u.x_max->Some_0, 500, g),
        entry: PdfEntry::Density {
            y_index: y,
            density: est_bits(
                u.sample@,
                bw_bits(u.sigma_x, u.sigma_xsq, u.n),
                grid_x(u.sigma_x, u.sigma_xsq, u.n, u.x_min->Some_0, u.x_max->Some_0, 500, g),
                u.n,
            ),
        },
    }
}

/// No step of the g-th curve point's computation produces a NaN, so
/// its bits are canonical.
pub open spec fn curve_point_ok(u: UvAnalysis, g: int) -> bool {
    &&& grid_ok(u.sigma_x, u.sigma_xsq, u.n, u.x_min->Some_0, u.x_max->Some_0, 500)
    &&& !crate::fbits::is_nan_bits(
        crate::fbits::mul_bits(
            grid_step(u.sigma_x, u.sigma_xsq, u.n, u.x_min->Some_0, u.x_max->Some_0, 500),
            crate::fbits::f64_of_u32(g as u32),
        ),
    )
    &&& !crate::fbits::is_nan_bits(
        grid_x(u.sigma_x, u.sigma_xsq, u.n, u.x_min->Some_0, u.x_max->Some_0, 500, g),
    )
    &&& bw_ok(u.sigma_x, u.sigma_xsq, u.n)
    &&& est_ok(
        u.sample@,
        bw_bits(u.sigma_x, u.sigma_xsq, u.n),
        grid_x(u.sigma_x, u.sigma_xsq, u.n, u.x_min->Some_0, u.x_max->Some_0, 500, g),
        u.n,
    )
}

/// The merged-data entry of one raw measurement: the value of bucket
/// `pi` at position `bi`, labelled with its series index and its
/// bucket's iteration count.
pub open spec fn raw_point(entries: Seq<(u64, Vec<TsxYDataPoint>)>, pi: int, bi: int) -> PdfDataPoint {
    PdfDataPoint {
        x_val: entries[pi].1@[bi].0,
        entry: PdfEntry::Measurement {
            y_index: entries[pi].1@[bi].1,
            iter_count: entries[pi].0 as u32,
        },
    }
}

/// The total number of values over all buckets of a sparse point set.
pub open spec fn bucket_total(s: Seq<(u64, Vec<TsxYDataPoint>)>) -> int
    decreases s.len(),
{
    if s.len() == 0 {
        0
    } else {
        bucket_total(s.drop_last()) + s.last().1@.len()
    }
}

/// What one successful observation leaves behind: the unit recorded,
/// the bucket of its iteration count grown, the series' analyses
/// advanced, and the trend-line accumulator advanced only where the
/// collection carries trend lines.
pub open spec fn set_upserted(
    pre: TsxDataSet,
    post: TsxDataSet,
    name: Seq<char>,
    p: CriterionDataPoint,
    y: u16,
) -> bool {
    &&& post.trendlines == pre.trendlines
    &&& post.time_unit == Some(p.time_unit)
    &&& bucket_push(pre.points, post.points, p.iter_count as u64, (TsxYDataPoint(p.measurement, y)))
    &&& uv_upsert(pre.uv_analysis, post.uv_analysis, y as u64, name, p.measurement)
    &&& (pre.trendlines ==> bv_upsert(
        pre.bv_analysis,
        post.bv_analysis,
        y as u64,
        p.iter_count,
        p.measurement,
    ))
    &&& (!pre.trendlines ==> post.bv_analysis == pre.bv_analysis)
}

/// A data set holding exactly one observation.
pub open spec fn set_single(
    post: TsxDataSet,
    name: Seq<char>,
    p: CriterionDataPoint,
    y: u16,
    trendlines: bool,
) -> bool {
    &&& post.trendlines == trendlines
    &&& post.time_unit == Some(p.time_unit)
    &&& post.points.spec_len() == 1
    &&& post.points.key(0) == p.iter_count as u64
    &&& post.points.entries@[0].1@ =~= seq![(TsxYDataPoint(p.measurement, y))]
    &&& post.uv_analysis.spec_len() == 1
    &&& post.uv_analysis.key(0) == y as u64
    &&& post.uv_analysis.entries@[0].1.fn_name@ == name
    &&& post.uv_analysis.entries@[0].1.sample@ =~= seq![p.measurement]
    &&& (trendlines ==> post.bv_analysis.spec_len() == 1 && post.bv_analysis.key(0) == y as u64
        && post.bv_analysis.entries@[0].1.obs@ =~= seq![(p.iter_count, p.measurement)])
    &&& (!trendlines ==> post.bv_analysis.spec_len() == 0)
}

/// Replacing one bucket changes the total by the length difference.
pub proof fn lemma_bucket_total_update(
    s: Seq<(u64, Vec<TsxYDataPoint>)>,
    i: int,
    e: (u64, Vec<TsxYDataPoint>),
)
    requires
        0 <= i < s.len(),
    ensures
        bucket_total(s.update(i, e)) == bucket_total(s) - s[i].1@.len() + e.1@.len(),
    decreases s.len(),
{
    if i == s.len() - 1 {
        assert(s.update(i, e).drop_last() =~= s.drop_last());
        assert(s.update(i, e).last() == e);
    } else {
        assert(s.update(i, e).drop_last() =~= s.drop_last().update(i, e));
        assert(s.update(i, e).last() == s.last());
        lemma_bucket_total_update(s.drop_last(), i, e);
    }
}

/// Inserting one bucket grows the total by its length.
pub proof fn lemma_bucket_total_insert(
    s: Seq<(u64, Vec<TsxYDataPoint>)>,
    i: int,
    e: (u64, Vec<TsxYDataPoint>),
)
    requires
        0 <= i <= s.len(),
    ensures
        bucket_total(s.insert(i, e)) == bucket_total(s) + e.1@.len(),
    decreases s.len(),
{
    if i == s.len() {
        assert(s.insert(i, e).drop_last() =~= s);
        assert(s.insert(i, e).last() == e);
    } else {
        assert(s.insert(i, e).drop_last() =~= s.drop_last().insert(i, e));
        assert(s.insert(i, e).last() == s.last());
        lemma_bucket_total_insert(s.drop_last(), i, e);
    }
}

/// One observation grows the point total by one, creates or keeps its
/// bucket's key, and never removes or invents any other key.
pub proof fn lemma_bucket_push_keeps(
    pre: IntMap<Vec<TsxYDataPoint>>,
    post: IntMap<Vec<TsxYDataPoint>>,
    x: u64,
    p: TsxYDataPoint,
)
    requires
        pre.wf(),
        post.wf(),
        bucket_push(pre, post, x, p),
    ensures
        post.contains_key(x),
        forall|k: u64| pre.contains_key(k) ==> #[trigger] post.contains_key(k),
        forall|k: u64| #[trigger] post.contains_key(k) ==> pre.contains_key(k) || k == x,
        bucket_total(post.entries@) == bucket_total(pre.entries@) + 1,
{
    let i = post.index_of(x);
    if pre.contains_key(x) {
        assert(post.entries@ =~= pre.entries@.update(i, post.entries@[i]));
        lemma_bucket_total_update(pre.entries@, i, post.entries@[i]);
    } else {
        lemma_bucket_total_insert(pre.entries@, i, post.entries@[i]);
    }
    assert forall|k: u64| pre.contains_key(k) implies #[trigger] post.contains_key(k) by {
        let j = pre.index_of(k);
        if pre.contains_key(x) {
            if j == i {
                assert(post.entries@[i].0 == pre.entries@[i].0);
                assert(post.key(i) == k);
            } else {
                assert(post.entries@[j] == pre.entries@[j]);
                assert(post.key(j) == k);
            }
        } else {
            let jj = if j < i {
                j
            } else {
                j + 1
            };
            assert(post.entries@[jj] == pre.entries@[j]);
            assert(post.key(jj) == k);
        }
    }
    assert forall|k: u64| #[trigger] post.contains_key(k) implies pre.contains_key(k) || k
        == x by {
        if k != x {
            let j = post.index_of(k);
            assert(post.key(j) == k);
            if pre.contains_key(x) {
                assert(j != i);
                assert(post.entries@[j] == pre.entries@[j]);
                assert(pre.key(j) == k);
            } else {
                assert(j != i);
                let jj = if j < i {
                    j
                } else {
                    j - 1
                };
                assert(post.entries@[j] == pre.entries@[jj]);
                assert(pre.key(jj) == k);
            }
        }
    }
}

/// The sparse ordered series of one group: buckets of (series index,
/// measurement) values keyed by iteration count, together with the
/// univariate analysis of every series and, when the collection
/// carries trend lines, its regression analysis.
pub struct TsxDataSet {
    pub points: IntMap<Vec<TsxYDataPoint>>,
    pub uv_analysis: IntMap<UvAnalysis>,
    pub bv_analysis: IntMap<BvAnalysis>,
    pub time_unit: Option<TimeUnit>,
    pub trendlines: bool,
}

impl TsxDataSet {
    /// All three maps are in ascending key order; bucket keys are
    /// iteration counts, analysis keys are series indices; every
    /// analysis is well formed.
    pub open spec fn wf(self) -> bool {
        &&& self.points.wf()
        &&& forall|i: int|
            0 <= i < self.points.spec_len() ==> #[trigger] self.points.key(i) <= u32::MAX
        &&& self.uv_analysis.wf()
        &&& forall|i: int|
            0 <= i < self.uv_analysis.spec_len() ==> (#[trigger] self.uv_analysis.entries@[i]).0
                <= u16::MAX && self.uv_analysis.entries@[i].1.wf()
        &&& self.bv_analysis.wf()
        &&& forall|i: int|
            0 <= i < self.bv_analysis.spec_len() ==> (#[trigger] self.bv_analysis.entries@[i]).0
                <= u16::MAX && self.bv_analysis.entries@[i].1.wf()
    }

    pub fn new(trendlines: bool) -> (r: TsxDataSet)
        ensures
            r.wf(),
            r.points.entries@ =~= Seq::<(u64, Vec<TsxYDataPoint>)>::empty(),
            r.uv_analysis.entries@ =~= Seq::<(u64, UvAnalysis)>::empty(),
            r.bv_analysis.entries@ =~= Seq::<(u64, BvAnalysis)>::empty(),
            r.time_unit is None,
            r.trendlines == trendlines,
    {
        TsxDataSet {
            points: IntMap::new(),
            uv_analysis: IntMap::new(),
            bv_analysis: IntMap::new(),
            time_unit: None,
            trendlines,
        }
    }

    /// Record one observation under its series index: the value joins
    /// the bucket of its iteration count and the series' analyses. An
    /// observation whose unit differs from the set's unit is refused
    /// and changes nothing.
    pub fn insert(&mut self, fn_name: &str, datapoint: &CriterionDataPoint, y_index: u16) -> (r:
        Result<(), UnitMismatch>)
        requires
            old(self).wf(),
        ensures
            final(self).wf(),
            final(self).trendlines == old(self).trendlines,
            (r is Err) == (old(self).time_unit matches Some(t) && t != datapoint.time_unit),
            r matches Err(e) ==> *final(self) == *old(self) && Some(e.expected) == old(
                self,
            ).time_unit && e.actual == datapoint.time_unit,
            r is Ok ==> set_upserted(*old(self), *final(self), fn_name@, *datapoint, y_index),
    {
        match self.time_unit {
            Some(tu) => {
                if tu != datapoint.time_unit() {
                    return Err(UnitMismatch { expected: tu, actual: datapoint.time_unit });
                }
            },
            None => {},
        }
        self.time_unit = Some(datapoint.time_unit);
        let time_val = datapoint.measurement();
        let iter_val = datapoint.iter_count();
        let p = TsxYDataPoint(time_val, y_index);

        let ghost points_pre = self.points;
        let (pos, found) = self.points.locate(iter_val as u64);
        if found {
            let (k, mut bucket) = self.points.remove_at(pos);
            bucket.push(p);
            proof {
                IntMap::lemma_remove_keeps_gap(points_pre, self.points, pos as int);
            }
            self.points.insert_kv_at(pos, k, bucket);
            proof {
                assert(self.points.entries@ =~= points_pre.entries@.update(
                    pos as int,
                    self.points.entries@[pos as int],
                ));
                assert(self.points.key(pos as int) == iter_val as u64);
                assert(self.points.contains_key(iter_val as u64));
                self.points.lemma_index_unique(pos as int);
                points_pre.lemma_index_unique(pos as int);
            }
        } else {
            let mut bucket: Vec<TsxYDataPoint> = Vec::new();
            bucket.push(p);
            self.points.insert_kv_at(pos, iter_val as u64, bucket);
            proof {
                assert(self.points.key(pos as int) == iter_val as u64);
                assert(self.points.contains_key(iter_val as u64));
                self.points.lemma_index_unique(pos as int);
            }
        }

        proof {
            assert forall|ii: int|
                0 <= ii < self.points.spec_len() implies #[trigger] self.points.key(ii)
                <= u32::MAX by {
                if found {
                    if ii != pos {
                        assert(old(self).points.key(ii) <= u32::MAX);
                        assert(self.points.entries@[ii] == points_pre.entries@[ii]);
                    } else {
                        assert(points_pre == old(self).points);
                        assert(old(self).points.key(pos as int) <= u32::MAX);
                        assert(self.points.key(ii) == points_pre.key(pos as int));
                    }
                } else {
                    if ii < pos {
                        assert(old(self).points.key(ii) <= u32::MAX);
                        assert(self.points.entries@[ii] == points_pre.entries@[ii]);
                    } else if ii > pos {
                        assert(old(self).points.key(ii - 1) <= u32::MAX);
                        assert(self.points.entries@[ii] == points_pre.entries@[ii - 1]);
                    } else {
                        assert(self.points.key(ii) == iter_val as u64);
                    }
                }
            }
        }
        let ghost uv_pre = self.uv_analysis;
        let (upos, ufound) = self.uv_analysis.locate(y_index as u64);
        if ufound {
            let (uk, mut uva) = self.uv_analysis.remove_at(upos);
            uva.add(time_val);
            proof {
                IntMap::lemma_remove_keeps_gap(uv_pre, self.uv_analysis, upos as int);
            }
            self.uv_analysis.insert_kv_at(upos, uk, uva);
            proof {
                assert(self.uv_analysis.entries@ =~= uv_pre.entries@.update(
                    upos as int,
                    self.uv_analysis.entries@[upos as int],
                ));
                assert(self.uv_analysis.key(upos as int) == y_index as u64);
                assert(self.uv_analysis.contains_key(y_index as u64));
                self.uv_analysis.lemma_index_unique(upos as int);
                uv_pre.lemma_index_unique(upos as int);
            }
        } else {
            let mut uva = UvAnalysis::new(fn_name.to_owned());
            uva.add(time_val);
            self.uv_analysis.insert_kv_at(upos, y_index as u64, uva);
            proof {
                assert(self.uv_analysis.key(upos as int) == y_index as u64);
                assert(self.uv_analysis.contains_key(y_index as u64));
                self.uv_analysis.lemma_index_unique(upos as int);
            }
        }

        proof {
            assert forall|ii: int|
                0 <= ii < self.uv_analysis.spec_len() implies (
            #[trigger] self.uv_analysis.entries@[ii]).0 <= u16::MAX
                && self.uv_analysis.entries@[ii].1.wf() by {
                if ufound {
                    if ii != upos {
                        assert(old(self).uv_analysis.entries@[ii].0 <= u16::MAX
                            && old(self).uv_analysis.entries@[ii].1.wf());
                        assert(self.uv_analysis.entries@[ii] == uv_pre.entries@[ii]);
                    } else {
                        assert(uv_pre == old(self).uv_analysis);
                        assert(old(self).uv_analysis.entries@[upos as int].0 <= u16::MAX);
                        assert(self.uv_analysis.entries@[ii].0 == uv_pre.key(upos as int));
                    }
                } else {
                    if ii < upos {
                        assert(old(self).uv_analysis.entries@[ii].0 <= u16::MAX
                            && old(self).uv_analysis.entries@[ii].1.wf());
                        assert(self.uv_analysis.entries@[ii] == uv_pre.entries@[ii]);
                    } else if ii > upos {
                        assert(old(self).uv_analysis.entries@[ii - 1].0 <= u16::MAX
                            && old(self).uv_analysis.entries@[ii - 1].1.wf());
                        assert(self.uv_analysis.entries@[ii] == uv_pre.entries@[ii - 1]);
                    } else {
                        assert(self.uv_analysis.entries@[ii].0 == y_index as u64);
                    }
                }
            }
        }
        if self.trendlines {
            let ghost bv_pre = self.bv_analysis;
            let (bpos, bfound) = self.bv_analysis.locate(y_index as u64);
            if bfound {
                let (bk, mut bva) = self.bv_analysis.remove_at(bpos);
                bva.add(iter_val, time_val);
                proof {
                    IntMap::lemma_remove_keeps_gap(bv_pre, self.bv_analysis, bpos as int);
                }
                self.bv_analysis.insert_kv_at(bpos, bk, bva);
                proof {
                    assert(self.bv_analysis.entries@ =~= bv_pre.entries@.update(
                        bpos as int,
                        self.bv_analysis.entries@[bpos as int],
                    ));
                    assert(self.bv_analysis.key(bpos as int) == y_index as u64);
                    assert(self.bv_analysis.contains_key(y_index as u64));
                    self.bv_analysis.lemma_index_unique(bpos as int);
                    bv_pre.lemma_index_unique(bpos as int);
                }
            } else {
                let mut bva = BvAnalysis::new();
                bva.add(iter_val, time_val);
                self.bv_analysis.insert_kv_at(bpos, y_index as u64, bva);
                proof {
                    assert(self.bv_analysis.key(bpos as int) == y_index as u64);
                    assert(self.bv_analysis.contains_key(y_index as u64));
                    self.bv_analysis.lemma_index_unique(bpos as int);
                }
            }
            proof {
                assert forall|ii: int|
                    0 <= ii < self.bv_analysis.spec_len() implies (
                #[trigger] self.bv_analysis.entries@[ii]).0 <= u16::MAX
                    && self.bv_analysis.entries@[ii].1.wf() by {
                    if bfound {
                        if ii != bpos {
                            assert(old(self).bv_analysis.entries@[ii].0 <= u16::MAX
                                && old(self).bv_analysis.entries@[ii].1.wf());
                            assert(self.bv_analysis.entries@[ii] == bv_pre.entries@[ii]);
                        } else {
                            assert(bv_pre == old(self).bv_analysis);
                            assert(old(self).bv_analysis.entries@[bpos as int].0 <= u16::MAX);
                            assert(self.bv_analysis.entries@[ii].0 == bv_pre.key(bpos as int));
                        }
                    } else {
                        if ii < bpos {
                            assert(old(self).bv_analysis.entries@[ii].0 <= u16::MAX
                                && old(self).bv_analysis.entries@[ii].1.wf());
                            assert(self.bv_analysis.entries@[ii] == bv_pre.entries@[ii]);
                        } else if ii > bpos {
                            assert(old(self).bv_analysis.entries@[ii - 1].0 <= u16::MAX
                                && old(self).bv_analysis.entries@[ii - 1].1.wf());
                            assert(self.bv_analysis.entries@[ii] == bv_pre.entries@[ii - 1]);
                        } else {
                            assert(self.bv_analysis.entries@[ii].0 == y_index as u64);
                        }
                    }
                }
            }
        }
        Ok(())
    }

    /// Collect every series' mean and standard deviation into the
    /// per-variant statistics table of this group: one row per
    /// series, visited in ascending series-index order, keyed by the
    /// series' name; nothing else in the table changes. Refused,
    /// changing nothing, when some series holds fewer than two
    /// samples. Series names within one set are distinct, one per
    /// variant.
    pub fn get_uv_stats(&self, group: &str, si_map: &mut StatsInfoMap) -> (r: Result<
        (),
        StatisticsPrecondition,
    >)
        requires
            self.wf(),
            old(si_map).wf(),
            forall|i: int, j: int|
                0 <= i < j < self.uv_analysis.spec_len() ==> lower_seq(
                    (#[trigger] self.uv_analysis.entries@[i]).1.fn_name@,
                ) != lower_seq((#[trigger] self.uv_analysis.entries@[j]).1.fn_name@),
        ensures
            final(si_map).wf(),
            (r is Err) == (exists|i: int|
                0 <= i < self.uv_analysis.spec_len() && (#[trigger] self.uv_analysis.entries@[i]).1.n
                    < 2),
            r is Err ==> *final(si_map) == *old(si_map),
            r is Ok && self.uv_analysis.spec_len() > 0
                ==> final(si_map).smap.info_map.contains_key(lower_seq(group@)),
            r is Ok ==> (forall|i: int|
                0 <= i < self.uv_analysis.spec_len() ==> final(si_map).smap.info_map.entries@[final(si_map).smap.info_map.index_of(lower_seq(group@))].1.contains_key(
                    lower_seq((#[trigger] self.uv_analysis.entries@[i]).1.fn_name@),
                ) && final(si_map).smap.info_map.entries@[final(si_map).smap.info_map.index_of(lower_seq(group@))].1.entries@[final(si_map).smap.info_map.entries@[final(si_map).smap.info_map.index_of(lower_seq(group@))].1.index_of(
                    lower_seq(self.uv_analysis.entries@[i].1.fn_name@),
                )].1.mean == self.uv_analysis.entries@[i].1.x_bar && (crate::stats::std_dev_ok(
                    self.uv_analysis.entries@[i].1.sigma_x,
                    self.uv_analysis.entries@[i].1.sigma_xsq,
                    self.uv_analysis.entries@[i].1.n,
                ) ==> final(si_map).smap.info_map.entries@[final(si_map).smap.info_map.index_of(lower_seq(group@))].1.entries@[final(si_map).smap.info_map.entries@[final(si_map).smap.info_map.index_of(lower_seq(group@))].1.index_of(
                    lower_seq(self.uv_analysis.entries@[i].1.fn_name@),
                )].1.std_dev == crate::stats::std_dev_bits(
                    self.uv_analysis.entries@[i].1.sigma_x,
                    self.uv_analysis.entries@[i].1.sigma_xsq,
                    self.uv_analysis.entries@[i].1.n,
                ))),
            r is Ok ==> (forall|k: Seq<u32>|
                k != lower_seq(group@) && old(si_map).smap.info_map.contains_key(k)
                    ==> #[trigger] final(si_map).smap.info_map.contains_key(k)
                    && final(si_map).smap.info_map.entries@[final(si_map).smap.info_map.index_of(k)] == old(
                    si_map,
                ).smap.info_map.entries@[old(si_map).smap.info_map.index_of(k)]),
            r is Ok ==> (forall|k: Seq<u32>|
                #[trigger] final(si_map).smap.info_map.contains_key(k) ==> old(
                    si_map,
                ).smap.info_map.contains_key(k) || k == lower_seq(group@)),
            r is Ok && self.uv_analysis.spec_len() > 0 ==> (forall|ik: Seq<u32>|
                #[trigger] final(si_map).smap.info_map.entries@[final(si_map).smap.info_map.index_of(lower_seq(group@))].1.contains_key(ik) ==> (exists|i: int|
                    0 <= i < self.uv_analysis.spec_len() && ik == lower_seq((#[trigger] self.uv_analysis.entries@[i]).1.fn_name@)) || (old(
                    si_map,
                ).smap.info_map.contains_key(lower_seq(group@)) && old(si_map).smap.info_map.entries@[old(
                    si_map,
                ).smap.info_map.index_of(lower_seq(group@))].1.contains_key(ik))),
    {
        let n = self.uv_analysis.len();
        let mut i: usize = 0;
        while i < n
            invariant
                i <= n,
                n == self.uv_analysis.spec_len(),
                self.wf(),
                *si_map == *old(si_map),
                old(si_map).wf(),
                forall|j: int|
                    0 <= j < i ==> (#[trigger] self.uv_analysis.entries@[j]).1.n >= 2,
            decreases n - i,
        {
            if self.uv_analysis.entries[i].1.n < 2 {
                return Err(
                    StatisticsPrecondition { samples: self.uv_analysis.entries[i].1.n as usize },
                );
            }
            i = i + 1;
        }
        let mut i: usize = 0;
        while i < n
            invariant
                i <= n,
                n == self.uv_analysis.spec_len(),
                self.wf(),
                si_map.wf(),
                old(si_map).wf(),
                forall|a: int, b: int|
                    0 <= a < b < self.uv_analysis.spec_len() ==> lower_seq(
                        (#[trigger] self.uv_analysis.entries@[a]).1.fn_name@,
                    ) != lower_seq((#[trigger] self.uv_analysis.entries@[b]).1.fn_name@),
                forall|j: int|
                    0 <= j < n ==> (#[trigger] self.uv_analysis.entries@[j]).1.n >= 2,
                i == 0 ==> *si_map == *old(si_map),
                i > 0 ==> si_map.smap.info_map.contains_key(lower_seq(group@)),
                i > 0 ==> (forall|vj: int|
                        0 <= vj < i ==> si_map.smap.info_map.entries@[si_map.smap.info_map.index_of(lower_seq(group@))].1.contains_key(
                            lower_seq((#[trigger] self.uv_analysis.entries@[vj]).1.fn_name@),
                        ) && si_map.smap.info_map.entries@[si_map.smap.info_map.index_of(lower_seq(group@))].1.entries@[si_map.smap.info_map.entries@[si_map.smap.info_map.index_of(lower_seq(group@))].1.index_of(
                            lower_seq(self.uv_analysis.entries@[vj].1.fn_name@),
                        )].1.mean == self.uv_analysis.entries@[vj].1.x_bar && (crate::stats::std_dev_ok(
                            self.uv_analysis.entries@[vj].1.sigma_x,
                            self.uv_analysis.entries@[vj].1.sigma_xsq,
                            self.uv_analysis.entries@[vj].1.n,
                        ) ==> si_map.smap.info_map.entries@[si_map.smap.info_map.index_of(lower_seq(group@))].1.entries@[si_map.smap.info_map.entries@[si_map.smap.info_map.index_of(lower_seq(group@))].1.index_of(
                            lower_seq(self.uv_analysis.entries@[vj].1.fn_name@),
                        )].1.std_dev == crate::stats::std_dev_bits(
                            self.uv_analysis.entries@[vj].1.sigma_x,
                            self.uv_analysis.entries@[vj].1.sigma_xsq,
                            self.uv_analysis.entries@[vj].1.n,
                        ))),
                forall|k: Seq<u32>|
                        k != lower_seq(group@) && old(si_map).smap.info_map.contains_key(k)
                            ==> #[trigger] si_map.smap.info_map.contains_key(k)
                            && si_map.smap.info_map.entries@[si_map.smap.info_map.index_of(k)] == old(
                            si_map,
                        ).smap.info_map.entries@[old(si_map).smap.info_map.index_of(k)],
                forall|k: Seq<u32>|
                        #[trigger] si_map.smap.info_map.contains_key(k) ==> old(
                            si_map,
                        ).smap.info_map.contains_key(k) || k == lower_seq(group@),
                i > 0 ==> (forall|ik: Seq<u32>|
                        #[trigger] si_map.smap.info_map.entries@[si_map.smap.info_map.index_of(lower_seq(group@))].1.contains_key(ik) ==> (exists|vi: int|
                            0 <= vi < i && ik == lower_seq((#[trigger] self.uv_analysis.entries@[vi]).1.fn_name@)) || (old(
                            si_map,
                        ).smap.info_map.contains_key(lower_seq(group@)) && old(si_map).smap.info_map.entries@[old(
                            si_map,
                        ).smap.info_map.index_of(lower_seq(group@))].1.contains_key(ik))),
            decreases n - i,
        {
            let uva = &self.uv_analysis.entries[i].1;
            let ghost pre_m = si_map.smap.info_map;
            proof {
                assert(pre_m == si_map.smap.info_map);
                if i > 0 {
                    assert forall|vj: int| 0 <= vj < i as int implies pre_m.entries@[pre_m.index_of(lower_seq(group@))].1.contains_key(
                        lower_seq((#[trigger] self.uv_analysis.entries@[vj]).1.fn_name@),
                    ) && pre_m.entries@[pre_m.index_of(lower_seq(group@))].1.entries@[pre_m.entries@[pre_m.index_of(lower_seq(group@))].1.index_of(
                        lower_seq(self.uv_analysis.entries@[vj].1.fn_name@),
                    )].1.mean == self.uv_analysis.entries@[vj].1.x_bar && (crate::stats::std_dev_ok(
                        self.uv_analysis.entries@[vj].1.sigma_x,
                        self.uv_analysis.entries@[vj].1.sigma_xsq,
                        self.uv_analysis.entries@[vj].1.n,
                    ) ==> pre_m.entries@[pre_m.index_of(lower_seq(group@))].1.entries@[pre_m.entries@[pre_m.index_of(lower_seq(group@))].1.index_of(
                        lower_seq(self.uv_analysis.entries@[vj].1.fn_name@),
                    )].1.std_dev == crate::stats::std_dev_bits(
                        self.uv_analysis.entries@[vj].1.sigma_x,
                        self.uv_analysis.entries@[vj].1.sigma_xsq,
                        self.uv_analysis.entries@[vj].1.n,
                    )) by {
                        assert(si_map.smap.info_map.entries@[si_map.smap.info_map.index_of(lower_seq(group@))].1.contains_key(
                            lower_seq(self.uv_analysis.entries@[vj].1.fn_name@),
                        ));
                    }
                    assert forall|ik: Seq<u32>|
                        #[trigger] pre_m.entries@[pre_m.index_of(lower_seq(group@))].1.contains_key(ik) implies (exists|vi: int|
                        0 <= vi < i && ik == lower_seq(
                            (#[trigger] self.uv_analysis.entries@[vi]).1.fn_name@,
                        )) || (old(si_map).smap.info_map.contains_key(lower_seq(group@)) && old(
                        si_map,
                    ).smap.info_map.entries@[old(si_map).smap.info_map.index_of(
                        lower_seq(group@),
                    )].1.contains_key(ik)) by {
                        assert(si_map.smap.info_map.entries@[si_map.smap.info_map.index_of(lower_seq(group@))].1.contains_key(ik));
                    }
                    assert(pre_m.contains_key(lower_seq(group@)));
                }
                assert forall|k: Seq<u32>|
                    k != lower_seq(group@) && old(si_map).smap.info_map.contains_key(
                        k,
                    ) implies #[trigger] pre_m.contains_key(k) && pre_m.entries@[pre_m.index_of(k)]
                    == old(si_map).smap.info_map.entries@[old(si_map).smap.info_map.index_of(
                    k,
                )] by {
                    assert(si_map.smap.info_map.contains_key(k));
                }
                assert forall|k: Seq<u32>| #[trigger] pre_m.contains_key(k) implies old(
                    si_map,
                ).smap.info_map.contains_key(k) || k == lower_seq(group@) by {
                    assert(si_map.smap.info_map.contains_key(k));
                }
            }
            match uva.stats_info() {
                Ok(s_info) => {
                    si_map.push(group, uva.fn_name.as_str(), s_info);
                    proof {
                        crate::infomap::lemma_nested_set_keeps(
                            pre_m,
                            si_map.smap.info_map,
                            group@,
                            self.uv_analysis.entries@[i as int].1.fn_name@,
                            s_info,
                        );
                        assert forall|j: int|
                            0 <= j < i as int + 1 implies si_map.smap.info_map.entries@[si_map.smap.info_map.index_of(lower_seq(group@))].1.contains_key(
                            lower_seq((#[trigger] self.uv_analysis.entries@[j]).1.fn_name@),
                        ) && si_map.smap.info_map.entries@[si_map.smap.info_map.index_of(lower_seq(group@))].1.entries@[si_map.smap.info_map.entries@[si_map.smap.info_map.index_of(lower_seq(group@))].1.index_of(
                            lower_seq(self.uv_analysis.entries@[j].1.fn_name@),
                        )].1.mean == self.uv_analysis.entries@[j].1.x_bar && (crate::stats::std_dev_ok(
                            self.uv_analysis.entries@[j].1.sigma_x,
                            self.uv_analysis.entries@[j].1.sigma_xsq,
                            self.uv_analysis.entries@[j].1.n,
                        ) ==> si_map.smap.info_map.entries@[si_map.smap.info_map.index_of(lower_seq(group@))].1.entries@[si_map.smap.info_map.entries@[si_map.smap.info_map.index_of(lower_seq(group@))].1.index_of(
                            lower_seq(self.uv_analysis.entries@[j].1.fn_name@),
                        )].1.std_dev == crate::stats::std_dev_bits(
                            self.uv_analysis.entries@[j].1.sigma_x,
                            self.uv_analysis.entries@[j].1.sigma_xsq,
                            self.uv_analysis.entries@[j].1.n,
                        )) by {
                            if j < i as int {
                                assert(lower_seq(self.uv_analysis.entries@[j].1.fn_name@) != lower_seq(
                                    self.uv_analysis.entries@[i as int].1.fn_name@,
                                ));
                                assert(pre_m.entries@[pre_m.index_of(lower_seq(group@))].1.contains_key(
                                    lower_seq(self.uv_analysis.entries@[j].1.fn_name@),
                                ));
                            }
                        }
                    }
                },
                Err(_) => {
                    proof {
                        assert(false);
                    }
                },
            }
            i = i + 1;
        }
        Ok(())
    }

    /// Merge every raw measurement with every series' density curve
    /// of 500 points, globally ordered by x: the result holds every
    /// stored measurement (tagged with its series index and iteration
    /// count) and, for every series and grid position whose canonical
    /// computation stays clear of NaN, that series' canonical density
    /// point there. Refused when some series holds fewer than two
    /// samples, since such a series has no density curve.
    pub fn to_pdf_data(&self) -> (r: Result<PdfDataSet, StatisticsPrecondition>)
        requires
            self.wf(),
        ensures
            (r is Err) == (exists|i: int|
                0 <= i < self.uv_analysis.spec_len() && (#[trigger] self.uv_analysis.entries@[i]).1.n
                    < 2),
            r matches Ok(p) ==> pdf_sorted(p.data@),
            r matches Ok(p) ==> p.data@.len() == bucket_total(self.points.entries@) + 500
                * self.uv_analysis.spec_len(),
            r matches Ok(p) ==> forall|pi: int, bi: int|
                0 <= pi < self.points.spec_len() && 0 <= bi < self.points.entries@[pi].1@.len()
                    ==> p.data@.to_multiset().count(
                    #[trigger] raw_point(self.points.entries@, pi, bi),
                ) > 0,
            r matches Ok(p) ==> forall|si: int, g: int|
                0 <= si < self.uv_analysis.spec_len() && 0 <= g < 500 && curve_point_ok(
                    self.uv_analysis.entries@[si].1,
                    g,
                ) ==> p.data@.to_multiset().count(
                    #[trigger] curve_point(self.uv_analysis.entries@[si].1, self.uv_analysis.key(si) as u16, g),
                ) > 0,
    {
        let n = self.uv_analysis.len();
        let mut i: usize = 0;
        while i < n
            invariant
                i <= n,
                n == self.uv_analysis.spec_len(),
                self.wf(),
                forall|j: int|
                    0 <= j < i ==> (#[trigger] self.uv_analysis.entries@[j]).1.n >= 2,
            decreases n - i,
        {
            if self.uv_analysis.entries[i].1.n < 2 {
                return Err(
                    StatisticsPrecondition { samples: self.uv_analysis.entries[i].1.n as usize },
                );
            }
            i = i + 1;
        }

        let mut pdf_data = PdfDataSet::new();
        let pn = self.points.len();
        let mut pi: usize = 0;
        while pi < pn
            invariant
                pi <= pn,
                pn == self.points.spec_len(),
                self.wf(),
                pdf_data.data@.len() == bucket_total(self.points.entries@.take(pi as int)),
                forall|pj: int, bj: int|
                    0 <= pj < pi && 0 <= bj < self.points.entries@[pj].1@.len() ==> pdf_data.data@.contains(
                        #[trigger] raw_point(self.points.entries@, pj, bj),
                    ),
            decreases pn - pi,
        {
            let iter_count = self.points.entries[pi].0;
            let bn = self.points.entries[pi].1.len();
            let mut bi: usize = 0;
            while bi < bn
                invariant
                    bi <= bn,
                    pi < pn,
                    pn == self.points.spec_len(),
                    bn == self.points.entries@[pi as int].1@.len(),
                    iter_count == self.points.key(pi as int),
                    self.wf(),
                    pdf_data.data@.len() == bucket_total(self.points.entries@.take(pi as int))
                        + bi,
                    forall|pj: int, bj: int|
                        0 <= pj < pi && 0 <= bj < self.points.entries@[pj].1@.len() ==> pdf_data.data@.contains(
                            #[trigger] raw_point(self.points.entries@, pj, bj),
                        ),
                    forall|bj: int|
                        0 <= bj < bi ==> pdf_data.data@.contains(
                            #[trigger] raw_point(self.points.entries@, pi as int, bj),
                        ),
                decreases bn - bi,
            {
                let ghost before = pdf_data.data@;
                let yv = self.points.entries[pi].1[bi];
                pdf_data.add_measurement(yv.0, yv.1, iter_count as u32);
                proof {
                    assert forall|pj: int, bj: int|
                        (0 <= pj < pi && 0 <= bj < self.points.entries@[pj].1@.len()) || (pj == pi
                            && 0 <= bj < bi) implies pdf_data.data@.contains(
                        #[trigger] raw_point(self.points.entries@, pj, bj),
                    ) by {
                        let rp = raw_point(self.points.entries@, pj, bj);
                        let k = choose|k: int| 0 <= k < before.len() && before[k] == rp;
                        assert(pdf_data.data@[k] == rp);
                    }
                    assert(pdf_data.data@.last() == raw_point(
                        self.points.entries@,
                        pi as int,
                        bi as int,
                    ));
                    assert(pdf_data.data@.contains(
                        raw_point(self.points.entries@, pi as int, bi as int),
                    ));
                }
                bi = bi + 1;
            }
            proof {
                assert(self.points.entries@.take(pi as int + 1).drop_last() =~= self.points
                    .entries@.take(pi as int));
                assert(self.points.entries@.take(pi as int + 1).last() == self.points
                    .entries@[pi as int]);
            }
            pi = pi + 1;
        }
        proof {
            assert(self.points.entries@.take(pn as int) =~= self.points.entries@);
        }

        let mut ui: usize = 0;
        while ui < n
            invariant
                ui <= n,
                n == self.uv_analysis.spec_len(),
                self.wf(),
                forall|j: int|
                    0 <= j < n ==> (#[trigger] self.uv_analysis.entries@[j]).1.n >= 2,
                pdf_data.data@.len() == bucket_total(self.points.entries@) + 500 * ui,
                forall|pj: int, bj: int|
                    0 <= pj < self.points.spec_len() && 0 <= bj
                        < self.points.entries@[pj].1@.len() ==> pdf_data.data@.contains(
                        #[trigger] raw_point(self.points.entries@, pj, bj),
                    ),
                forall|si: int, g: int|
                    0 <= si < ui && 0 <= g < 500 && curve_point_ok(self.uv_analysis.entries@[si].1, g)
                        ==> pdf_data.data@.contains(
                        #[trigger] curve_point(self.uv_analysis.entries@[si].1, self.uv_analysis.key(si) as u16, g),
                    ),
            decreases n - ui,
        {
            let ghost before = pdf_data.data@;
            let uva = &self.uv_analysis.entries[ui].1;
            match uva.kdensity(500) {
                Ok(kde_data) => {
                    pdf_data.add_kde_data(&kde_data, self.uv_analysis.entries[ui].0 as u16);
                    proof {
                        assert(self.uv_analysis.entries@[ui as int].0 as u16 as u64
                            == self.uv_analysis.key(ui as int));
                        assert forall|g: int|
                            0 <= g < 500 && curve_point_ok(
                                self.uv_analysis.entries@[ui as int].1,
                                g,
                            ) implies pdf_data.data@.contains(
                            curve_point(
                                self.uv_analysis.entries@[ui as int].1,
                                self.uv_analysis.key(ui as int) as u16,
                                g,
                            ),
                        ) by {
                            assert(kde_data.points@[g].x_val == grid_x(
                                uva.sigma_x,
                                uva.sigma_xsq,
                                uva.n,
                                uva.x_min->Some_0,
                                uva.x_max->Some_0,
                                500,
                                g,
                            ));
                            assert(kde_data.points@[g].density == est_bits(
                                uva.sample@,
                                bw_bits(uva.sigma_x, uva.sigma_xsq, uva.n),
                                kde_data.points@[g].x_val,
                                uva.n,
                            ));
                            assert(pdf_data.data@[before.len() + g] == curve_point(
                                self.uv_analysis.entries@[ui as int].1,
                                self.uv_analysis.key(ui as int) as u16,
                                g,
                            ));
                        }
                    }
                },
                Err(_) => {
                    proof {
                        assert(false);
                    }
                },
            }
            proof {
                assert forall|pj: int, bj: int|
                    0 <= pj < self.points.spec_len() && 0 <= bj
                        < self.points.entries@[pj].1@.len() implies pdf_data.data@.contains(
                    #[trigger] raw_point(self.points.entries@, pj, bj),
                ) by {
                    let rp = raw_point(self.points.entries@, pj, bj);
                    let k = choose|k: int| 0 <= k < before.len() && before[k] == rp;
                    assert(pdf_data.data@[k] == rp);
                }
                assert forall|si: int, g: int|
                    0 <= si < ui + 1 && 0 <= g < 500 && curve_point_ok(
                        self.uv_analysis.entries@[si].1,
                        g,
                    ) implies pdf_data.data@.contains(
                    #[trigger] curve_point(self.uv_analysis.entries@[si].1, self.uv_analysis.key(si) as u16, g),
                ) by {
                    if si < ui {
                        let cp = curve_point(self.uv_analysis.entries@[si].1, self.uv_analysis.key(si) as u16, g);
                        let k = choose|k: int| 0 <= k < before.len() && before[k] == cp;
                        assert(pdf_data.data@[k] == cp);
                    }
                }
            }
            ui = ui + 1;
        }
        let ghost presort = pdf_data.data@;
        pdf_data.sort();
        proof {
            assert forall|pj: int, bj: int|
                0 <= pj < self.points.spec_len() && 0 <= bj
                    < self.points.entries@[pj].1@.len() implies pdf_data.data@.to_multiset().count(
                #[trigger] raw_point(self.points.entries@, pj, bj),
            ) > 0 by {
                let rp = raw_point(self.points.entries@, pj, bj);
                vstd::seq_lib::to_multiset_contains::<PdfDataPoint>(presort, rp);
            }
            assert forall|si: int, g: int|
                0 <= si < self.uv_analysis.spec_len() && 0 <= g < 500 && curve_point_ok(
                    self.uv_analysis.entries@[si].1,
                    g,
                ) implies pdf_data.data@.to_multiset().count(
                #[trigger] curve_point(self.uv_analysis.entries@[si].1, self.uv_analysis.key(si) as u16, g),
            ) > 0 by {
                let cp = curve_point(self.uv_analysis.entries@[si].1, self.uv_analysis.key(si) as u16, g);
                vstd::seq_lib::to_multiset_contains::<PdfDataPoint>(presort, cp);
            }
        }
        Ok(pdf_data)
    }
}

/// How one observation changes a named collection: the data set of
/// its group is advanced as `set_upserted` says; other groups stay. A
/// group seen for the first time enters at its sorted position
/// holding exactly that one observation.
pub open spec fn tsxmap_pushed(
    pre: StrMap<TsxDataSet>,
    post: StrMap<TsxDataSet>,
    group: Seq<char>,
    name: Seq<char>,
    p: CriterionDataPoint,
    y: u16,
    trendlines: bool,
) -> bool {
    let k = lower_seq(group);
    let i = post.index_of(k);
    &&& post.contains_key(k)
    &&& if pre.contains_key(k) {
        &&& i == pre.index_of(k)
        &&& post.spec_len() == pre.spec_len()
        &&& post.entries@[i].0 == pre.entries@[i].0
        &&& set_upserted(pre.entries@[i].1, post.entries@[i].1, name, p, y)
        &&& forall|j: int|
            0 <= j < post.spec_len() && j != i ==> post.entries@[j] == pre.entries@[j]
    } else {
        &&& post.spec_len() == pre.spec_len() + 1
        &&& post.entries@[i].0@ == group
        &&& set_single(post.entries@[i].1, name, p, y, trendlines)
        &&& post.entries@ == pre.entries@.insert(i, post.entries@[i])
    }
}

/// Advancing one series' analysis never disturbs another series: the
/// touched series keeps (or receives) its name, every other series
/// keeps its whole analysis.
pub proof fn lemma_uv_upsert_keeps(
    pre: IntMap<UvAnalysis>,
    post: IntMap<UvAnalysis>,
    y: u64,
    name: Seq<char>,
    val: u64,
)
    requires
        pre.wf(),
        post.wf(),
        uv_upsert(pre, post, y, name, val),
    ensures
        post.contains_key(y),
        pre.contains_key(y) ==> post.entries@[post.index_of(y)].1.fn_name == pre.entries@[pre.index_of(
            y,
        )].1.fn_name,
        !pre.contains_key(y) ==> post.entries@[post.index_of(y)].1.fn_name@ == name,
        forall|k: u64| pre.contains_key(k) ==> #[trigger] post.contains_key(k),
        forall|k: u64|
            pre.contains_key(k) && k != y ==> post.entries@[post.index_of(k)].1 == pre.entries@[pre.index_of(
                k,
            )].1,
        forall|k: u64| #[trigger] post.contains_key(k) ==> pre.contains_key(k) || k == y,
    {
    let i = post.index_of(y);
    assert forall|k: u64| #[trigger] post.contains_key(k) implies pre.contains_key(k) || k
        == y by {
        if k != y {
            let j = post.index_of(k);
            assert(post.key(j) == k);
            if pre.contains_key(y) {
                assert(j != i);
                assert(post.entries@[j] == pre.entries@[j]);
                assert(pre.key(j) == k);
            } else {
                assert(j != i);
                let jj = if j < i {
                    j
                } else {
                    j - 1
                };
                assert(post.entries@[j] == pre.entries@[jj]);
                assert(pre.key(jj) == k);
            }
        }
    }
    assert forall|k: u64| pre.contains_key(k) implies #[trigger] post.contains_key(k) by {
        let j = pre.index_of(k);
        if pre.contains_key(y) {
            if j == i {
                assert(post.entries@[i].0 == pre.entries@[i].0);
                assert(post.key(i) == k);
            } else {
                assert(post.entries@[j] == pre.entries@[j]);
                assert(post.key(j) == k);
            }
        } else {
            let jj = if j < i {
                j
            } else {
                j + 1
            };
            assert(post.entries@[jj] == pre.entries@[j]);
            assert(post.key(jj) == k);
        }
    }
    assert forall|k: u64|
        pre.contains_key(k) && k != y implies post.entries@[post.index_of(k)].1 == pre.entries@[pre.index_of(
        k,
    )].1 by {
        let j = pre.index_of(k);
        if pre.contains_key(y) {
            assert(post.entries@[j] == pre.entries@[j]);
            assert(post.key(j) == k);
            post.lemma_index_unique(j);
        } else {
            let jj = if j < i {
                j
            } else {
                j + 1
            };
            assert(post.entries@[jj] == pre.entries@[j]);
            assert(post.key(jj) == k);
            post.lemma_index_unique(jj);
        }
    }
}

/// Advancing one series' regression never disturbs another series.
pub proof fn lemma_bv_upsert_keeps(
    pre: IntMap<BvAnalysis>,
    post: IntMap<BvAnalysis>,
    y: u64,
    x: u32,
    val: u64,
)
    requires
        pre.wf(),
        post.wf(),
        bv_upsert(pre, post, y, x, val),
    ensures
        post.contains_key(y),
        forall|k: u64| pre.contains_key(k) ==> #[trigger] post.contains_key(k),
        forall|k: u64|
            pre.contains_key(k) && k != y ==> post.entries@[post.index_of(k)].1 == pre.entries@[pre.index_of(
                k,
            )].1,
        forall|k: u64| #[trigger] post.contains_key(k) ==> pre.contains_key(k) || k == y,
{
    let i = post.index_of(y);
    assert forall|k: u64| #[trigger] post.contains_key(k) implies pre.contains_key(k) || k
        == y by {
        if k != y {
            let j = post.index_of(k);
            assert(post.key(j) == k);
            if pre.contains_key(y) {
                assert(j != i);
                assert(post.entries@[j] == pre.entries@[j]);
                assert(pre.key(j) == k);
            } else {
                assert(j != i);
                let jj = if j < i {
                    j
                } else {
                    j - 1
                };
                assert(post.entries@[j] == pre.entries@[jj]);
                assert(pre.key(jj) == k);
            }
        }
    }
    assert forall|k: u64| pre.contains_key(k) implies #[trigger] post.contains_key(k) by {
        let j = pre.index_of(k);
        if pre.contains_key(y) {
            if j == i {
                assert(post.entries@[i].0 == pre.entries@[i].0);
                assert(post.key(i) == k);
            } else {
                assert(post.entries@[j] == pre.entries@[j]);
                assert(post.key(j) == k);
            }
        } else {
            let jj = if j < i {
                j
            } else {
                j + 1
            };
            assert(post.entries@[jj] == pre.entries@[j]);
            assert(post.key(jj) == k);
        }
    }
    assert forall|k: u64|
        pre.contains_key(k) && k != y implies post.entries@[post.index_of(k)].1 == pre.entries@[pre.index_of(
        k,
    )].1 by {
        let j = pre.index_of(k);
        if pre.contains_key(y) {
            assert(post.entries@[j] == pre.entries@[j]);
            assert(post.key(j) == k);
            post.lemma_index_unique(j);
        } else {
            let jj = if j < i {
                j
            } else {
                j + 1
            };
            assert(post.entries@[jj] == pre.entries@[j]);
            assert(post.key(jj) == k);
            post.lemma_index_unique(jj);
        }
    }
}

/// A push never removes a group: every key present before is present
/// after, and the pushed group's key is present.
pub proof fn lemma_push_keeps_keys(
    pre: StrMap<TsxDataSet>,
    post: StrMap<TsxDataSet>,
    group: Seq<char>,
    name: Seq<char>,
    p: CriterionDataPoint,
    y: u16,
    trendlines: bool,
)
    requires
        tsxmap_pushed(pre, post, group, name, p, y, trendlines),
    ensures
        post.contains_key(lower_seq(group)),
        forall|k: Seq<u32>| pre.contains_key(k) ==> #[trigger] post.contains_key(k),
        forall|k: Seq<u32>|
            #[trigger] post.contains_key(k) ==> pre.contains_key(k) || k == lower_seq(group),
{
    let gk = lower_seq(group);
    let i = post.index_of(gk);
    assert forall|k: Seq<u32>|
        #[trigger] post.contains_key(k) implies pre.contains_key(k) || k == gk by {
        if k != gk {
            let j = post.index_of(k);
            assert(post.lkey(j) == k);
            if pre.contains_key(gk) {
                assert(j != i);
                assert(post.entries@[j] == pre.entries@[j]);
                assert(pre.lkey(j) == k);
            } else {
                assert(j != i);
                let jj = if j < i {
                    j
                } else {
                    j - 1
                };
                assert(post.entries@[j] == pre.entries@[jj]);
                assert(pre.lkey(jj) == k);
            }
        }
    }
    assert forall|k: Seq<u32>| pre.contains_key(k) implies #[trigger] post.contains_key(k) by {
        let j = choose|j: int| 0 <= j < pre.spec_len() && pre.lkey(j) == k;
        if pre.contains_key(gk) {
            if j == i {
                assert(post.entries@[i].0 == pre.entries@[i].0);
                assert(post.lkey(i) == k);
            } else {
                assert(post.entries@[j] == pre.entries@[j]);
                assert(post.lkey(j) == k);
            }
        } else {
            let jj = if j < i {
                j
            } else {
                j + 1
            };
            assert(post.entries@[jj] == pre.entries@[j]);
            assert(post.lkey(jj) == k);
        }
    }
}

/// A push never disturbs another group: every other key keeps its
/// whole entry.
pub proof fn lemma_push_keeps_entries(
    pre: StrMap<TsxDataSet>,
    post: StrMap<TsxDataSet>,
    group: Seq<char>,
    name: Seq<char>,
    p: CriterionDataPoint,
    y: u16,
    trendlines: bool,
)
    requires
        pre.wf(),
        post.wf(),
        tsxmap_pushed(pre, post, group, name, p, y, trendlines),
    ensures
        forall|k: Seq<u32>|
            pre.contains_key(k) && k != lower_seq(group) ==> #[trigger] post.contains_key(k)
                && post.entries@[post.index_of(k)] == pre.entries@[pre.index_of(k)],
{
    let gk = lower_seq(group);
    let i = post.index_of(gk);
    assert forall|k: Seq<u32>|
        pre.contains_key(k) && k != gk implies #[trigger] post.contains_key(k)
            && post.entries@[post.index_of(k)] == pre.entries@[pre.index_of(k)] by {
        let j = pre.index_of(k);
        if pre.contains_key(gk) {
            assert(i == pre.index_of(gk));
            assert(j != i);
            assert(post.entries@[j] == pre.entries@[j]);
            assert(post.lkey(j) == k);
            post.lemma_index_unique(j);
        } else {
            let jj = if j < i {
                j
            } else {
                j + 1
            };
            assert(post.entries@[jj] == pre.entries@[j]);
            assert(post.lkey(jj) == k);
            post.lemma_index_unique(jj);
        }
    }
}

/// One named collection of series data: the data sets per group, in
/// ascending case-insensitive group order. `trendlines` says whether
/// its data sets carry regression accumulators, `pdfdata` whether the
/// merged probability-density data set is emitted with it.
pub struct TsxDataMap {
    pub data: StrMap<TsxDataSet>,
    pub dataset_name: String,
    pub trendlines: bool,
    pub pdfdata: bool,
}

impl TsxDataMap {
    /// Groups in order; every data set well formed, carrying this
    /// collection's trend-line choice, with its unit recorded.
    pub open spec fn wf(self) -> bool {
        &&& self.data.wf()
        &&& forall|i: int|
            0 <= i < self.data.spec_len() ==> (#[trigger] self.data.entries@[i]).1.wf()
                && self.data.entries@[i].1.time_unit is Some && self.data.entries@[i].1.trendlines
                == self.trendlines
    }

    pub fn new(dataset_name: &str, trendlines: bool, pdfdata: bool) -> (r: TsxDataMap)
        ensures
            r.wf(),
            r.data.entries@ =~= Seq::<(String, TsxDataSet)>::empty(),
            r.dataset_name@ == dataset_name@,
            r.trendlines == trendlines,
            r.pdfdata == pdfdata,
    {
        TsxDataMap {
            data: StrMap::new(),
            dataset_name: dataset_name.to_owned(),
            trendlines,
            pdfdata,
        }
    }

    /// Record one observation under its group and series index. An
    /// observation whose unit differs from its group's unit is
    /// refused and changes nothing.
    pub fn push(
        &mut self,
        group: &str,
        fn_name: &str,
        datapoint: &CriterionDataPoint,
        y_index: u16,
    ) -> (r: Result<(), UnitMismatch>)
        requires
            old(self).wf(),
        ensures
            final(self).wf(),
            final(self).dataset_name == old(self).dataset_name,
            final(self).trendlines == old(self).trendlines,
            final(self).pdfdata == old(self).pdfdata,
            (r is Err) == (old(self).data.contains_key(lower_seq(group@)) && old(
                self,
            ).data.entries@[old(self).data.index_of(lower_seq(group@))].1.time_unit != Some(
                datapoint.time_unit,
            )),
            r matches Err(e) ==> final(self).data.entries@ == old(self).data.entries@ && e.actual
                == datapoint.time_unit && Some(e.expected) == old(self).data.entries@[old(
                self,
            ).data.index_of(lower_seq(group@))].1.time_unit,
            r is Ok ==> tsxmap_pushed(
                old(self).data,
                final(self).data,
                group@,
                fn_name@,
                *datapoint,
                y_index,
                old(self).trendlines,
            ),
    {
        let ghost pre = self.data;
        let (pos, found) = self.data.locate(group);
        if found {
            proof {
                pre.lemma_index_unique(pos as int);
            }
            let (k, mut dataset) = self.data.remove_at(pos);
            let res = dataset.insert(fn_name, datapoint, y_index);
            proof {
                StrMap::lemma_remove_keeps_gap(pre, self.data, pos as int);
            }
            self.data.insert_kv_at(pos, k, dataset);
            proof {
                assert(self.data.entries@ =~= pre.entries@.update(
                    pos as int,
                    self.data.entries@[pos as int],
                ));
                assert(self.data.lkey(pos as int) == lower_seq(group@));
                assert(self.data.contains_key(lower_seq(group@)));
                self.data.lemma_index_unique(pos as int);
                assert forall|ii: int|
                    0 <= ii < self.data.spec_len() implies (
                #[trigger] self.data.entries@[ii]).1.wf() && self.data.entries@[ii].1.time_unit
                    is Some && self.data.entries@[ii].1.trendlines == self.trendlines by {
                    if ii != pos {
                        assert(old(self).data.entries@[ii].1.wf());
                        assert(self.data.entries@[ii] == pre.entries@[ii]);
                    }
                }
            }
            match res {
                Err(e) => {
                    proof {
                        assert(self.data.entries@ =~= pre.entries@);
                    }
                    Err(e)
                },
                Ok(()) => {
                    Ok(())
                },
            }
        } else {
            let mut dataset = TsxDataSet::new(self.trendlines);
            let res = dataset.insert(fn_name, datapoint, y_index);
            proof {
                assert(res is Ok);
            }
            self.data.insert_kv_at(pos, group.to_owned(), dataset);
            proof {
                assert(self.data.lkey(pos as int) == lower_seq(group@));
                assert(self.data.contains_key(lower_seq(group@)));
                self.data.lemma_index_unique(pos as int);
                assert(set_single(
                    self.data.entries@[pos as int].1,
                    fn_name@,
                    *datapoint,
                    y_index,
                    self.trendlines,
                ));
                assert forall|ii: int|
                    0 <= ii < self.data.spec_len() implies (
                #[trigger] self.data.entries@[ii]).1.wf() && self.data.entries@[ii].1.time_unit
                    is Some && self.data.entries@[ii].1.trendlines == self.trendlines by {
                    if ii < pos {
                        assert(old(self).data.entries@[ii].1.wf());
                        assert(self.data.entries@[ii] == pre.entries@[ii]);
                    } else if ii > pos {
                        assert(old(self).data.entries@[ii - 1].1.wf());
                        assert(self.data.entries@[ii] == pre.entries@[ii - 1]);
                    }
                }
            }
            Ok(())
        }
    }

    pub fn get(&self, group: &str) -> (r: Option<&TsxDataSet>)
        requires
            self.wf(),
        ensures
            r is Some == self.data.contains_key(lower_seq(group@)),
            r matches Some(ds) ==> *ds == self.data.entries@[self.data.index_of(
                lower_seq(group@),
            )].1,
    {
        let (pos, found) = self.data.locate(group);
        if found {
            proof {
                self.data.lemma_index_unique(pos as int);
            }
            Some(&self.data.entries[pos].1)
        } else {
            None
        }
    }

    /// The unit of every group, in group order: the units-per-group
    /// table handed to emission.
    pub fn units(&self) -> (r: Vec<(String, TimeUnit)>)
        requires
            self.wf(),
        ensures
            r@.len() == self.data.spec_len(),
            forall|i: int|
                0 <= i < r@.len() ==> (#[trigger] r@[i]).0@ == self.data.entries@[i].0@ && Some(
                    r@[i].1,
                ) == self.data.entries@[i].1.time_unit,
    {
        let mut r: Vec<(String, TimeUnit)> = Vec::new();
        let n = self.data.len();
        let mut i: usize = 0;
        while i < n
            invariant
                i <= n,
                n == self.data.spec_len(),
                self.wf(),
                r@.len() == i,
                forall|j: int|
                    0 <= j < i ==> (#[trigger] r@[j]).0@ == self.data.entries@[j].0@ && Some(
                        r@[j].1,
                    ) == self.data.entries@[j].1.time_unit,
            decreases n - i,
        {
            let unit = match self.data.entries[i].1.time_unit {
                Some(t) => t,
                None => {
                    proof {
                        assert(false);
                    }
                    TimeUnit::NS
                },
            };
            r.push((self.data.entries[i].0.clone(), unit));
            i = i + 1;
        }
        r
    }
}

/// The mean-time collection: per-iteration means, without trend
/// lines, with the per-variant statistics and the merged density
/// data.
pub struct MeanTimeData {
    pub data: TsxDataMap,
}

impl MeanTimeData {
    pub open spec fn wf(self) -> bool {
        self.data.wf()
    }

    pub fn new() -> (r: MeanTimeData)
        ensures
            r.wf(),
            r.data.data.entries@ =~= Seq::<(String, TsxDataSet)>::empty(),
            !r.data.trendlines,
            r.data.pdfdata,
    {
        MeanTimeData { data: TsxDataMap::new("MEAN_TIME_DATA", false, true) }
    }

    pub fn data(&self) -> (r: &TsxDataMap)
        ensures
            r == self.data,
    {
        &self.data
    }

    pub fn push(
        &mut self,
        group: &str,
        fn_name: &str,
        datapoint: &CriterionDataPoint,
        y_index: u16,
    ) -> (r: Result<(), UnitMismatch>)
        requires
            old(self).wf(),
        ensures
            final(self).wf(),
            final(self).data.trendlines == old(self).data.trendlines,
            final(self).data.pdfdata == old(self).data.pdfdata,
            (r is Err) == (old(self).data.data.contains_key(lower_seq(group@)) && old(
                self,
            ).data.data.entries@[old(self).data.data.index_of(lower_seq(group@))].1.time_unit
                != Some(datapoint.time_unit)),
            r is Ok ==> tsxmap_pushed(
                old(self).data.data,
                final(self).data.data,
                group@,
                fn_name@,
                *datapoint,
                y_index,
                old(self).data.trendlines,
            ),
    {
        self.data.push(group, fn_name, datapoint, y_index)
    }

    pub fn get(&self, group: &str) -> (r: Option<&TsxDataSet>)
        requires
            self.wf(),
        ensures
            r is Some == self.data.data.contains_key(lower_seq(group@)),
    {
        self.data.get(group)
    }
}

/// The total-time collection: raw measurements with trend lines.
pub struct TotalTimeData {
    pub data: TsxDataMap,
}

impl TotalTimeData {
    pub open spec fn wf(self) -> bool {
        self.data.wf()
    }

    pub fn new() -> (r: TotalTimeData)
        ensures
            r.wf(),
            r.data.data.entries@ =~= Seq::<(String, TsxDataSet)>::empty(),
            r.data.trendlines,
            !r.data.pdfdata,
    {
        TotalTimeData { data: TsxDataMap::new("TOTAL_TIME_DATA", true, false) }
    }

    pub fn data(&self) -> (r: &TsxDataMap)
        ensures
            r == self.data,
    {
        &self.data
    }

    pub fn push(
        &mut self,
        group: &str,
        fn_name: &str,
        datapoint: &CriterionDataPoint,
        y_index: u16,
    ) -> (r: Result<(), UnitMismatch>)
        requires
            old(self).wf(),
        ensures
            final(self).wf(),
            final(self).data.trendlines == old(self).data.trendlines,
            final(self).data.pdfdata == old(self).data.pdfdata,
            (r is Err) == (old(self).data.data.contains_key(lower_seq(group@)) && old(
                self,
            ).data.data.entries@[old(self).data.data.index_of(lower_seq(group@))].1.time_unit
                != Some(datapoint.time_unit)),
            r is Ok ==> tsxmap_pushed(
                old(self).data.data,
                final(self).data.data,
                group@,
                fn_name@,
                *datapoint,
                y_index,
                old(self).data.trendlines,
            ),
    {
        self.data.push(group, fn_name, datapoint, y_index)
    }

    pub fn get(&self, group: &str) -> (r: Option<&TsxDataSet>)
        requires
            self.wf(),
        ensures
            r is Some == self.data.data.contains_key(lower_seq(group@)),
    {
        self.data.get(group)
    }
}

} // verus!
