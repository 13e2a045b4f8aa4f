//! Descriptive statistics, linear regression and kernel density
//! estimation over series of binary64 measurements.
//!
//! Every formula is computed through the named operations of `fbits`.
//! The contracts pin each stored quantity to its canonical fold over
//! the accumulated sample whenever no NaN arises along the fold; a NaN
//! (possible only from infinite or NaN inputs) leaves the affected
//! quantity unconstrained, since IEEE-754 does not pin its payload.
use vstd::prelude::*;

verus! {

use crate::fbits::add_bits;
use crate::fbits::add_f;
use crate::fbits::div_bits;
use crate::fbits::div_f;
use crate::fbits::exp_bits;
use crate::fbits::exp_f;
use crate::fbits::f64_from_u32;
use crate::fbits::f64_of_u32;
use crate::fbits::is_nan_bits;
use crate::fbits::lt_bits;
use crate::fbits::lt_f;
use crate::fbits::mul_bits;
use crate::fbits::mul_f;
use crate::fbits::neg;
use crate::fbits::neg_bits;
use crate::fbits::pow_bits;
use crate::fbits::pow_f;
use crate::fbits::rounds_as;
use crate::fbits::sqrt_bits;
use crate::fbits::sqrt_f;
use crate::fbits::sub_bits;
use crate::fbits::sub_f;

/// A statistic was requested of a series with too few samples: the
/// variance, and everything derived from it, needs at least two.
#[derive(Debug, Clone, Copy, PartialEq, Eq, Structural)]
pub struct StatisticsPrecondition {
    pub samples: usize,
}

/// The running sum of a sample, folded left with the canonical
/// IEEE-754 addition, starting from +0.0.
pub open spec fn sum_bits(s: Seq<u64>) -> u64
    decreases s.len(),
{
    if s.len() == 0 {
        0u64
    } else {
        add_bits(sum_bits(s.drop_last()), s.last())
    }
}

/// No step of the running sum produces a NaN.
pub open spec fn sum_ok(s: Seq<u64>) -> bool
    decreases s.len(),
{
    if s.len() == 0 {
        true
    } else {
        sum_ok(s.drop_last()) && !is_nan_bits(add_bits(sum_bits(s.drop_last()), s.last()))
    }
}

/// The running sum of squares of a sample.
pub open spec fn sumsq_bits(s: Seq<u64>) -> u64
    decreases s.len(),
{
    if s.len() == 0 {
        0u64
    } else {
        add_bits(sumsq_bits(s.drop_last()), mul_bits(s.last(), s.last()))
    }
}

/// No step of the running sum of squares produces a NaN.
pub open spec fn sumsq_ok(s: Seq<u64>) -> bool
    decreases s.len(),
{
    if s.len() == 0 {
        true
    } else {
        &&& sumsq_ok(s.drop_last())
        &&& !is_nan_bits(mul_bits(s.last(), s.last()))
        &&& !is_nan_bits(add_bits(sumsq_bits(s.drop_last()), mul_bits(s.last(), s.last())))
    }
}

/// The running minimum under the IEEE-754 `<` comparison: a later
/// value replaces the current minimum only when strictly below it, so
/// NaN values never replace anything.
pub open spec fn min_bits(s: Seq<u64>) -> Option<u64>
    decreases s.len(),
{
    if s.len() == 0 {
        None
    } else {
        match min_bits(s.drop_last()) {
            None => Some(s.last()),
            Some(m) => if lt_bits(s.last(), m) {
                Some(s.last())
            } else {
                Some(m)
            },
        }
    }
}

/// The running maximum under the IEEE-754 `<` comparison.
pub open spec fn max_bits(s: Seq<u64>) -> Option<u64>
    decreases s.len(),
{
    if s.len() == 0 {
        None
    } else {
        match max_bits(s.drop_last()) {
            None => Some(s.last()),
            Some(m) => if lt_bits(m, s.last()) {
                Some(s.last())
            } else {
                Some(m)
            },
        }
    }
}

/// A nonempty sample has a running minimum and maximum.
pub proof fn lemma_minmax_some(s: Seq<u64>)
    requires
        s.len() > 0,
    ensures
        min_bits(s) is Some,
        max_bits(s) is Some,
    decreases s.len(),
{
    if s.len() > 1 {
        lemma_minmax_some(s.drop_last());
    }
}

/// The sample variance with an (n-1) denominator, computed from the
/// running sums: (sum_sq - sum^2 / n) / (n - 1).
pub open spec fn var_bits(sx: u64, sxsq: u64, n: u32) -> u64 {
    div_bits(
        sub_bits(sxsq, div_bits(mul_bits(sx, sx), f64_of_u32(n))),
        f64_of_u32((n - 1) as u32),
    )
}

/// No step of the variance formula produces a NaN.
pub open spec fn var_ok(sx: u64, sxsq: u64, n: u32) -> bool {
    &&& !is_nan_bits(mul_bits(sx, sx))
    &&& !is_nan_bits(div_bits(mul_bits(sx, sx), f64_of_u32(n)))
    &&& !is_nan_bits(sub_bits(sxsq, div_bits(mul_bits(sx, sx), f64_of_u32(n))))
    &&& !is_nan_bits(var_bits(sx, sxsq, n))
}

/// The standard deviation: the square root of the variance.
pub open spec fn std_dev_bits(sx: u64, sxsq: u64, n: u32) -> u64 {
    sqrt_bits(var_bits(sx, sxsq, n))
}

pub open spec fn std_dev_ok(sx: u64, sxsq: u64, n: u32) -> bool {
    var_ok(sx, sxsq, n) && !is_nan_bits(std_dev_bits(sx, sxsq, n))
}

/// Silverman's rule of thumb: bandwidth = std_dev * (4 / (3 n))^(1/5).
pub open spec fn bw_bits(sx: u64, sxsq: u64, n: u32) -> u64 {
    mul_bits(
        std_dev_bits(sx, sxsq, n),
        pow_bits(
            div_bits(f64_of_u32(4), mul_bits(f64_of_u32(3), f64_of_u32(n))),
            div_bits(f64_of_u32(1), f64_of_u32(5)),
        ),
    )
}

pub open spec fn bw_ok(sx: u64, sxsq: u64, n: u32) -> bool {
    &&& std_dev_ok(sx, sxsq, n)
    &&& !is_nan_bits(mul_bits(f64_of_u32(3), f64_of_u32(n)))
    &&& !is_nan_bits(div_bits(f64_of_u32(4), mul_bits(f64_of_u32(3), f64_of_u32(n))))
    &&& !is_nan_bits(div_bits(f64_of_u32(1), f64_of_u32(5)))
    &&& !is_nan_bits(
        pow_bits(
            div_bits(f64_of_u32(4), mul_bits(f64_of_u32(3), f64_of_u32(n))),
            div_bits(f64_of_u32(1), f64_of_u32(5)),
        ),
    )
    &&& !is_nan_bits(bw_bits(sx, sxsq, n))
}

/// The lower end of the density grid: xmin - 3 * bandwidth.
pub open spec fn grid_start(sx: u64, sxsq: u64, n: u32, xmin: u64) -> u64 {
    sub_bits(xmin, mul_bits(f64_of_u32(3), bw_bits(sx, sxsq, n)))
}

/// The upper end of the density grid: xmax + 3 * bandwidth.
pub open spec fn grid_end(sx: u64, sxsq: u64, n: u32, xmax: u64) -> u64 {
    add_bits(xmax, mul_bits(f64_of_u32(3), bw_bits(sx, sxsq, n)))
}

/// The spacing of the x_range evenly spaced grid points.
pub open spec fn grid_step(sx: u64, sxsq: u64, n: u32, xmin: u64, xmax: u64, x_range: u16) -> u64 {
    div_bits(
        sub_bits(grid_end(sx, sxsq, n, xmax), grid_start(sx, sxsq, n, xmin)),
        f64_of_u32((x_range - 1) as u32),
    )
}

/// The i-th grid point: start + step * i.
pub open spec fn grid_x(
    sx: u64,
    sxsq: u64,
    n: u32,
    xmin: u64,
    xmax: u64,
    x_range: u16,
    i: int,
) -> u64 {
    add_bits(
        grid_start(sx, sxsq, n, xmin),
        mul_bits(grid_step(sx, sxsq, n, xmin, xmax, x_range), f64_of_u32(i as u32)),
    )
}

/// No step of the grid construction produces a NaN.
pub open spec fn grid_ok(sx: u64, sxsq: u64, n: u32, xmin: u64, xmax: u64, x_range: u16) -> bool {
    &&& bw_ok(sx, sxsq, n)
    &&& !is_nan_bits(mul_bits(f64_of_u32(3), bw_bits(sx, sxsq, n)))
    &&& !is_nan_bits(grid_start(sx, sxsq, n, xmin))
    &&& !is_nan_bits(grid_end(sx, sxsq, n, xmax))
    &&& !is_nan_bits(sub_bits(grid_end(sx, sxsq, n, xmax), grid_start(sx, sxsq, n, xmin)))
    &&& !is_nan_bits(grid_step(sx, sxsq, n, xmin, xmax, x_range))
}

/// Univariate analysis of one series: the sample itself plus running
/// sum, sum of squares, count, mean, minimum and maximum, updated in
/// constant time per observation.
pub struct UvAnalysis {
    pub fn_name: String,
    pub sample: Vec<u64>,
    pub sigma_x: u64,
    pub sigma_xsq: u64,
    pub n: u32,
    pub x_bar: u64,
    pub x_min: Option<u64>,
    pub x_max: Option<u64>,
}

impl UvAnalysis {
    /// The accumulated state is the canonical fold of the sample:
    /// count and extrema always, the sums and the mean whenever their
    /// fold stays clear of NaN.
    pub open spec fn wf(self) -> bool {
        &&& self.n == self.sample@.len()
        &&& (sum_ok(self.sample@) ==> self.sigma_x == sum_bits(self.sample@))
        &&& (sumsq_ok(self.sample@) ==> self.sigma_xsq == sumsq_bits(self.sample@))
        &&& self.x_min == min_bits(self.sample@)
        &&& self.x_max == max_bits(self.sample@)
        &&& (self.n > 0 && sum_ok(self.sample@) ==> rounds_as(
            self.x_bar,
            div_bits(sum_bits(self.sample@), f64_of_u32(self.n)),
        ))
        &&& (self.n == 0 ==> self.x_bar == 0u64)
    }

    pub fn new(fn_name: String) -> (r: UvAnalysis)
        ensures
            r.wf(),
            r.fn_name == fn_name,
            r.sample@ =~= Seq::<u64>::empty(),
            r.n == 0,
    {
        UvAnalysis {
            fn_name,
            sample: Vec::new(),
            sigma_x: 0,
            sigma_xsq: 0,
            n: 0,
            x_bar: 0,
            x_min: None,
            x_max: None,
        }
    }

    /// Accumulate one value. A series cannot hold more than
    /// u32::MAX samples; a value beyond that limit is not accumulated.
    pub fn add(&mut self, val: u64)
        requires
            old(self).wf(),
        ensures
            final(self).wf(),
            final(self).fn_name == old(self).fn_name,
            old(self).n < u32::MAX ==> final(self).sample@ == old(self).sample@.push(val)
                && final(self).n == old(self).n + 1,
            old(self).n == u32::MAX ==> *final(self) == *old(self),
    {
        if self.n == u32::MAX {
            return ;
        }
        let ghost pre = self.sample@;
        self.sample.push(val);
        proof {
            assert(self.sample@.drop_last() =~= pre);
        }
        let sq = mul_f(val, val);
        self.sigma_x = add_f(self.sigma_x, val);
        self.sigma_xsq = add_f(self.sigma_xsq, sq);
        self.n = self.n + 1;
        self.x_bar = div_f(self.sigma_x, f64_from_u32(self.n));
        self.x_min = match self.x_min {
            None => Some(val),
            Some(xm) => if lt_f(val, xm) {
                Some(val)
            } else {
                Some(xm)
            },
        };
        self.x_max = match self.x_max {
            None => Some(val),
            Some(xm) => if lt_f(xm, val) {
                Some(val)
            } else {
                Some(xm)
            },
        };
    }

    pub fn fn_name(&self) -> (r: &String)
        ensures
            r == self.fn_name,
    {
        &self.fn_name
    }

    /// The sample variance; defined only for two or more samples.
    pub fn variance(&self) -> (r: Result<u64, StatisticsPrecondition>)
        requires
            self.wf(),
        ensures
            r is Err == (self.n < 2),
            r matches Err(e) ==> e.samples == self.n,
            r matches Ok(v) ==> (var_ok(self.sigma_x, self.sigma_xsq, self.n) ==> v == var_bits(
                self.sigma_x,
                self.sigma_xsq,
                self.n,
            )),
    {
        if self.n < 2 {
            return Err(StatisticsPrecondition { samples: self.n as usize });
        }
        let m = mul_f(self.sigma_x, self.sigma_x);
        let d = div_f(m, f64_from_u32(self.n));
        let s = sub_f(self.sigma_xsq, d);
        Ok(div_f(s, f64_from_u32(self.n - 1)))
    }

    /// The sample standard deviation; defined only for two or more
    /// samples.
    pub fn std_dev(&self) -> (r: Result<u64, StatisticsPrecondition>)
        requires
            self.wf(),
        ensures
            r is Err == (self.n < 2),
            r matches Err(e) ==> e.samples == self.n,
            r matches Ok(v) ==> (std_dev_ok(self.sigma_x, self.sigma_xsq, self.n) ==> v
                == std_dev_bits(self.sigma_x, self.sigma_xsq, self.n)),
    {
        match self.variance() {
            Err(e) => Err(e),
            Ok(v) => Ok(sqrt_f(v)),
        }
    }

    /// The running mean.
    pub fn mean(&self) -> (r: u64)
        requires
            self.wf(),
        ensures
            r == self.x_bar,
            self.n > 0 && sum_ok(self.sample@) ==> rounds_as(
                r,
                div_bits(sum_bits(self.sample@), f64_of_u32(self.n)),
            ),
    {
        self.x_bar
    }

    /// The mean and standard deviation of the series, for the
    /// per-variant statistics table.
    pub fn stats_info(&self) -> (r: Result<crate::infomap::StatsInfo, StatisticsPrecondition>)
        requires
            self.wf(),
        ensures
            r is Err == (self.n < 2),
            r matches Err(e) ==> e.samples == self.n,
            r matches Ok(si) ==> si.mean == self.x_bar,
            r matches Ok(si) ==> (std_dev_ok(self.sigma_x, self.sigma_xsq, self.n) ==> si.std_dev
                == std_dev_bits(self.sigma_x, self.sigma_xsq, self.n)),
    {
        match self.std_dev() {
            Err(e) => Err(e),
            Ok(sd) => Ok(crate::infomap::StatsInfo::new(self.x_bar, sd)),
        }
    }

    /// The kernel bandwidth by Silverman's rule of thumb.
    pub fn kde_bw(&self) -> (r: Result<u64, StatisticsPrecondition>)
        requires
            self.wf(),
        ensures
            r is Err == (self.n < 2),
            r matches Err(e) ==> e.samples == self.n,
            r matches Ok(v) ==> (bw_ok(self.sigma_x, self.sigma_xsq, self.n) ==> v == bw_bits(
                self.sigma_x,
                self.sigma_xsq,
                self.n,
            )),
    {
        match self.std_dev() {
            Err(e) => Err(e),
            Ok(sd) => {
                let base = div_f(f64_from_u32(4), mul_f(f64_from_u32(3), f64_from_u32(self.n)));
                let fifth = div_f(f64_from_u32(1), f64_from_u32(5));
                Ok(mul_f(sd, pow_f(base, fifth)))
            },
        }
    }

    /// Estimate the smoothed density of the series over `x_range`
    /// evenly spaced points spanning three bandwidths beyond the
    /// observed extremes. A series of fewer than two samples has no
    /// bandwidth and is refused.
    pub fn kdensity(&self, x_range: u16) -> (r: Result<KdeDataSet, StatisticsPrecondition>)
        requires
            self.wf(),
            x_range >= 2,
        ensures
            r is Err == (self.n < 2),
            r matches Err(e) ==> e.samples == self.n,
            r matches Ok(kds) ==> kds.points@.len() == x_range,
            r matches Ok(kds) ==> forall|i: int|
                0 <= i < x_range && grid_ok(
                    self.sigma_x,
                    self.sigma_xsq,
                    self.n,
                    self.x_min->Some_0,
                    self.x_max->Some_0,
                    x_range,
                ) && !is_nan_bits(
                    mul_bits(
                        grid_step(
                            self.sigma_x,
                            self.sigma_xsq,
                            self.n,
                            self.x_min->Some_0,
                            self.x_max->Some_0,
                            x_range,
                        ),
                        f64_of_u32(i as u32),
                    ),
                ) && !is_nan_bits(
                    grid_x(
                        self.sigma_x,
                        self.sigma_xsq,
                        self.n,
                        self.x_min->Some_0,
                        self.x_max->Some_0,
                        x_range,
                        i,
                    ),
                ) ==> (#[trigger] kds.points@[i]).x_val == grid_x(
                    self.sigma_x,
                    self.sigma_xsq,
                    self.n,
                    self.x_min->Some_0,
                    self.x_max->Some_0,
                    x_range,
                    i,
                ),
            r matches Ok(kds) ==> forall|i: int|
                0 <= i < x_range && bw_ok(self.sigma_x, self.sigma_xsq, self.n) && est_ok(
                    self.sample@,
                    bw_bits(self.sigma_x, self.sigma_xsq, self.n),
                    kds.points@[i].x_val,
                    self.n,
                ) ==> (#[trigger] kds.points@[i]).density == est_bits(
                    self.sample@,
                    bw_bits(self.sigma_x, self.sigma_xsq, self.n),
                    kds.points@[i].x_val,
                    self.n,
                ),
    {
        let bandwidth = match self.kde_bw() {
            Err(e) => {
                return Err(e);
            },
            Ok(bw) => bw,
        };
        proof {
            lemma_minmax_some(self.sample@);
        }
        let xmin = match self.x_min {
            Some(m) => m,
            None => {
                proof {
                    assert(false);
                }
                0
            },
        };
        let xmax = match self.x_max {
            Some(m) => m,
            None => {
                proof {
                    assert(false);
                }
                0
            },
        };
        let kde = Kde::new(GaussianKernel, bandwidth, &self.sample);
        let three = f64_from_u32(3);
        let start = sub_f(xmin, mul_f(three, bandwidth));
        let end = add_f(xmax, mul_f(three, bandwidth));
        let bin_size = div_f(sub_f(end, start), f64_from_u32((x_range - 1) as u32));
        let mut kde_dataset = KdeDataSet::new();
        let mut i: u16 = 0;
        let ghost sx = self.sigma_x;
        let ghost sxsq = self.sigma_xsq;
        let ghost cn = self.n;
        let ghost gmin = self.x_min->Some_0;
        let ghost gmax = self.x_max->Some_0;
        while i < x_range
            invariant
                i <= x_range,
                x_range >= 2,
                kde_dataset.points@.len() == i,
                kde.wf(),
                kde.bandwidth == bandwidth,
                kde.sample@ == self.sample@,
                kde.n == cn,
                sx == self.sigma_x,
                sxsq == self.sigma_xsq,
                cn == self.n,
                gmin == self.x_min->Some_0,
                gmax == self.x_max->Some_0,
                xmin == gmin,
                xmax == gmax,
                bw_ok(sx, sxsq, cn) ==> bandwidth == bw_bits(sx, sxsq, cn),
                grid_ok(sx, sxsq, cn, gmin, gmax, x_range) ==> start == grid_start(
                    sx,
                    sxsq,
                    cn,
                    gmin,
                ) && bin_size == grid_step(sx, sxsq, cn, gmin, gmax, x_range),
                forall|j: int|
                    0 <= j < i && grid_ok(sx, sxsq, cn, gmin, gmax, x_range) && !is_nan_bits(
                        mul_bits(
                            grid_step(sx, sxsq, cn, gmin, gmax, x_range),
                            f64_of_u32(j as u32),
                        ),
                    ) && !is_nan_bits(grid_x(sx, sxsq, cn, gmin, gmax, x_range, j)) ==> (
                    #[trigger] kde_dataset.points@[j]).x_val == grid_x(
                        sx,
                        sxsq,
                        cn,
                        gmin,
                        gmax,
                        x_range,
                        j,
                    ),
                forall|j: int|
                    0 <= j < i && bw_ok(sx, sxsq, cn) && est_ok(
                        self.sample@,
                        bw_bits(sx, sxsq, cn),
                        kde_dataset.points@[j].x_val,
                        cn,
                    ) ==> (#[trigger] kde_dataset.points@[j]).density == est_bits(
                        self.sample@,
                        bw_bits(sx, sxsq, cn),
                        kde_dataset.points@[j].x_val,
                        cn,
                    ),
            decreases x_range - i,
        {
            let x = add_f(start, mul_f(bin_size, f64_from_u32(i as u32)));
            let di = kde.estimate(x);
            kde_dataset.push(x, di);
            i = i + 1;
        }
        Ok(kde_dataset)
    }
}

/// The running mean equals the mean computed directly over the same
/// sample in one pass: both are the canonical running sum divided by
/// the count. This holds whenever the running sum stays clear of NaN;
/// a sample such as one holding both infinities leaves the sum, and
/// with it the mean, unpinned.
pub proof fn lemma_incremental_mean_is_direct(u: UvAnalysis)
    requires
        u.wf(),
        u.n > 0,
        sum_ok(u.sample@),
    ensures
        rounds_as(u.x_bar, div_bits(sum_bits(u.sample@), f64_of_u32(u.n))),
{
}

/// The incrementally maintained sums feed the variance formula with
/// exactly the one-pass sums of the sample: the variance of a series
/// is (sum_sq - sum^2 / n) / (n - 1) over the canonical sum and sum
/// of squares of the accumulated sample. (The two-pass centered
/// variance, summing squared deviations from the mean, is a different
/// floating-point expression; the two agree only within rounding, a
/// tolerance stated by the crate's tests, not by a contract.)
pub proof fn lemma_incremental_variance_is_direct(u: UvAnalysis)
    requires
        u.wf(),
        u.n >= 2,
        sum_ok(u.sample@),
        sumsq_ok(u.sample@),
    ensures
        var_bits(u.sigma_x, u.sigma_xsq, u.n) == var_bits(
            sum_bits(u.sample@),
            sumsq_bits(u.sample@),
            u.n,
        ),
        std_dev_bits(u.sigma_x, u.sigma_xsq, u.n) == std_dev_bits(
            sum_bits(u.sample@),
            sumsq_bits(u.sample@),
            u.n,
        ),
{
}

/// The standard normal kernel evaluated through the named operations:
/// K(u) = exp(-u^2 / 2) / sqrt(2 pi); 0x400921fb54442d18 is the
/// binary64 bit pattern of pi.
pub open spec fn gauss_bits(x: u64) -> u64 {
    div_bits(
        exp_bits(neg_bits(div_bits(mul_bits(x, x), f64_of_u32(2)))),
        sqrt_bits(mul_bits(f64_of_u32(2), 0x400921fb54442d18)),
    )
}

/// No step of the kernel formula produces a NaN.
pub open spec fn gauss_ok(x: u64) -> bool {
    &&& !is_nan_bits(mul_bits(x, x))
    &&& !is_nan_bits(div_bits(mul_bits(x, x), f64_of_u32(2)))
    &&& !is_nan_bits(exp_bits(neg_bits(div_bits(mul_bits(x, x), f64_of_u32(2)))))
    &&& !is_nan_bits(mul_bits(f64_of_u32(2), 0x400921fb54442d18))
    &&& !is_nan_bits(sqrt_bits(mul_bits(f64_of_u32(2), 0x400921fb54442d18)))
    &&& !is_nan_bits(gauss_bits(x))
}

/// The standard normal kernel.
pub struct GaussianKernel;

impl GaussianKernel {
    /// Evaluate the kernel at one point.
    pub fn kernel(&self, x: u64) -> (r: u64)
        ensures
            gauss_ok(x) ==> r == gauss_bits(x),
    {
        let u2 = mul_f(x, x);
        let h = div_f(u2, f64_from_u32(2));
        let e = exp_f(neg(h));
        let den = sqrt_f(mul_f(f64_from_u32(2), 0x400921fb54442d18));
        div_f(e, den)
    }
}

/// The kernel sum of a sample at one point: the fold of
/// K((x - s_j) / bandwidth) over the sample.
pub open spec fn ksum_bits(s: Seq<u64>, bw: u64, x: u64) -> u64
    decreases s.len(),
{
    if s.len() == 0 {
        0u64
    } else {
        add_bits(
            ksum_bits(s.drop_last(), bw, x),
            gauss_bits(div_bits(sub_bits(x, s.last()), bw)),
        )
    }
}

/// No step of the kernel sum produces a NaN.
pub open spec fn ksum_ok(s: Seq<u64>, bw: u64, x: u64) -> bool
    decreases s.len(),
{
    if s.len() == 0 {
        true
    } else {
        &&& ksum_ok(s.drop_last(), bw, x)
        &&& !is_nan_bits(sub_bits(x, s.last()))
        &&& !is_nan_bits(div_bits(sub_bits(x, s.last()), bw))
        &&& gauss_ok(div_bits(sub_bits(x, s.last()), bw))
        &&& !is_nan_bits(
            add_bits(
                ksum_bits(s.drop_last(), bw, x),
                gauss_bits(div_bits(sub_bits(x, s.last()), bw)),
            ),
        )
    }
}

/// The density estimate at one point: the kernel sum divided by
/// (n * bandwidth).
pub open spec fn est_bits(s: Seq<u64>, bw: u64, x: u64, n: u32) -> u64 {
    div_bits(ksum_bits(s, bw, x), mul_bits(f64_of_u32(n), bw))
}

pub open spec fn est_ok(s: Seq<u64>, bw: u64, x: u64, n: u32) -> bool {
    &&& ksum_ok(s, bw, x)
    &&& !is_nan_bits(mul_bits(f64_of_u32(n), bw))
    &&& !is_nan_bits(est_bits(s, bw, x, n))
}

/// A kernel density estimator over a borrowed sample.
pub struct Kde<'a> {
    pub kernel: GaussianKernel,
    pub bandwidth: u64,
    pub sample: &'a Vec<u64>,
    pub n: u32,
}

impl<'a> Kde<'a> {
    pub open spec fn wf(self) -> bool {
        self.n == self.sample@.len()
    }

    pub fn new(kernel: GaussianKernel, bandwidth: u64, sample: &'a Vec<u64>) -> (r: Kde<'a>)
        requires
            sample@.len() <= u32::MAX,
        ensures
            r.wf(),
            r.bandwidth == bandwidth,
            r.sample == sample,
    {
        let n = sample.len() as u32;
        Kde { kernel, bandwidth, sample, n }
    }

    /// The kernel sum at one point.
    fn kernel(&self, x: u64) -> (r: u64)
        requires
            self.wf(),
        ensures
            ksum_ok(self.sample@, self.bandwidth, x) ==> r == ksum_bits(
                self.sample@,
                self.bandwidth,
                x,
            ),
    {
        let mut sum: u64 = 0;
        let mut j: usize = 0;
        let len = self.sample.len();
        while j < len
            invariant
                j <= len,
                len == self.sample@.len(),
                self.wf(),
                ksum_ok(self.sample@.take(j as int), self.bandwidth, x) ==> sum == ksum_bits(
                    self.sample@.take(j as int),
                    self.bandwidth,
                    x,
                ),
            decreases len - j,
        {
            let ghost prefix = self.sample@.take(j as int);
            let ghost next = self.sample@.take(j as int + 1);
            proof {
                assert(next.drop_last() =~= prefix);
                assert(next.last() == self.sample@[j as int]);
            }
            let xi = self.sample[j];
            let u = div_f(sub_f(x, xi), self.bandwidth);
            let k = self.kernel.kernel(u);
            sum = add_f(sum, k);
            j = j + 1;
        }
        proof {
            assert(self.sample@.take(len as int) =~= self.sample@);
        }
        sum
    }

    /// The density estimate at one point.
    pub fn estimate(&self, x: u64) -> (r: u64)
        requires
            self.wf(),
        ensures
            est_ok(self.sample@, self.bandwidth, x, self.n) ==> r == est_bits(
                self.sample@,
                self.bandwidth,
                x,
                self.n,
            ),
    {
        let sigma_kx = self.kernel(x);
        div_f(sigma_kx, mul_f(f64_from_u32(self.n), self.bandwidth))
    }
}

/// One point of a smoothed density curve.
#[derive(Debug, Clone, Copy, PartialEq, Eq, Structural)]
pub struct KdeDataPoint {
    pub x_val: u64,
    pub density: u64,
}

impl KdeDataPoint {
    pub fn new(x_val: u64, density: u64) -> (r: KdeDataPoint)
        ensures
            r == (KdeDataPoint { x_val, density }),
    {
        KdeDataPoint { x_val, density }
    }

    pub fn x_val(&self) -> (r: u64)
        ensures
            r == self.x_val,
    {
        self.x_val
    }

    pub fn density(&self) -> (r: u64)
        ensures
            r == self.density,
    {
        self.density
    }
}

/// A smoothed density curve: the estimated points in grid order.
pub struct KdeDataSet {
    pub points: Vec<KdeDataPoint>,
}

impl KdeDataSet {
    pub fn new() -> (r: KdeDataSet)
        ensures
            r.points@ =~= Seq::<KdeDataPoint>::empty(),
    {
        KdeDataSet { points: Vec::new() }
    }

    pub fn push(&mut self, x_val: u64, density: u64)
        ensures
            final(self).points@ == old(self).points@.push((KdeDataPoint { x_val, density })),
    {
        self.points.push(KdeDataPoint::new(x_val, density));
    }

    pub fn points(&self) -> (r: &Vec<KdeDataPoint>)
        ensures
            r == self.points,
    {
        &self.points
    }
}

/// The running least x over the observed points; a later x replaces
/// the current least only when strictly below it.
pub open spec fn xmin_of(s: Seq<(u32, u64)>) -> Option<u32>
    decreases s.len(),
{
    if s.len() == 0 {
        None
    } else {
        match xmin_of(s.drop_last()) {
            None => Some(s.last().0),
            Some(m) => if s.last().0 < m {
                Some(s.last().0)
            } else {
                Some(m)
            },
        }
    }
}

/// The running greatest x over the observed points.
pub open spec fn xmax_of(s: Seq<(u32, u64)>) -> Option<u32>
    decreases s.len(),
{
    if s.len() == 0 {
        None
    } else {
        match xmax_of(s.drop_last()) {
            None => Some(s.last().0),
            Some(m) => if s.last().0 > m {
                Some(s.last().0)
            } else {
                Some(m)
            },
        }
    }
}

/// The running least x of a nonempty sequence of points is its global
/// least observed x, and the running greatest its global greatest.
pub proof fn lemma_x_extremes_global(s: Seq<(u32, u64)>)
    requires
        s.len() > 0,
    ensures
        xmin_of(s) is Some,
        xmax_of(s) is Some,
        forall|k: int| 0 <= k < s.len() ==> xmin_of(s)->Some_0 <= (#[trigger] s[k]).0,
        forall|k: int| 0 <= k < s.len() ==> xmax_of(s)->Some_0 >= (#[trigger] s[k]).0,
        exists|k: int| 0 <= k < s.len() && (#[trigger] s[k]).0 == xmin_of(s)->Some_0,
        exists|k: int| 0 <= k < s.len() && (#[trigger] s[k]).0 == xmax_of(s)->Some_0,
    decreases s.len(),
{
    if s.len() == 1 {
        assert(s[0] == s.last());
    } else {
        lemma_x_extremes_global(s.drop_last());
        assert forall|k: int| 0 <= k < s.len() implies xmin_of(s)->Some_0 <= (#[trigger] s[k]).0
            && xmax_of(s)->Some_0 >= (#[trigger] s[k]).0 by {
            if k < s.len() - 1 {
                assert(s.drop_last()[k] == s[k]);
            } else {
                assert(s[k] == s.last());
            }
        }
        let jmin = choose|k: int|
            0 <= k < s.drop_last().len() && (#[trigger] s.drop_last()[k]).0 == xmin_of(
                s.drop_last(),
            )->Some_0;
        let jmax = choose|k: int|
            0 <= k < s.drop_last().len() && (#[trigger] s.drop_last()[k]).0 == xmax_of(
                s.drop_last(),
            )->Some_0;
        if s.last().0 < xmin_of(s.drop_last())->Some_0 {
            assert((s[s.len() - 1]).0 == xmin_of(s)->Some_0);
        } else {
            assert((s[jmin]).0 == xmin_of(s)->Some_0);
        }
        if s.last().0 > xmax_of(s.drop_last())->Some_0 {
            assert((s[s.len() - 1]).0 == xmax_of(s)->Some_0);
        } else {
            assert((s[jmax]).0 == xmax_of(s)->Some_0);
        }
    }
}

/// A minimum updated by one observation.
pub open spec fn upd_min(o: Option<u32>, x: u32) -> Option<u32> {
    match o {
        None => Some(x),
        Some(m) => if x < m {
            Some(x)
        } else {
            Some(m)
        },
    }
}

/// A maximum updated by one observation.
pub open spec fn upd_max(o: Option<u32>, x: u32) -> Option<u32> {
    match o {
        None => Some(x),
        Some(m) => if x > m {
            Some(x)
        } else {
            Some(m)
        },
    }
}

/// One step of the slope numerator: sn + (x - xbar) * (y - ybar).
pub open spec fn bv_sn_next(sn: u64, xf: u64, y: u64, xbar: u64, ybar: u64) -> u64 {
    add_bits(sn, mul_bits(sub_bits(xf, xbar), sub_bits(y, ybar)))
}

pub open spec fn bv_sn_ok(sn: u64, xf: u64, y: u64, xbar: u64, ybar: u64) -> bool {
    &&& !is_nan_bits(sub_bits(xf, xbar))
    &&& !is_nan_bits(sub_bits(y, ybar))
    &&& !is_nan_bits(mul_bits(sub_bits(xf, xbar), sub_bits(y, ybar)))
    &&& !is_nan_bits(bv_sn_next(sn, xf, y, xbar, ybar))
}

/// One step of the slope denominator: sd + (x - xbar)^2.
pub open spec fn bv_sd_next(sd: u64, xf: u64, xbar: u64) -> u64 {
    add_bits(sd, mul_bits(sub_bits(xf, xbar), sub_bits(xf, xbar)))
}

pub open spec fn bv_sd_ok(sd: u64, xf: u64, xbar: u64) -> bool {
    &&& !is_nan_bits(sub_bits(xf, xbar))
    &&& !is_nan_bits(mul_bits(sub_bits(xf, xbar), sub_bits(xf, xbar)))
    &&& !is_nan_bits(bv_sd_next(sd, xf, xbar))
}

/// The fitted line evaluated at x: slope * x + intercept, with
/// slope = sn / sd and intercept = ybar - slope * xbar.
pub open spec fn line_at(sn: u64, sd: u64, xbar: u64, ybar: u64, xf: u64) -> u64 {
    add_bits(
        mul_bits(div_bits(sn, sd), xf),
        sub_bits(ybar, mul_bits(div_bits(sn, sd), xbar)),
    )
}

pub open spec fn line_ok(sn: u64, sd: u64, xbar: u64, ybar: u64, xf: u64) -> bool {
    &&& !is_nan_bits(div_bits(sn, sd))
    &&& !is_nan_bits(mul_bits(div_bits(sn, sd), xbar))
    &&& !is_nan_bits(sub_bits(ybar, mul_bits(div_bits(sn, sd), xbar)))
    &&& !is_nan_bits(mul_bits(div_bits(sn, sd), xf))
    &&& !is_nan_bits(line_at(sn, sd, xbar, ybar, xf))
}

/// Bivariate analysis of one series: an online re-centering least
/// squares accumulator. After each point the running means are
/// recomputed, the slope numerator and denominator are advanced by the
/// re-centered products, and the fitted line is evaluated at the least
/// and greatest observed x. The streaming recurrence is kept exactly
/// as stated; it is not normalized to the closed-form fit over the
/// finished sample.
pub struct BvAnalysis {
    pub sigma_x: u64,
    pub sigma_y: u64,
    pub n: u32,
    pub x_bar: u64,
    pub y_bar: u64,
    pub sn: u64,
    pub sd: u64,
    pub x_min: Option<u32>,
    pub x_max: Option<u32>,
    pub y_min: u64,
    pub y_max: u64,
    pub obs: Ghost<Seq<(u32, u64)>>,
}

impl BvAnalysis {
    /// The count and the x extremes are the canonical folds of the
    /// observed points.
    pub open spec fn wf(self) -> bool {
        &&& self.n == self.obs@.len()
        &&& self.x_min == xmin_of(self.obs@)
        &&& self.x_max == xmax_of(self.obs@)
    }

    pub fn new() -> (r: BvAnalysis)
        ensures
            r.wf(),
            r.obs@ =~= Seq::<(u32, u64)>::empty(),
            r.n == 0,
    {
        BvAnalysis {
            sigma_x: 0,
            sigma_y: 0,
            n: 0,
            x_bar: 0,
            y_bar: 0,
            sn: 0,
            sd: 0,
            x_min: None,
            x_max: None,
            y_min: 0,
            y_max: 0,
            obs: Ghost(Seq::empty()),
        }
    }

    /// Accumulate one point: x is the iteration count, y the
    /// measurement. A series cannot hold more than u32::MAX points; a
    /// point beyond that limit is not accumulated.
    pub fn add(&mut self, x: u32, y: u64)
        requires
            old(self).wf(),
        ensures
            final(self).wf(),
            old(self).n == u32::MAX ==> *final(self) == *old(self),
            old(self).n < u32::MAX ==> {
                &&& final(self).obs@ == old(self).obs@.push((x, y))
                &&& final(self).n == old(self).n + 1
                &&& final(self).x_min == upd_min(old(self).x_min, x)
                &&& final(self).x_max == upd_max(old(self).x_max, x)
                &&& rounds_as(final(self).sigma_x, add_bits(old(self).sigma_x, f64_of_u32(x)))
                &&& rounds_as(final(self).sigma_y, add_bits(old(self).sigma_y, y))
                &&& rounds_as(
                    final(self).x_bar,
                    div_bits(final(self).sigma_x, f64_of_u32(final(self).n)),
                )
                &&& rounds_as(
                    final(self).y_bar,
                    div_bits(final(self).sigma_y, f64_of_u32(final(self).n)),
                )
                &&& (bv_sn_ok(old(self).sn, f64_of_u32(x), y, final(self).x_bar, final(self).y_bar)
                    ==> final(self).sn == bv_sn_next(
                    old(self).sn,
                    f64_of_u32(x),
                    y,
                    final(self).x_bar,
                    final(self).y_bar,
                ))
                &&& (bv_sd_ok(old(self).sd, f64_of_u32(x), final(self).x_bar) ==> final(self).sd
                    == bv_sd_next(old(self).sd, f64_of_u32(x), final(self).x_bar))
                &&& (line_ok(
                    final(self).sn,
                    final(self).sd,
                    final(self).x_bar,
                    final(self).y_bar,
                    f64_of_u32(final(self).x_min->Some_0),
                ) ==> final(self).y_min == line_at(
                    final(self).sn,
                    final(self).sd,
                    final(self).x_bar,
                    final(self).y_bar,
                    f64_of_u32(final(self).x_min->Some_0),
                ))
                &&& (line_ok(
                    final(self).sn,
                    final(self).sd,
                    final(self).x_bar,
                    final(self).y_bar,
                    f64_of_u32(final(self).x_max->Some_0),
                ) ==> final(self).y_max == line_at(
                    final(self).sn,
                    final(self).sd,
                    final(self).x_bar,
                    final(self).y_bar,
                    f64_of_u32(final(self).x_max->Some_0),
                ))
            },
    {
        if self.n == u32::MAX {
            return ;
        }
        let ghost pre = self.obs@;
        proof {
            self.obs@ = self.obs@.push((x, y));
            assert(self.obs@.drop_last() =~= pre);
        }
        self.x_min = match self.x_min {
            None => Some(x),
            Some(xm) => if x < xm {
                Some(x)
            } else {
                Some(xm)
            },
        };
        self.x_max = match self.x_max {
            None => Some(x),
            Some(xm) => if x > xm {
                Some(x)
            } else {
                Some(xm)
            },
        };
        let xf = f64_from_u32(x);
        self.sigma_x = add_f(self.sigma_x, xf);
        self.sigma_y = add_f(self.sigma_y, y);
        self.n = self.n + 1;
        self.x_bar = div_f(self.sigma_x, f64_from_u32(self.n));
        self.y_bar = div_f(self.sigma_y, f64_from_u32(self.n));
        let dx = sub_f(xf, self.x_bar);
        let dy = sub_f(y, self.y_bar);
        self.sn = add_f(self.sn, mul_f(dx, dy));
        self.sd = add_f(self.sd, mul_f(dx, dx));
        let slope = div_f(self.sn, self.sd);
        let y_int = sub_f(self.y_bar, mul_f(slope, self.x_bar));
        let xmin_now = match self.x_min {
            Some(m) => m,
            None => {
                proof {
                    assert(false);
                }
                0
            },
        };
        let xmax_now = match self.x_max {
            Some(m) => m,
            None => {
                proof {
                    assert(false);
                }
                0
            },
        };
        self.y_min = add_f(mul_f(slope, f64_from_u32(xmin_now)), y_int);
        self.y_max = add_f(mul_f(slope, f64_from_u32(xmax_now)), y_int);
    }

    /// The two-point trend segment: the fitted line evaluated at the
    /// least and greatest observed x.
    pub fn trendline(&self) -> (r: TrendLine)
        requires
            self.wf(),
            self.n > 0,
        ensures
            Some(r.x_start) == self.x_min,
            Some(r.x_end) == self.x_max,
            r.y_start == self.y_min,
            r.y_end == self.y_max,
    {
        proof {
            lemma_x_extremes_global(self.obs@);
        }
        let xs = match self.x_min {
            Some(m) => m,
            None => {
                proof {
                    assert(false);
                }
                0
            },
        };
        let xe = match self.x_max {
            Some(m) => m,
            None => {
                proof {
                    assert(false);
                }
                0
            },
        };
        TrendLine::new(xs, self.y_min, xe, self.y_max)
    }
}

/// The trend line's x endpoints are exactly the least and the
/// greatest x ever accumulated into the analysis.
pub proof fn lemma_trendline_spans_observed_x(b: BvAnalysis, t: TrendLine)
    requires
        b.wf(),
        b.obs@.len() > 0,
        Some(t.x_start) == b.x_min,
        Some(t.x_end) == b.x_max,
    ensures
        forall|k: int| 0 <= k < b.obs@.len() ==> t.x_start <= (#[trigger] b.obs@[k]).0,
        forall|k: int| 0 <= k < b.obs@.len() ==> t.x_end >= (#[trigger] b.obs@[k]).0,
        exists|k: int| 0 <= k < b.obs@.len() && (#[trigger] b.obs@[k]).0 == t.x_start,
        exists|k: int| 0 <= k < b.obs@.len() && (#[trigger] b.obs@[k]).0 == t.x_end,
{
    lemma_x_extremes_global(b.obs@);
}

/// A two-point line segment: the regression line evaluated at the
/// series' least and greatest observed iteration count.
#[derive(Debug, Clone, Copy, PartialEq, Eq, Structural)]
pub struct TrendLine {
    pub x_start: u32,
    pub y_start: u64,
    pub x_end: u32,
    pub y_end: u64,
}

impl TrendLine {
    pub fn new(x_start: u32, y_start: u64, x_end: u32, y_end: u64) -> (r: TrendLine)
        ensures
            r == (TrendLine { x_start, y_start, x_end, y_end }),
    {
        TrendLine { x_start, y_start, x_end, y_end }
    }

    pub fn x_start(&self) -> (r: u32)
        ensures
            r == self.x_start,
    {
        self.x_start
    }

    pub fn y_start(&self) -> (r: u64)
        ensures
            r == self.y_start,
    {
        self.y_start
    }

    pub fn x_end(&self) -> (r: u32)
        ensures
            r == self.x_end,
    {
        self.x_end
    }

    pub fn y_end(&self) -> (r: u64)
        ensures
            r == self.y_end,
    {
        self.y_end
    }
}


} // verus!
