//! Metrics derived from a region's series: cumulative totals reconstructed
//! from the newest observation backwards, deltas between consecutive
//! observations, and rolling averages.
//!
//! Each derived value is the exact ratio `numerator / denominator`.
use vstd::prelude::*;
use crate::series::{ObservationPoint, RegionSeries};

verus! {

/// Which count of an observation a metric is taken over.
#[derive(Clone, Copy, Debug, PartialEq, Eq, Structural)]
pub enum Metric {
    Cases,
    Deaths,
}

/// One point of a derived series: the value `numerator / denominator` at a
/// position.
#[derive(Clone, Copy, Debug, PartialEq, Eq, Structural)]
pub struct DerivedPoint {
    pub position: i64,
    pub numerator: i128,
    pub denominator: i128,
}

pub open spec fn metric_of(p: ObservationPoint, m: Metric) -> int {
    match m {
        Metric::Cases => p.cases as int,
        Metric::Deaths => p.deaths as int,
    }
}

/// The sum of the metric over the points `lo .. hi` of `s`.
pub open spec fn range_sum(s: Seq<ObservationPoint>, m: Metric, lo: int, hi: int) -> int
    decreases hi - lo,
{
    if hi <= lo {
        0
    } else {
        range_sum(s, m, lo, hi - 1) + metric_of(s[hi - 1], m)
    }
}

/// The total at point `i`, summed from that point through the newest one.
pub open spec fn cumulative_value(s: Seq<ObservationPoint>, m: Metric, i: int) -> int {
    range_sum(s, m, i, s.len() as int)
}

/// The change of the cumulative total between each pair of consecutive
/// points, from the second point on.
pub open spec fn delta_values(s: Seq<ObservationPoint>, m: Metric) -> Seq<int> {
    Seq::new(
        (if s.len() == 0 { 0 } else { s.len() - 1 }) as nat,
        |k: int| cumulative_value(s, m, k + 1) - cumulative_value(s, m, k),
    )
}

pub open spec fn int_sum(v: Seq<int>) -> int
    decreases v.len(),
{
    if v.len() == 0 {
        0
    } else {
        int_sum(v.drop_last()) + v.last()
    }
}

/// Largest magnitude of a numerator produced by the engine.
pub open spec fn numerator_bound() -> int {
    0x10000000000000000000000000
}

/// A point as the engine produces it: a positive denominator that fits in
/// 64 bits and a numerator within `numerator_bound`.
pub open spec fn is_engine_point(p: DerivedPoint) -> bool {
    &&& -numerator_bound() <= p.numerator <= numerator_bound()
    &&& 1 <= p.denominator <= u64::MAX
}

proof fn lemma_range_sum_bound(s: Seq<ObservationPoint>, m: Metric, lo: int, hi: int)
    requires
        lo <= hi,
    ensures
        -(hi - lo) * 0x80000000 <= range_sum(s, m, lo, hi) <= (hi - lo) * 0x80000000,
    decreases hi - lo,
{
    if lo < hi {
        lemma_range_sum_bound(s, m, lo, hi - 1);
    }
}

proof fn lemma_range_sum_front(s: Seq<ObservationPoint>, m: Metric, lo: int, hi: int)
    requires
        lo < hi,
    ensures
        range_sum(s, m, lo, hi) == metric_of(s[lo], m) + range_sum(s, m, lo + 1, hi),
    decreases hi - lo,
{
    if lo + 1 < hi {
        lemma_range_sum_front(s, m, lo, hi - 1);
    } else {
        assert(range_sum(s, m, lo, lo) == 0);
        assert(range_sum(s, m, lo + 1, hi) == 0);
    }
}

proof fn lemma_delta_prefix_sum(s: Seq<ObservationPoint>, m: Metric, k: int)
    requires
        s.len() >= 1,
        0 <= k <= s.len() - 1,
    ensures
        int_sum(delta_values(s, m).subrange(0, k)) == cumulative_value(s, m, k) - cumulative_value(s, m, 0),
    decreases k,
{
    let d = delta_values(s, m);
    if k == 0 {
        assert(d.subrange(0, 0) =~= Seq::<int>::empty());
    } else {
        lemma_delta_prefix_sum(s, m, k - 1);
        assert(d.subrange(0, k).drop_last() =~= d.subrange(0, k - 1));
    }
}

/// The deltas between consecutive points add up to the cumulative total at
/// the last point minus the cumulative total at the first.
pub proof fn lemma_delta_telescopes(s: Seq<ObservationPoint>, m: Metric)
    requires
        s.len() >= 1,
    ensures
        delta_values(s, m).len() == s.len() - 1,
        int_sum(delta_values(s, m)) == cumulative_value(s, m, s.len() - 1) - cumulative_value(s, m, 0),
{
    lemma_delta_prefix_sum(s, m, s.len() - 1);
    assert(delta_values(s, m).subrange(0, s.len() - 1) =~= delta_values(s, m));
}

fn metric_value(p: &ObservationPoint, m: Metric) -> (r: i32)
    ensures
        r == metric_of(*p, m),
{
    match m {
        Metric::Cases => p.cases,
        Metric::Deaths => p.deaths,
    }
}

/// The cumulative total at every point, each point's total running from it
/// through the newest point (the source reports only per-period counts).
pub fn cumulative_from_end(series: &RegionSeries, metric: Metric) -> (r: Vec<DerivedPoint>)
    ensures
        r.len() == series.points.len(),
        forall|i: int| 0 <= i < r.len() ==> {
            &&& (#[trigger] r[i]).position == series.points[i].position
            &&& r[i].numerator == cumulative_value(series.points@, metric, i)
            &&& r[i].denominator == 1
            &&& is_engine_point(r[i])
        },
{
    let points = &series.points;
    let n = points.len();
    let mut out = vec![DerivedPoint { position: 0, numerator: 0, denominator: 1 }; n];
    let mut running: i128 = 0;
    let mut i: usize = n;
    while i > 0
        invariant
            i <= n,
            n == points.len(),
            out.len() == n,
            running == range_sum(points@, metric, i as int, n as int),
            forall|k: int| i <= k < n ==> {
                &&& (#[trigger] out[k]).position == points[k].position
                &&& out[k].numerator == cumulative_value(points@, metric, k)
                &&& out[k].denominator == 1
                &&& is_engine_point(out[k])
            },
        decreases i,
    {
        i = i - 1;
        proof {
            lemma_range_sum_front(points@, metric, i as int, n as int);
            lemma_range_sum_bound(points@, metric, i as int, n as int);
        }
        running = running + metric_value(&points[i], metric) as i128;
        out[i] = DerivedPoint { position: points[i].position, numerator: running, denominator: 1 };
    }
    out
}

/// The change of the cumulative total from each point to the next, placed at
/// the later point; there is no value for the first point. Elapsed time
/// between the points plays no part.
pub fn daily_delta(series: &RegionSeries, metric: Metric) -> (r: Vec<DerivedPoint>)
    ensures
        r.len() == delta_values(series.points@, metric).len(),
        forall|k: int| 0 <= k < r.len() ==> {
            &&& (#[trigger] r[k]).position == series.points[k + 1].position
            &&& r[k].numerator == delta_values(series.points@, metric)[k]
            &&& r[k].denominator == 1
            &&& is_engine_point(r[k])
        },
{
    let cumulative = cumulative_from_end(series, metric);
    let mut out: Vec<DerivedPoint> = Vec::new();
    let n = cumulative.len();
    if n == 0 {
        return out;
    }
    let mut k: usize = 1;
    while k < n
        invariant
            1 <= k <= n,
            n == cumulative.len(),
            n == series.points.len(),
            out.len() == k - 1,
            forall|i: int| 0 <= i < n ==> {
                &&& (#[trigger] cumulative[i]).position == series.points[i].position
                &&& cumulative[i].numerator == cumulative_value(series.points@, metric, i)
                &&& is_engine_point(cumulative[i])
            },
            forall|j: int| 0 <= j < out.len() ==> {
                &&& (#[trigger] out[j]).position == series.points[j + 1].position
                &&& out[j].numerator == delta_values(series.points@, metric)[j]
                &&& out[j].denominator == 1
                &&& is_engine_point(out[j])
            },
        decreases n - k,
    {
        proof {
            lemma_range_sum_bound(series.points@, metric, k as int, n as int);
            lemma_range_sum_bound(series.points@, metric, k as int - 1, n as int);
        }
        let d = cumulative[k].numerator - cumulative[k - 1].numerator;
        out.push(DerivedPoint { position: cumulative[k].position, numerator: d, denominator: 1 });
        k = k + 1;
    }
    out
}

/// The mean of the metric over each run of `window` consecutive points,
/// placed at the last point of the run. Only complete runs count: a series
/// shorter than the window, or a window of zero points, gives no points.
pub fn rolling_average(series: &RegionSeries, metric: Metric, window: usize) -> (r: Vec<DerivedPoint>)
    ensures
        window == 0 || series.points.len() < window ==> r.len() == 0,
        window >= 1 && series.points.len() >= window ==> r.len() == series.points.len() - window + 1,
        forall|k: int| 0 <= k < r.len() ==> {
            &&& (#[trigger] r[k]).position == series.points[k + window - 1].position
            &&& r[k].numerator == range_sum(series.points@, metric, k, k + window)
            &&& r[k].denominator == window
            &&& is_engine_point(r[k])
        },
{
    let points = &series.points;
    let n = points.len();
    let mut out: Vec<DerivedPoint> = Vec::new();
    if window == 0 || n < window {
        return out;
    }
    let mut k: usize = 0;
    while k <= n - window
        invariant
            1 <= window <= n,
            n == points.len(),
            k <= n - window + 1,
            out.len() == k,
            forall|j: int| 0 <= j < out.len() ==> {
                &&& (#[trigger] out[j]).position == points[j + window - 1].position
                &&& out[j].numerator == range_sum(points@, metric, j, j + window)
                &&& out[j].denominator == window
                &&& is_engine_point(out[j])
            },
        decreases n - window + 1 - k,
    {
        let mut sum: i128 = 0;
        let mut j: usize = k;
        while j < k + window
            invariant
                k <= j <= k + window,
                k + window <= n,
                n == points.len(),
                sum == range_sum(points@, metric, k as int, j as int),
            decreases k + window - j,
        {
            proof {
                lemma_range_sum_bound(points@, metric, k as int, j as int + 1);
            }
            sum = sum + metric_value(&points[j], metric) as i128;
            j = j + 1;
        }
        proof {
            lemma_range_sum_bound(points@, metric, k as int, k + window);
        }
        out.push(
            DerivedPoint { position: points[k + window - 1].position, numerator: sum, denominator: window as i128 },
        );
        k = k + 1;
    }
    out
}

} // verus!
