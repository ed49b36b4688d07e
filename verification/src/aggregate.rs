use vstd::prelude::*;
use vstd::arithmetic::div_mod::{
    lemma_basic_div, lemma_div_non_zero, lemma_fundamental_div_mod,
    lemma_mod_division_less_than_divisor,
};
use vstd::arithmetic::mul::{
    lemma_mul_inequality, lemma_mul_nonnegative, lemma_mul_strict_inequality,
    lemma_mul_strictly_positive,
};
use crate::errors::RunError;
use crate::series::RunSeries;
use crate::series::Sample;

verus! {

/// One point of a speed series: the elapsed time at a window's end,
/// and the window's rate as an exact ratio — the metric's change
/// across the window over the window's elapsed milliseconds. The rate
/// in metric units per second is `delta_metric * 1000 / delta_ms`;
/// that final division is the plotting collaborator's, so the library
/// never rounds.
#[derive(Clone, Copy, PartialEq, Eq, Structural, Debug)]
pub struct SpeedPoint {
    pub time_ms: u64,
    pub delta_metric: i128,
    pub delta_ms: u64,
}

/// The leading point every speed series starts with: time zero, rate
/// zero (the ratio 0 / 1).
pub open spec fn lead_point() -> SpeedPoint {
    SpeedPoint { time_ms: 0, delta_metric: 0, delta_ms: 1 }
}

/// The resampled rate series of one run.
#[derive(Debug)]
pub struct SpeedSeries {
    pub points: Vec<SpeedPoint>,
}

impl SpeedSeries {
    /// Every point's time span is positive, so every ratio is defined.
    pub open spec fn wf(self) -> bool {
        forall|i: int| 0 <= i < self.points@.len() ==> (#[trigger] self.points@[i]).delta_ms > 0
    }
}

/// Round-half-up of n / d, for n at least zero and d above zero.
pub open spec fn rounded_div(n: int, d: int) -> int {
    (2 * n + d) / (2 * d)
}

/// How many raw samples one resampling window spans: the run's sample
/// count scaled from its duration down to the window length, rounded,
/// and never below one.
pub open spec fn window_factor_spec(count: int, duration_ms: int, window_ms: int) -> int {
    let f = rounded_div(count * window_ms, duration_ms);
    if f < 1 {
        1
    } else {
        f
    }
}

/// Computes `window_factor_spec` exactly, carrying the scaled count in
/// a wide word so the rounding division never overflows.
pub fn window_factor(count: usize, duration_ms: u64, window_ms: u64) -> (f: u128)
    requires
        duration_ms > 0,
        2 * (count as int) * (window_ms as int) + (duration_ms as int) <= u128::MAX as int,
    ensures
        f == window_factor_spec(count as int, duration_ms as int, window_ms as int),
        f >= 1,
{
    proof {
        assert((count as int) * (window_ms as int) >= 0) by (nonlinear_arith);
        assert(2 * ((count as int) * (window_ms as int)) == 2 * (count as int) * (
        window_ms as int)) by (nonlinear_arith);
    }
    let scaled: u128 = (count as u128) * (window_ms as u128);
    let f = (2 * scaled + duration_ms as u128) / (2 * (duration_ms as u128));
    if f < 1 {
        1
    } else {
        f
    }
}

/// The j-th interior point (j counted from 1) of the resampling of
/// `samples` with a window of `f` raw samples: the change of the
/// cumulative metric across the j-th window over its time span, placed
/// at the window's ending time.
pub open spec fn interior_point(samples: Seq<Sample>, f: int, j: int) -> SpeedPoint {
    let cur = j * f;
    let prev = (j - 1) * f;
    SpeedPoint {
        time_ms: samples[cur].elapsed_ms,
        delta_metric: (samples[cur].metric_a - samples[prev].metric_a) as i128,
        delta_ms: (samples[cur].elapsed_ms - samples[prev].elapsed_ms) as u64,
    }
}

/// How many interior points the resampling of n samples with a window
/// of f raw samples emits: one per whole window after the first, none
/// when the window spans the whole run or more.
pub open spec fn interior_count(n: int, f: int) -> int {
    if (n - 1) / f >= 1 {
        (n - 1) / f - 1
    } else {
        0
    }
}

/// The speed series resampled from a non-empty run: a leading zero
/// point, then one point per whole window of `window_factor_spec` raw
/// samples. A run of a single sample has no duration to divide by and
/// degenerates to the leading point alone, as does a window that spans
/// the whole run: a degenerate-but-valid series, not an error.
pub open spec fn resample_spec(samples: Seq<Sample>, window_ms: int) -> Seq<SpeedPoint> {
    let n = samples.len() as int;
    if n < 2 {
        seq![lead_point()]
    } else {
        let f = window_factor_spec(n, samples.last().elapsed_ms as int, window_ms);
        seq![lead_point()] + Seq::new(
            interior_count(n, f) as nat,
            |t: int| interior_point(samples, f, t + 1),
        )
    }
}

/// Resamples a run's cumulative metric into a rate series: windows of
/// `window_factor` raw samples, each emitting the metric's change over
/// the window's time span at the window's ending time, behind a
/// leading zero point.
pub fn resample_rate(series: &RunSeries, window_ms: u64) -> (r: SpeedSeries)
    requires
        series.wf(),
        series.samples@.len() >= 1,
        2 * (series.samples@.len() as int) * (window_ms as int) + (u64::MAX as int)
            <= u128::MAX as int,
    ensures
        r.points@ == resample_spec(series.samples@, window_ms as int),
        r.wf(),
        r.points@.len() >= 1,
        r.points@[0] == lead_point(),
{
    let ghost samples = series.samples@;
    let mut points: Vec<SpeedPoint> = Vec::new();
    points.push(SpeedPoint { time_ms: 0, delta_metric: 0, delta_ms: 1 });
    let n = series.samples.len();
    if n < 2 {
        proof {
            assert(points@ =~= resample_spec(samples, window_ms as int));
        }
        return SpeedSeries { points };
    }
    let duration_ms = series.samples[n - 1].elapsed_ms;
    proof {
        assert(samples[0].elapsed_ms < samples[n - 1].elapsed_ms);
    }
    let f_wide = window_factor(n, duration_ms, window_ms);
    let ghost fi = window_factor_spec(n as int, duration_ms as int, window_ms as int);
    if f_wide >= n as u128 {
        proof {
            lemma_basic_div(n as int - 1, fi);
            assert(points@ =~= resample_spec(samples, window_ms as int));
        }
        return SpeedSeries { points };
    }
    let f = f_wide as usize;
    let m = (n - 1) / f;
    proof {
        lemma_fundamental_div_mod(n as int - 1, f as int);
        lemma_mod_division_less_than_divisor(n as int - 1, f as int);
        lemma_div_non_zero(n as int - 1, f as int);
    }
    let mut j: usize = 1;
    while j < m
        invariant
            series.wf(),
            samples == series.samples@,
            n == samples.len(),
            2 <= n,
            1 <= f < n,
            f == fi,
            m == (n - 1) as int / f as int,
            1 <= j <= m,
            points@ == seq![lead_point()] + Seq::new(
                (j - 1) as nat,
                |t: int| interior_point(samples, fi, t + 1),
            ),
            forall|i: int| 0 <= i < points@.len() ==> (#[trigger] points@[i]).delta_ms > 0,
        decreases m - j,
    {
        proof {
            lemma_fundamental_div_mod(n as int - 1, f as int);
            lemma_mod_division_less_than_divisor(n as int - 1, f as int);
            assert(f as int * (m as int) == m as int * f as int) by (nonlinear_arith);
            lemma_mul_inequality(j as int, m as int, f as int);
            lemma_mul_strict_inequality(j as int - 1, j as int, f as int);
            lemma_mul_nonnegative(j as int - 1, f as int);
        }
        let cur = j * f;
        let prev = (j - 1) * f;
        let e_cur = series.samples[cur].elapsed_ms;
        let e_prev = series.samples[prev].elapsed_ms;
        let a_cur = series.samples[cur].metric_a;
        let a_prev = series.samples[prev].metric_a;
        proof {
            assert(samples[prev as int].elapsed_ms < samples[cur as int].elapsed_ms);
        }
        let p = SpeedPoint {
            time_ms: e_cur,
            delta_metric: (a_cur as i128) - (a_prev as i128),
            delta_ms: e_cur - e_prev,
        };
        proof {
            assert(p == interior_point(samples, fi, j as int));
            assert(points@.push(p) =~= seq![lead_point()] + Seq::new(
                j as nat,
                |t: int| interior_point(samples, fi, t + 1),
            ));
        }
        points.push(p);
        j = j + 1;
    }
    proof {
        assert(interior_count(n as int, fi) == m - 1);
        assert(points@ =~= resample_spec(samples, window_ms as int));
    }
    SpeedSeries { points }
}

/// Exact aggregates of the readings kept after the warm-up skip: the
/// least and the greatest value, their sum, the sum of their squares,
/// and how many there are. Mean and standard deviation are functions
/// of these alone — mean is sum / count, and the sample variance is
/// (sum_sq - sum² / count) / (count - 1) — so the one lossy division
/// is left to the reporting collaborator.
#[derive(Clone, Copy, PartialEq, Eq, Structural, Debug)]
pub struct SummaryStats {
    pub min: u64,
    pub max: u64,
    pub sum: u128,
    pub sum_sq: u128,
    pub count: usize,
}

/// The least value of a sequence of readings (zero for an empty one).
pub open spec fn seq_min(s: Seq<u64>) -> int
    decreases s.len(),
{
    if s.len() == 0 {
        0
    } else if s.len() == 1 {
        s[0] as int
    } else {
        let m = seq_min(s.drop_last());
        if (s.last() as int) < m {
            s.last() as int
        } else {
            m
        }
    }
}

/// The greatest value of a sequence of readings (zero for an empty one).
pub open spec fn seq_max(s: Seq<u64>) -> int
    decreases s.len(),
{
    if s.len() == 0 {
        0
    } else if s.len() == 1 {
        s[0] as int
    } else {
        let m = seq_max(s.drop_last());
        if (s.last() as int) > m {
            s.last() as int
        } else {
            m
        }
    }
}

/// The sum of a sequence of readings.
pub open spec fn seq_sum(s: Seq<u64>) -> int
    decreases s.len(),
{
    if s.len() == 0 {
        0
    } else {
        seq_sum(s.drop_last()) + s.last()
    }
}

/// The sum of the squares of a sequence of readings.
pub open spec fn seq_sum_sq(s: Seq<u64>) -> int
    decreases s.len(),
{
    if s.len() == 0 {
        0
    } else {
        seq_sum_sq(s.drop_last()) + (s.last() as int) * (s.last() as int)
    }
}

/// Aggregates the readings after the warm-up skip. Readings come from
/// 32-bit gauges (wider values would already have failed the reading
/// conversion), which keeps the sum of squares within its word.
/// Asking to skip the whole slice (or more) is reported as
/// insufficient data, never computed as statistics of nothing.
pub fn summary(values: &Vec<u64>, warmup_skip: usize) -> (r: Result<SummaryStats, RunError>)
    requires
        forall|i: int| 0 <= i < values@.len() ==> (#[trigger] values@[i]) <= u32::MAX as u64,
    ensures
        warmup_skip >= values@.len() ==> (r matches Err(e) && e == RunError::InsufficientData),
        warmup_skip < values@.len() ==> (r matches Ok(st) && {
            let kept = values@.skip(warmup_skip as int);
            &&& st.count == kept.len()
            &&& st.min == seq_min(kept)
            &&& st.max == seq_max(kept)
            &&& st.sum == seq_sum(kept)
            &&& st.sum_sq == seq_sum_sq(kept)
        }),
{
    let n = values.len();
    if warmup_skip >= n {
        return Err(RunError::InsufficientData);
    }
    let skip = warmup_skip;
    let first = values[skip];
    proof {
        assert((first as int) * (first as int) <= (u32::MAX as int) * (u32::MAX as int))
            by (nonlinear_arith)
            requires
                0 <= first <= u32::MAX as int,
        ;
    }
    let mut min = first;
    let mut max = first;
    let mut sum: u128 = first as u128;
    let mut sum_sq: u128 = (first as u128) * (first as u128);
    proof {
        let s0 = values@.subrange(skip as int, skip as int + 1);
        assert(s0 =~= seq![values@[skip as int]]);
        assert(s0.drop_last() =~= Seq::<u64>::empty());
        assert(seq_sum(Seq::<u64>::empty()) == 0);
        assert(seq_sum_sq(Seq::<u64>::empty()) == 0);
        assert(seq_sum(s0) == first);
        assert(seq_sum_sq(s0) == (first as int) * (first as int));
    }
    let mut i: usize = skip + 1;
    while i < n
        invariant
            skip < i <= n,
            n == values@.len(),
            forall|t: int| 0 <= t < values@.len() ==> (#[trigger] values@[t]) <= u32::MAX as u64,
            min == seq_min(values@.subrange(skip as int, i as int)),
            max == seq_max(values@.subrange(skip as int, i as int)),
            sum == seq_sum(values@.subrange(skip as int, i as int)),
            sum_sq == seq_sum_sq(values@.subrange(skip as int, i as int)),
            sum <= (i - skip) * (u32::MAX as int),
            sum_sq <= (i - skip) * ((u32::MAX as int) * (u32::MAX as int)),
        decreases n - i,
    {
        let v = values[i];
        proof {
            let pre = values@.subrange(skip as int, i as int);
            let post = values@.subrange(skip as int, i as int + 1);
            assert(post.drop_last() =~= pre);
            assert(post.last() == values@[i as int]);
            assert((v as int) * (v as int) <= (u32::MAX as int) * (u32::MAX as int))
                by (nonlinear_arith)
                requires
                    0 <= v <= u32::MAX as int,
            ;
        }
        if v < min {
            min = v;
        }
        if v > max {
            max = v;
        }
        sum = sum + v as u128;
        sum_sq = sum_sq + (v as u128) * (v as u128);
        i = i + 1;
    }
    proof {
        assert(values@.subrange(skip as int, n as int) =~= values@.skip(skip as int));
    }
    Ok(SummaryStats { min, max, sum, sum_sq, count: n - skip })
}

/// A run whose ticks are perfectly periodic and whose cumulative
/// metric grows by exactly k per tick.
pub open spec fn constant_rate_series(samples: Seq<Sample>, tick_ms: u64, k: u64, a0: u64) -> bool {
    forall|j: int|
        0 <= j < samples.len() ==> {
            &&& (#[trigger] samples[j]).elapsed_ms == j * tick_ms
            &&& samples[j].metric_a == a0 + j * k
        }
}

/// Law: resampling a constant-rate run yields, beyond the leading
/// point, only points whose rate ratio equals the per-tick rate — each
/// satisfies delta_metric · tick == delta_ms · k, whatever window was
/// asked for.
pub proof fn lemma_resample_constant_rate(
    samples: Seq<Sample>,
    window_ms: u64,
    tick_ms: u64,
    k: u64,
    a0: u64,
)
    requires
        tick_ms > 0,
        samples.len() >= 1,
        constant_rate_series(samples, tick_ms, k, a0),
    ensures
        forall|j: int|
            1 <= j < resample_spec(samples, window_ms as int).len()
                ==> (#[trigger] resample_spec(samples, window_ms as int)[j]).delta_metric * (
            tick_ms as int) == (resample_spec(samples, window_ms as int)[j].delta_ms as int) * (
            k as int),
{
    let sp = resample_spec(samples, window_ms as int);
    let n = samples.len() as int;
    if n >= 2 {
        assert(samples.last().elapsed_ms == (n - 1) * tick_ms);
        lemma_mul_strictly_positive(n - 1, tick_ms as int);
        let f = window_factor_spec(n, samples.last().elapsed_ms as int, window_ms as int);
        let m = (n - 1) / f;
        lemma_fundamental_div_mod(n - 1, f);
        lemma_mod_division_less_than_divisor(n - 1, f);
        assert forall|j: int| 1 <= j < sp.len() implies (#[trigger] sp[j]).delta_metric * (
        tick_ms as int) == (sp[j].delta_ms as int) * (k as int) by {
            assert(sp[j] == interior_point(samples, f, j));
            let cur = j * f;
            let prev = (j - 1) * f;
            assert(f * m == m * f) by (nonlinear_arith);
            lemma_mul_inequality(j, m - 1, f);
            assert((m - 1) * f == m * f - f) by (nonlinear_arith);
            lemma_mul_strict_inequality(j - 1, j, f);
            lemma_mul_nonnegative(j - 1, f);
            assert(samples[cur].metric_a == a0 + cur * k);
            assert(samples[prev].metric_a == a0 + prev * k);
            assert(samples[cur].elapsed_ms == cur * tick_ms);
            assert(samples[prev].elapsed_ms == prev * tick_ms);
            assert((a0 + cur * k) - (a0 + prev * k) == f * k) by (nonlinear_arith)
                requires
                    cur == j * f,
                    prev == (j - 1) * f,
            ;
            assert(cur * tick_ms - prev * tick_ms == f * (tick_ms as int)) by (nonlinear_arith)
                requires
                    cur == j * f,
                    prev == (j - 1) * f,
            ;
            assert((f * k) * (tick_ms as int) == (f * (tick_ms as int)) * (k as int))
                by (nonlinear_arith);
        }
    }
}

} // verus!
