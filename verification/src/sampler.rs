use vstd::prelude::*;
use vstd::arithmetic::div_mod::{
    lemma_fundamental_div_mod, lemma_fundamental_div_mod_converse,
    lemma_mod_division_less_than_divisor,
};
use vstd::arithmetic::mul::{lemma_mul_inequality, lemma_mul_strict_inequality};
use crate::errors::{ExitInfo, RunError};
use crate::series::{strictly_ordered, RunSeries, Sample};

verus! {

/// What one readiness iteration decides before any probe is attempted:
/// abort the wait, or go on and probe the endpoint.
#[derive(Debug)]
pub enum ReadyGate {
    Abort(RunError),
    Probe,
}

/// The first half of one readiness iteration. A death reported by the
/// health check aborts the wait at once — even when the timeout flag
/// is already set — so a process that dies inside the readiness window
/// is reported as its own death, never as a timeout. Only a healthy
/// check with the timeout flag clear lets the caller probe.
pub fn readiness_gate(check: Result<(), RunError>, timed_out: bool) -> (d: ReadyGate)
    ensures
        check matches Err(e) ==> d == ReadyGate::Abort(e),
        check is Ok && timed_out ==> d == ReadyGate::Abort(RunError::ReadinessTimeout),
        check is Ok && !timed_out ==> d is Probe,
{
    match check {
        Err(e) => ReadyGate::Abort(e),
        Ok(()) => {
            if timed_out {
                ReadyGate::Abort(RunError::ReadinessTimeout)
            } else {
                ReadyGate::Probe
            }
        },
    }
}

/// Everything one iteration of the readiness loop observed: what the
/// non-blocking health check saw, whether the background timer had
/// already fired, and whether the probe of the endpoint succeeded.
#[derive(Debug)]
pub struct ReadyEvent {
    pub observed_exit: Option<ExitInfo>,
    pub timed_out: bool,
    pub probe_ok: bool,
}

/// The outcome of the readiness loop over a sequence of iteration
/// observations: the first iteration that sees a death, an elapsed
/// timeout, or an answered probe decides; `None` when no iteration
/// decided (the real loop runs until one does, since the timer fires).
pub open spec fn readiness_outcome(events: Seq<ReadyEvent>) -> Option<Result<(), RunError>>
    decreases events.len(),
{
    if events.len() == 0 {
        None
    } else if events[0].observed_exit is Some {
        Some(Err(RunError::ProcessDied(events[0].observed_exit.unwrap())))
    } else if events[0].timed_out {
        Some(Err(RunError::ReadinessTimeout))
    } else if events[0].probe_ok {
        Some(Ok(()))
    } else {
        readiness_outcome(events.drop_first())
    }
}

/// The readiness loop itself, over recorded iteration observations:
/// polls until an iteration decides, retrying unanswered probes.
pub fn wait_until_ready(events: &Vec<ReadyEvent>) -> (r: Option<Result<(), RunError>>)
    ensures
        r == readiness_outcome(events@),
{
    let mut i: usize = 0;
    proof {
        assert(events@.skip(0) =~= events@);
    }
    while i < events.len()
        invariant
            i <= events@.len(),
            readiness_outcome(events@) == readiness_outcome(events@.skip(i as int)),
        decreases events@.len() - i,
    {
        proof {
            assert(events@.skip(i as int)[0] == events@[i as int]);
            assert(events@.skip(i as int).drop_first() =~= events@.skip(i as int + 1));
        }
        let ev = &events[i];
        match &ev.observed_exit {
            Some(info) => {
                return Some(Err(RunError::ProcessDied(info.clone())));
            },
            None => {},
        }
        if ev.timed_out {
            return Some(Err(RunError::ReadinessTimeout));
        }
        if ev.probe_ok {
            return Some(Ok(()));
        }
        i = i + 1;
    }
    None
}

/// Everything one tick of the collection loop observed: the elapsed
/// time at the top of the iteration, what the health check saw, and
/// the two metric reads (`None` where a read failed).
#[derive(Debug)]
pub struct TickEvent {
    pub elapsed_ms: u64,
    pub observed_exit: Option<ExitInfo>,
    pub metric_a: Option<u64>,
    pub metric_b: Option<u64>,
}

/// The sample a healthy tick records.
pub open spec fn tick_sample(ev: TickEvent) -> Sample {
    Sample {
        elapsed_ms: ev.elapsed_ms,
        metric_a: ev.metric_a.unwrap(),
        metric_b: ev.metric_b.unwrap(),
    }
}

/// The outcome of the collection loop over a sequence of tick
/// observations with the given wall-clock budget: ticks are recorded
/// until one starts at or past the budget; a death aborts the run with
/// the process's exit record, and a failed read aborts it — no silent
/// gaps.
pub open spec fn collect_outcome(events: Seq<TickEvent>, duration_ms: u64) -> Result<
    Seq<Sample>,
    RunError,
>
    decreases events.len(),
{
    if events.len() == 0 {
        Ok(Seq::empty())
    } else {
        let ev = events[0];
        if ev.elapsed_ms >= duration_ms {
            Ok(Seq::empty())
        } else if ev.observed_exit is Some {
            Err(RunError::ProcessDied(ev.observed_exit.unwrap()))
        } else if ev.metric_a is None || ev.metric_b is None {
            Err(RunError::MetricReadFailure)
        } else {
            match collect_outcome(events.drop_first(), duration_ms) {
                Ok(rest) => Ok(seq![tick_sample(ev)] + rest),
                Err(e) => Err(e),
            }
        }
    }
}

/// The collection loop itself, over recorded tick observations. The
/// ticks' elapsed times are strictly increasing, as read off a
/// monotone clock with a positive sleep between reads.
pub fn collect(events: &Vec<TickEvent>, duration_ms: u64) -> (r: Result<RunSeries, RunError>)
    requires
        forall|i: int, j: int|
            0 <= i < j < events@.len()
                ==> #[trigger] events@[i].elapsed_ms < #[trigger] events@[j].elapsed_ms,
    ensures
        match r {
            Ok(series) => collect_outcome(events@, duration_ms) == Ok::<_, RunError>(
                series.samples@,
            ) && series.wf(),
            Err(e) => collect_outcome(events@, duration_ms) == Err::<Seq<Sample>, _>(e),
        },
        events@.len() > 0 && events@[0].elapsed_ms < duration_ms && r is Ok
            ==> r.unwrap().samples@.len() >= 1,
{
    let mut series = RunSeries::new();
    let mut i: usize = 0;
    proof {
        assert(events@.skip(0) =~= events@);
        let ghost o = collect_outcome(events@, duration_ms);
        if o is Ok {
            assert(series.samples@ + o.unwrap() =~= o.unwrap());
        }
    }
    while i < events.len()
        invariant
            i <= events@.len(),
            series.wf(),
            series.samples@.len() == i,
            forall|k: int| 0 <= k < i ==> series.samples@[k] == tick_sample(#[trigger] events@[k]),
            forall|a: int, b: int|
                0 <= a < b < events@.len()
                    ==> #[trigger] events@[a].elapsed_ms < #[trigger] events@[b].elapsed_ms,
            match collect_outcome(events@.skip(i as int), duration_ms) {
                Ok(rest) => collect_outcome(events@, duration_ms) == Ok::<_, RunError>(
                    series.samples@ + rest,
                ),
                Err(e) => collect_outcome(events@, duration_ms) == Err::<Seq<Sample>, _>(e),
            },
        decreases events@.len() - i,
    {
        proof {
            assert(events@.skip(i as int)[0] == events@[i as int]);
            assert(events@.skip(i as int).drop_first() =~= events@.skip(i as int + 1));
        }
        let ev = &events[i];
        if ev.elapsed_ms >= duration_ms {
            proof {
                assert(series.samples@ + Seq::<Sample>::empty() =~= series.samples@);
            }
            return Ok(series);
        }
        match &ev.observed_exit {
            Some(info) => {
                return Err(RunError::ProcessDied(info.clone()));
            },
            None => {},
        }
        let a = match ev.metric_a {
            Some(a) => a,
            None => {
                return Err(RunError::MetricReadFailure);
            },
        };
        let b = match ev.metric_b {
            Some(b) => b,
            None => {
                return Err(RunError::MetricReadFailure);
            },
        };
        let s = Sample { elapsed_ms: ev.elapsed_ms, metric_a: a, metric_b: b };
        proof {
            assert(s == tick_sample(events@[i as int]));
            if i > 0 {
                assert(series.samples@.last() == tick_sample(events@[i as int - 1]));
            }
        }
        let ghost prev = series.samples@;
        series.push(s);
        proof {
            let ghost tail = collect_outcome(events@.skip(i as int + 1), duration_ms);
            if tail is Ok {
                assert(series.samples@ + tail.unwrap() =~= prev + (seq![s] + tail.unwrap()));
            }
        }
        i = i + 1;
    }
    proof {
        assert(events@.skip(i as int) =~= Seq::<TickEvent>::empty());
        assert(series.samples@ + Seq::<Sample>::empty() =~= series.samples@);
    }
    Ok(series)
}

/// The number of ticks an ideally scheduled loop records: one at each
/// multiple of the interval below the duration, so the ceiling of
/// duration / interval.
pub open spec fn ideal_tick_count(duration_ms: u64, interval_ms: u64) -> int {
    (duration_ms + interval_ms - 1) / (interval_ms as int)
}

/// Ticks scheduled with no jitter, numbered from `offset`: tick j
/// starts exactly at elapsed (offset + j) · interval, the process
/// stays healthy, and every read is answered.
pub open spec fn ideal_ticks(events: Seq<TickEvent>, interval_ms: u64, offset: int) -> bool {
    forall|j: int|
        0 <= j < events.len() ==> {
            &&& (#[trigger] events[j]).elapsed_ms == (offset + j) * interval_ms
            &&& events[j].observed_exit is None
            &&& events[j].metric_a is Some
            &&& events[j].metric_b is Some
        }
}

/// A tick count `m` has spent the whole budget (`m` whole intervals
/// reach the duration) exactly when it is at least the ideal count.
proof fn lemma_budget_spent(d: int, i: int, m: int)
    requires
        0 < i,
        0 < d,
        0 <= m,
    ensures
        m * i >= d <==> m >= (d + i - 1) / i,
{
    let ceil = (d + i - 1) / i;
    lemma_fundamental_div_mod(d + i - 1, i);
    lemma_mod_division_less_than_divisor(d + i - 1, i);
    assert(i * ceil >= d);
    assert(i * ceil <= d + i - 1);
    if m >= ceil {
        lemma_mul_inequality(ceil, m, i);
    }
    if m < ceil {
        lemma_mul_inequality(m, ceil - 1, i);
        assert((ceil - 1) * i == ceil * i - i) by (nonlinear_arith);
        assert(m * i < d);
    }
}

/// An ideally scheduled, healthy collection records exactly the ticks
/// that start before the duration is spent: numbered from `offset`,
/// that is `ideal_tick_count - offset` further ticks (none when the
/// budget is already spent), each recording its tick's sample.
pub proof fn lemma_collect_ideal(
    events: Seq<TickEvent>,
    duration_ms: u64,
    interval_ms: u64,
    offset: int,
)
    requires
        0 < interval_ms,
        0 < duration_ms,
        0 <= offset,
        ideal_ticks(events, interval_ms, offset),
        offset + events.len() >= ideal_tick_count(duration_ms, interval_ms),
    ensures
        collect_outcome(events, duration_ms) matches Ok(samples) && {
            let rest = if offset < ideal_tick_count(duration_ms, interval_ms) {
                ideal_tick_count(duration_ms, interval_ms) - offset
            } else {
                0
            };
            &&& samples.len() == rest
            &&& forall|k: int| 0 <= k < rest ==> samples[k] == tick_sample(events[k])
        },
    decreases events.len(),
{
    let d = duration_ms as int;
    let i = interval_ms as int;
    let ceil = ideal_tick_count(duration_ms, interval_ms);
    if events.len() == 0 {
        lemma_budget_spent(d, i, offset);
    } else {
        let ev = events[0];
        assert(ev.elapsed_ms == offset * i);
        lemma_budget_spent(d, i, offset);
        if ev.elapsed_ms >= duration_ms {
            assert(offset >= ceil);
        } else {
            assert(offset < ceil);
            assert(ideal_ticks(events.drop_first(), interval_ms, offset + 1)) by {
                assert forall|j: int| 0 <= j < events.drop_first().len() implies {
                    &&& (#[trigger] events.drop_first()[j]).elapsed_ms == (offset + 1 + j)
                        * interval_ms
                    &&& events.drop_first()[j].observed_exit is None
                    &&& events.drop_first()[j].metric_a is Some
                    &&& events.drop_first()[j].metric_b is Some
                } by {
                    assert(events.drop_first()[j] == events[j + 1]);
                    assert(events[j + 1].elapsed_ms == (offset + j + 1) * interval_ms);
                }
            }
            lemma_collect_ideal(events.drop_first(), duration_ms, interval_ms, offset + 1);
            let tail = collect_outcome(events.drop_first(), duration_ms).unwrap();
            assert forall|k: int| 0 <= k < ceil - offset implies (seq![tick_sample(ev)] + tail)[k]
                == tick_sample(events[k]) by {
                if k > 0 {
                    assert(tail[k - 1] == tick_sample(events.drop_first()[k - 1]));
                    assert(events.drop_first()[k - 1] == events[k]);
                }
            }
        }
    }
}

/// The ideal tick count is the ratio duration / interval rounded up:
/// within one of the truncated ratio.
pub proof fn lemma_ideal_tick_count_bounds(duration_ms: u64, interval_ms: u64)
    requires
        0 < interval_ms,
        0 < duration_ms,
    ensures
        duration_ms as int / interval_ms as int <= ideal_tick_count(duration_ms, interval_ms),
        ideal_tick_count(duration_ms, interval_ms) <= duration_ms as int / interval_ms as int + 1,
{
    let d = duration_ms as int;
    let i = interval_ms as int;
    lemma_fundamental_div_mod(d, i);
    lemma_mod_division_less_than_divisor(d, i);
    let q = d / i;
    let r = d % i;
    assert(i * q == q * i) by (nonlinear_arith);
    if r == 0 {
        lemma_fundamental_div_mod_converse(d + i - 1, i, q, i - 1);
    } else {
        assert((q + 1) * i == q * i + i) by (nonlinear_arith);
        lemma_fundamental_div_mod_converse(d + i - 1, i, q + 1, r - 1);
    }
}

/// Ticks at least one interval apart, numbered from `offset`: tick j
/// starts no earlier than (offset + j) · interval. Every schedule the
/// loop can produce satisfies this from tick 0, since it sleeps a
/// whole interval between ticks.
pub open spec fn spaced_ticks(events: Seq<TickEvent>, interval_ms: u64, offset: int) -> bool {
    forall|j: int|
        0 <= j < events.len() ==> (#[trigger] events[j]).elapsed_ms >= (offset + j) * interval_ms
}

/// Law: however the schedule jitters, a collection whose ticks lie at
/// least one interval apart never records more ticks than the ideal
/// count — so never more than one tick beyond duration / interval.
pub proof fn lemma_collect_count_never_exceeds(
    events: Seq<TickEvent>,
    duration_ms: u64,
    interval_ms: u64,
    offset: int,
)
    requires
        0 < interval_ms,
        0 < duration_ms,
        0 <= offset,
        spaced_ticks(events, interval_ms, offset),
    ensures
        collect_outcome(events, duration_ms) matches Ok(samples) ==> samples.len() <= (
        if offset < ideal_tick_count(duration_ms, interval_ms) {
            ideal_tick_count(duration_ms, interval_ms) - offset
        } else {
            0
        }),
    decreases events.len(),
{
    let d = duration_ms as int;
    let i = interval_ms as int;
    let ceil = ideal_tick_count(duration_ms, interval_ms);
    if events.len() > 0 {
        let ev = events[0];
        assert(ev.elapsed_ms >= offset * i);
        if ev.elapsed_ms < duration_ms && ev.observed_exit is None && ev.metric_a is Some
            && ev.metric_b is Some {
            lemma_budget_spent(d, i, offset);
            assert(offset < ceil);
            assert(spaced_ticks(events.drop_first(), interval_ms, offset + 1)) by {
                assert forall|j: int|
                    0 <= j < events.drop_first().len() implies (
                #[trigger] events.drop_first()[j]).elapsed_ms >= (offset + 1 + j)
                    * interval_ms by {
                    assert(events.drop_first()[j] == events[j + 1]);
                    assert(events[j + 1].elapsed_ms >= (offset + j + 1) * interval_ms);
                }
            }
            lemma_collect_count_never_exceeds(
                events.drop_first(),
                duration_ms,
                interval_ms,
                offset + 1,
            );
        }
    }
}

/// Law: with a positive interval no longer than the duration, an
/// ideally scheduled, healthy collection succeeds, its sample count is
/// within one tick of duration / interval, and its elapsed times are
/// strictly increasing.
pub proof fn lemma_collect_within_one_tick(
    events: Seq<TickEvent>,
    duration_ms: u64,
    interval_ms: u64,
)
    requires
        0 < interval_ms <= duration_ms,
        ideal_ticks(events, interval_ms, 0),
        events.len() >= ideal_tick_count(duration_ms, interval_ms),
    ensures
        collect_outcome(events, duration_ms) matches Ok(samples) && {
            let ratio = duration_ms as int / interval_ms as int;
            &&& ratio <= samples.len() <= ratio + 1
            &&& strictly_ordered(samples)
        },
{
    let i = interval_ms as int;
    lemma_collect_ideal(events, duration_ms, interval_ms, 0);
    lemma_ideal_tick_count_bounds(duration_ms, interval_ms);
    let samples = collect_outcome(events, duration_ms).unwrap();
    assert forall|a: int, b: int| 0 <= a < b < samples.len() implies #[trigger] samples[a].elapsed_ms
        < #[trigger] samples[b].elapsed_ms by {
        assert(samples[a] == tick_sample(events[a]));
        assert(samples[b] == tick_sample(events[b]));
        lemma_mul_strict_inequality(a, b, i);
    }
}

} // verus!
