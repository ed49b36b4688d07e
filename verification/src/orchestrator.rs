use vstd::prelude::*;
use crate::aggregate::{
    resample_rate, resample_spec, seq_max, seq_min, seq_sum, seq_sum_sq, summary, SpeedSeries,
    SummaryStats,
};
use crate::errors::RunError;
use crate::series::{RunSeries, Sample};
use crate::version::{parse_version, parse_version_spec};

verus! {

/// Where the orchestrator stands in the current run's
/// start → wait-ready → collect → stop sequence.
#[derive(Clone, Copy, PartialEq, Eq, Structural, Debug)]
pub enum Phase {
    /// Between runs: nothing staged, nothing running.
    Idle,
    /// The node was started; its endpoint may not answer yet.
    Started,
    /// The endpoint answered; collection may begin.
    Ready,
    /// Collection finished; the node still has to be stopped.
    Collected,
    /// A run failed; no further run is started.
    Failed,
}

/// What the benchmark should do next.
#[derive(Clone, Copy, PartialEq, Eq, Structural, Debug)]
pub enum NextAction {
    /// Stage the dataset, pick ports, spawn the node.
    Start,
    /// Poll the endpoint until it answers or the window closes.
    WaitReady,
    /// Run the sampling loop.
    Collect,
    /// Terminate the node and clear the staging.
    Stop,
    /// Aggregate and hand what completed to the reporting collaborators.
    Report,
    /// Nothing completed and nothing more will: stop with the failure.
    Halt,
}

/// One completed run: its raw series and the rate series resampled
/// from it.
#[derive(Debug)]
pub struct RunRecord {
    pub series: RunSeries,
    pub speeds: SpeedSeries,
}

impl RunRecord {
    pub open spec fn wf(self) -> bool {
        &&& self.series.wf()
        &&& self.series.samples@.len() >= 1
        &&& self.speeds.wf()
    }
}

/// Sequences the configured number of independent runs, each
/// start → wait-ready → collect → stop, accumulating one record per
/// completed run. The first failure ends the sequence, but the records
/// already completed are kept for reporting.
#[derive(Debug)]
pub struct Orchestrator {
    pub total_runs: usize,
    pub runs_done: usize,
    pub phase: Phase,
    pub version: Vec<u8>,
    pub records: Vec<RunRecord>,
    pub failure: Option<RunError>,
}

impl Orchestrator {
    pub open spec fn wf(self) -> bool {
        &&& self.runs_done <= self.total_runs
        &&& (self.phase == Phase::Collected ==> self.records@.len() == self.runs_done + 1)
        &&& ((self.phase == Phase::Idle || self.phase == Phase::Started || self.phase
            == Phase::Ready) ==> self.records@.len() == self.runs_done)
        &&& ((self.phase == Phase::Started || self.phase == Phase::Ready || self.phase
            == Phase::Collected) ==> self.runs_done < self.total_runs)
        &&& (self.phase == Phase::Failed <==> self.failure is Some)
        &&& (forall|i: int| 0 <= i < self.records@.len() ==> (#[trigger] self.records@[i]).wf())
    }

    /// Sets up the sequence from the monitored binary's version banner
    /// (or its absence, when the binary could not even be launched for
    /// the version query). A missing or unreadable banner is a spawn
    /// failure, reported before any staging or port probing happens.
    pub fn new(total_runs: usize, version_banner: Option<Vec<u8>>) -> (r: Result<
        Orchestrator,
        RunError,
    >)
        ensures
            match r {
                Ok(orch) => {
                    &&& version_banner matches Some(out) && parse_version_spec(out@) == Some(
                        orch.version@,
                    )
                    &&& orch.wf()
                    &&& orch.phase == Phase::Idle
                    &&& orch.runs_done == 0
                    &&& orch.total_runs == total_runs
                    &&& orch.records@.len() == 0
                    &&& orch.failure is None
                },
                Err(e) => {
                    &&& e == RunError::Spawn
                    &&& match version_banner {
                        Some(out) => parse_version_spec(out@) is None,
                        None => true,
                    }
                },
            },
    {
        let banner = match version_banner {
            Some(b) => b,
            None => {
                return Err(RunError::Spawn);
            },
        };
        let version = match parse_version(&banner) {
            Some(v) => v,
            None => {
                return Err(RunError::Spawn);
            },
        };
        Ok(
            Orchestrator {
                total_runs,
                runs_done: 0,
                phase: Phase::Idle,
                version,
                records: Vec::new(),
                failure: None,
            },
        )
    }

    /// What the benchmark should do next in this state.
    pub open spec fn next_action_spec(self) -> NextAction {
        match self.phase {
            Phase::Idle => if self.runs_done < self.total_runs {
                NextAction::Start
            } else {
                NextAction::Report
            },
            Phase::Started => NextAction::WaitReady,
            Phase::Ready => NextAction::Collect,
            Phase::Collected => NextAction::Stop,
            Phase::Failed => if self.records.len() > 0 {
                NextAction::Report
            } else {
                NextAction::Halt
            },
        }
    }

    pub fn next_action(&self) -> (a: NextAction)
        ensures
            a == self.next_action_spec(),
    {
        match self.phase {
            Phase::Idle => if self.runs_done < self.total_runs {
                NextAction::Start
            } else {
                NextAction::Report
            },
            Phase::Started => NextAction::WaitReady,
            Phase::Ready => NextAction::Collect,
            Phase::Collected => NextAction::Stop,
            Phase::Failed => if self.records.len() > 0 {
                NextAction::Report
            } else {
                NextAction::Halt
            },
        }
    }

    /// Records the outcome of staging, port-picking and spawning.
    pub fn on_started(&mut self, outcome: Result<(), RunError>)
        requires
            old(self).wf(),
            old(self).phase == Phase::Idle,
            old(self).runs_done < old(self).total_runs,
        ensures
            final(self).wf(),
            final(self).records@ == old(self).records@,
            final(self).runs_done == old(self).runs_done,
            final(self).total_runs == old(self).total_runs,
            final(self).version@ == old(self).version@,
            outcome is Ok ==> final(self).phase == Phase::Started && final(self).failure is None,
            outcome matches Err(e) ==> final(self).phase == Phase::Failed && final(self).failure
                == Some(e),
    {
        match outcome {
            Ok(()) => {
                self.phase = Phase::Started;
            },
            Err(e) => {
                self.phase = Phase::Failed;
                self.failure = Some(e);
            },
        }
    }

    /// Records the outcome of the readiness wait.
    pub fn on_ready(&mut self, outcome: Result<(), RunError>)
        requires
            old(self).wf(),
            old(self).phase == Phase::Started,
        ensures
            final(self).wf(),
            final(self).records@ == old(self).records@,
            final(self).runs_done == old(self).runs_done,
            final(self).total_runs == old(self).total_runs,
            final(self).version@ == old(self).version@,
            outcome is Ok ==> final(self).phase == Phase::Ready && final(self).failure is None,
            outcome matches Err(e) ==> final(self).phase == Phase::Failed && final(self).failure
                == Some(e),
    {
        match outcome {
            Ok(()) => {
                self.phase = Phase::Ready;
            },
            Err(e) => {
                self.phase = Phase::Failed;
                self.failure = Some(e);
            },
        }
    }

    /// Records the outcome of the sampling loop. A collected series is
    /// resampled at once with the configured window and kept with its
    /// rate series; any sampling failure ends the sequence.
    pub fn on_collected(&mut self, outcome: Result<RunSeries, RunError>, window_ms: u64)
        requires
            old(self).wf(),
            old(self).phase == Phase::Ready,
            outcome matches Ok(series) ==> series.wf() && series.samples@.len() >= 1 && 2 * (
            series.samples@.len() as int) * (window_ms as int) + (u64::MAX as int)
                <= u128::MAX as int,
        ensures
            final(self).wf(),
            final(self).runs_done == old(self).runs_done,
            final(self).total_runs == old(self).total_runs,
            final(self).version@ == old(self).version@,
            outcome matches Ok(series) ==> {
                &&& final(self).phase == Phase::Collected
                &&& final(self).failure is None
                &&& final(self).records@.len() == old(self).records@.len() + 1
                &&& final(self).records@.subrange(0, old(self).records@.len() as int) == old(
                    self,
                ).records@
                &&& final(self).records@.last().series == series
                &&& final(self).records@.last().speeds.points@ == resample_spec(
                    series.samples@,
                    window_ms as int,
                )
            },
            outcome matches Err(e) ==> final(self).phase == Phase::Failed && final(self).failure
                == Some(e) && final(self).records@ == old(self).records@,
    {
        match outcome {
            Ok(series) => {
                let speeds = resample_rate(&series, window_ms);
                self.records.push(RunRecord { series, speeds });
                self.phase = Phase::Collected;
                proof {
                    assert(self.records@.subrange(0, old(self).records@.len() as int) =~= old(
                        self,
                    ).records@);
                }
            },
            Err(e) => {
                self.phase = Phase::Failed;
                self.failure = Some(e);
            },
        }
    }

    /// Records the outcome of termination and staging cleanup.
    pub fn on_stopped(&mut self, outcome: Result<(), RunError>)
        requires
            old(self).wf(),
            old(self).phase == Phase::Collected,
        ensures
            final(self).wf(),
            final(self).records@ == old(self).records@,
            final(self).total_runs == old(self).total_runs,
            final(self).version@ == old(self).version@,
            outcome is Ok ==> final(self).phase == Phase::Idle && final(self).runs_done == old(
                self,
            ).runs_done + 1 && final(self).failure is None,
            outcome matches Err(e) ==> final(self).phase == Phase::Failed && final(self).failure
                == Some(e) && final(self).runs_done == old(self).runs_done,
    {
        match outcome {
            Ok(()) => {
                self.phase = Phase::Idle;
                self.runs_done = self.runs_done + 1;
            },
            Err(e) => {
                self.phase = Phase::Failed;
                self.failure = Some(e);
            },
        }
    }
}

/// The gauge readings of a run, in sample order.
pub open spec fn metrics_b(s: Seq<Sample>) -> Seq<u64> {
    s.map_values(|x: Sample| x.metric_b)
}

/// The warm-up skip expressed in samples: how many whole poll
/// intervals fit in the configured warm-up span.
pub fn warmup_skip_index(skip_ms: u64, interval_ms: u64) -> (r: u64)
    requires
        interval_ms > 0,
    ensures
        r == skip_ms as int / interval_ms as int,
{
    skip_ms / interval_ms
}

/// One run's report: exact aggregates of the gauge after the warm-up
/// skip, and the run's final cumulative-metric reading.
#[derive(Clone, Copy, PartialEq, Eq, Structural, Debug)]
pub struct RunReport {
    pub peer_stats: SummaryStats,
    pub final_metric_a: u64,
}

/// The report `rep` is exactly the analysis of the record `rec` with
/// the given warm-up skip.
pub open spec fn run_report_matches(rec: RunRecord, rep: RunReport, warmup_skip: int) -> bool {
    let samples = rec.series.samples@;
    let kept = metrics_b(samples).skip(warmup_skip);
    &&& warmup_skip < samples.len()
    &&& rep.peer_stats.count == kept.len()
    &&& rep.peer_stats.min == seq_min(kept)
    &&& rep.peer_stats.max == seq_max(kept)
    &&& rep.peer_stats.sum == seq_sum(kept)
    &&& rep.peer_stats.sum_sq == seq_sum_sq(kept)
    &&& rep.final_metric_a == samples.last().metric_a
}

/// Analyses the completed runs: per run, the gauge's aggregates after
/// the warm-up skip and the final cumulative reading. Asking before
/// any run completed, or skipping past the end of some run, is
/// insufficient data, not a panic.
pub fn analyse_runs(records: &Vec<RunRecord>, warmup_skip: usize) -> (r: Result<
    Vec<RunReport>,
    RunError,
>)
    requires
        forall|i: int| 0 <= i < records@.len() ==> (#[trigger] records@[i]).wf(),
        forall|i: int, j: int|
            0 <= i < records@.len() && 0 <= j < records@[i].series.samples@.len() ==> (
            #[trigger] records@[i].series.samples@[j]).metric_b <= u32::MAX as u64,
    ensures
        match r {
            Ok(reports) => {
                &&& records@.len() > 0
                &&& reports@.len() == records@.len()
                &&& forall|i: int|
                    0 <= i < records@.len() ==> run_report_matches(
                        #[trigger] records@[i],
                        reports@[i],
                        warmup_skip as int,
                    )
            },
            Err(e) => {
                &&& e == RunError::InsufficientData
                &&& (records@.len() == 0 || exists|i: int|
                    0 <= i < records@.len() && warmup_skip >= (
                    #[trigger] records@[i]).series.samples@.len())
            },
        },
{
    if records.len() == 0 {
        return Err(RunError::InsufficientData);
    }
    let mut reports: Vec<RunReport> = Vec::new();
    let mut i: usize = 0;
    while i < records.len()
        invariant
            i <= records@.len(),
            reports@.len() == i,
            forall|t: int| 0 <= t < records@.len() ==> (#[trigger] records@[t]).wf(),
            forall|t: int, j: int|
                0 <= t < records@.len() && 0 <= j < records@[t].series.samples@.len() ==> (
                #[trigger] records@[t].series.samples@[j]).metric_b <= u32::MAX as u64,
            forall|t: int|
                0 <= t < i ==> run_report_matches(
                    #[trigger] records@[t],
                    reports@[t],
                    warmup_skip as int,
                ),
        decreases records@.len() - i,
    {
        let rec = &records[i];
        let n = rec.series.samples.len();
        let mut values: Vec<u64> = Vec::new();
        let mut k: usize = 0;
        while k < n
            invariant
                k <= n,
                n == rec.series.samples@.len(),
                values@.len() == k,
                forall|t: int|
                    0 <= t < k ==> values@[t] == (#[trigger] rec.series.samples@[t]).metric_b,
            decreases n - k,
        {
            values.push(rec.series.samples[k].metric_b);
            k = k + 1;
        }
        proof {
            assert(values@ =~= metrics_b(records@[i as int].series.samples@));
        }
        let stats = match summary(&values, warmup_skip) {
            Ok(st) => st,
            Err(_) => {
                return Err(RunError::InsufficientData);
            },
        };
        let last = rec.series.samples[n - 1].metric_a;
        reports.push(RunReport { peer_stats: stats, final_metric_a: last });
        i = i + 1;
    }
    Ok(reports)
}

} // verus!
