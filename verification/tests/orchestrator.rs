use eth_metrics::errors::RunError;
use eth_metrics::orchestrator::{analyse_runs, warmup_skip_index, NextAction, Orchestrator, Phase};
use eth_metrics::ports::PortSearch;
use eth_metrics::series::{RunSeries, Sample};
use eth_metrics::duration_to_ms;

fn banner() -> Option<Vec<u8>> {
    Some(b"node version 3.1.4-test/x86_64\n".to_vec())
}

fn short_series(base: u64) -> RunSeries {
    let samples = (0..6u64)
        .map(|j| Sample { elapsed_ms: j * 500, metric_a: base + j * 10, metric_b: 20 + j })
        .collect();
    RunSeries { samples }
}

#[test]
fn missing_binary_fails_before_port_probing() {
    // The version probe fails to spawn: the whole setup is a spawn
    // error, and the orchestrator never asks for a start (which is
    // where ports would be probed).
    let r = Orchestrator::new(3, None);
    assert!(matches!(r, Err(RunError::Spawn)));
}

#[test]
fn unreadable_banner_is_a_spawn_error() {
    let r = Orchestrator::new(3, Some(b"no such option: --help-me".to_vec()));
    assert!(matches!(r, Err(RunError::Spawn)));
}

#[test]
fn full_sequence_of_runs() {
    let mut orch = Orchestrator::new(2, banner()).unwrap();
    assert_eq!(orch.version, b"3.1.4-test/x86_64".to_vec());
    for run in 0..2u64 {
        assert_eq!(orch.next_action(), NextAction::Start);
        orch.on_started(Ok(()));
        assert_eq!(orch.next_action(), NextAction::WaitReady);
        orch.on_ready(Ok(()));
        assert_eq!(orch.next_action(), NextAction::Collect);
        orch.on_collected(Ok(short_series(100 * (run + 1))), 1_000);
        assert_eq!(orch.next_action(), NextAction::Stop);
        orch.on_stopped(Ok(()));
    }
    assert_eq!(orch.next_action(), NextAction::Report);
    assert_eq!(orch.records.len(), 2);
    assert_eq!(orch.runs_done, 2);
    assert!(orch.failure.is_none());
    // Each record carries the resampled speed series, led by the zero point.
    for rec in &orch.records {
        assert!(rec.speeds.points.len() >= 1);
        assert_eq!(rec.speeds.points[0].time_ms, 0);
        assert_eq!(rec.speeds.points[0].delta_metric, 0);
    }
}

#[test]
fn early_failure_without_results_halts() {
    let mut orch = Orchestrator::new(3, banner()).unwrap();
    orch.on_started(Err(RunError::PortUnavailable));
    assert_eq!(orch.phase, Phase::Failed);
    assert!(matches!(orch.failure, Some(RunError::PortUnavailable)));
    assert_eq!(orch.next_action(), NextAction::Halt);
}

#[test]
fn failure_after_a_completed_run_still_reports() {
    // The second run times out at readiness; the first run's record is
    // preserved and handed to reporting.
    let mut orch = Orchestrator::new(3, banner()).unwrap();
    orch.on_started(Ok(()));
    orch.on_ready(Ok(()));
    orch.on_collected(Ok(short_series(100)), 1_000);
    orch.on_stopped(Ok(()));
    orch.on_started(Ok(()));
    orch.on_ready(Err(RunError::ReadinessTimeout));
    assert_eq!(orch.phase, Phase::Failed);
    assert!(matches!(orch.failure, Some(RunError::ReadinessTimeout)));
    assert_eq!(orch.records.len(), 1);
    assert_eq!(orch.next_action(), NextAction::Report);
}

#[test]
fn stop_failure_is_io() {
    let mut orch = Orchestrator::new(1, banner()).unwrap();
    orch.on_started(Ok(()));
    orch.on_ready(Ok(()));
    orch.on_collected(Ok(short_series(100)), 1_000);
    orch.on_stopped(Err(RunError::Io));
    assert!(matches!(orch.failure, Some(RunError::Io)));
}

#[test]
fn analyse_reports_per_run_aggregates() {
    let mut orch = Orchestrator::new(1, banner()).unwrap();
    orch.on_started(Ok(()));
    orch.on_ready(Ok(()));
    orch.on_collected(Ok(short_series(100)), 1_000);
    orch.on_stopped(Ok(()));
    let reports = analyse_runs(&orch.records, 2).unwrap();
    assert_eq!(reports.len(), 1);
    // Gauge readings 20..=25; skipping the first two leaves 22..=25.
    let st = &reports[0].peer_stats;
    assert_eq!(st.count, 4);
    assert_eq!(st.min, 22);
    assert_eq!(st.max, 25);
    assert_eq!(st.sum, 22 + 23 + 24 + 25);
    assert_eq!(st.sum_sq, 22 * 22 + 23 * 23 + 24 * 24 + 25 * 25);
    assert_eq!(reports[0].final_metric_a, 150);
}

#[test]
fn analyse_without_any_run_is_insufficient() {
    let records = Vec::new();
    assert!(matches!(analyse_runs(&records, 0), Err(RunError::InsufficientData)));
}

#[test]
fn analyse_with_skip_past_a_run_is_insufficient() {
    let mut orch = Orchestrator::new(1, banner()).unwrap();
    orch.on_started(Ok(()));
    orch.on_ready(Ok(()));
    orch.on_collected(Ok(short_series(100)), 1_000);
    orch.on_stopped(Ok(()));
    assert!(matches!(analyse_runs(&orch.records, 6), Err(RunError::InsufficientData)));
}

#[test]
fn warmup_skip_counts_whole_intervals() {
    // Five warm-up minutes at a 500 ms cadence skip 600 samples.
    assert_eq!(warmup_skip_index(duration_to_ms(300, 0), 500), 600);
    assert_eq!(warmup_skip_index(999, 1_000), 0);
}

#[test]
fn port_search_keeps_first_two_free_ports() {
    let mut search = PortSearch::new();
    assert!(!search.complete());
    assert_eq!(search.pair(), None);
    search.offer(8_000, false);
    search.offer(8_123, true);
    assert!(!search.complete());
    search.offer(8_456, true);
    assert!(search.complete());
    search.offer(8_789, true);
    assert_eq!(search.pair(), Some((8_123, 8_456)));
}

#[test]
fn milliseconds_from_parts() {
    assert_eq!(duration_to_ms(2, 250), 2_250);
    assert_eq!(duration_to_ms(600, 0), 600_000);
    assert_eq!(duration_to_ms(0, 999), 999);
}
