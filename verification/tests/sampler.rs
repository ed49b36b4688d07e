use eth_metrics::errors::{ExitInfo, RunError};
use eth_metrics::sampler::{collect, readiness_gate, wait_until_ready, ReadyEvent, ReadyGate, TickEvent};

fn dead(code: i32, stderr: &str) -> ExitInfo {
    ExitInfo { exit_code: Some(code), stderr_text: String::from(stderr) }
}

fn quiet_tick(elapsed_ms: u64, a: u64, b: u64) -> TickEvent {
    TickEvent { elapsed_ms, observed_exit: None, metric_a: Some(a), metric_b: Some(b) }
}

#[test]
fn gate_prefers_death_over_timeout() {
    // A process that exits inside the readiness window is reported as its
    // own death, never as a timeout, even with the timer already fired.
    let d = readiness_gate(Err(RunError::ProcessDied(dead(9, "gone"))), true);
    assert!(matches!(d, ReadyGate::Abort(RunError::ProcessDied(_))));
}

#[test]
fn gate_times_out_when_healthy() {
    let d = readiness_gate(Ok(()), true);
    assert!(matches!(d, ReadyGate::Abort(RunError::ReadinessTimeout)));
    let p = readiness_gate(Ok(()), false);
    assert!(matches!(p, ReadyGate::Probe));
}

#[test]
fn wait_retries_until_probe_answers() {
    let quiet = |probe_ok: bool| ReadyEvent { observed_exit: None, timed_out: false, probe_ok };
    let events = vec![quiet(false), quiet(false), quiet(true)];
    let r = wait_until_ready(&events);
    assert!(matches!(r, Some(Ok(()))));
}

#[test]
fn wait_reports_timeout() {
    let events = vec![
        ReadyEvent { observed_exit: None, timed_out: false, probe_ok: false },
        ReadyEvent { observed_exit: None, timed_out: true, probe_ok: false },
    ];
    let r = wait_until_ready(&events);
    assert!(matches!(r, Some(Err(RunError::ReadinessTimeout))));
}

#[test]
fn wait_reports_death_not_timeout() {
    // The death and the timeout flag arrive in the same iteration: the
    // death wins.
    let events = vec![
        ReadyEvent { observed_exit: None, timed_out: false, probe_ok: false },
        ReadyEvent { observed_exit: Some(dead(3, "crash")), timed_out: true, probe_ok: false },
    ];
    match wait_until_ready(&events) {
        Some(Err(RunError::ProcessDied(info))) => assert_eq!(info.exit_code, Some(3)),
        other => panic!("expected ProcessDied, got {:?}", other),
    }
}

#[test]
fn collect_counts_within_one_tick() {
    // Ideal schedule: interval 500 ms over a 10 s budget. The loop
    // records the ticks below the budget: 20 of them, strictly ordered.
    let duration_ms = 10_000u64;
    let interval_ms = 500u64;
    let mut events = Vec::new();
    let mut t = 0u64;
    while t <= duration_ms {
        events.push(quiet_tick(t, 100 + t, 25));
        t += interval_ms;
    }
    let series = collect(&events, duration_ms).unwrap();
    let expect = (duration_ms / interval_ms) as usize;
    let got = series.samples.len();
    assert!(got == expect || got == expect + 1, "count {} vs ratio {}", got, expect);
    for w in series.samples.windows(2) {
        assert!(w[0].elapsed_ms < w[1].elapsed_ms);
    }
}

#[test]
fn collect_with_jitter_stays_within_one_tick() {
    // Ticks drift late but stay at least one interval apart: the count
    // still lands within one tick of duration / interval.
    let duration_ms = 5_000u64;
    let interval_ms = 500u64;
    let late = [0u64, 510, 1_040, 1_600, 2_150, 2_700, 3_210, 3_730, 4_290, 4_820, 5_350];
    let events: Vec<TickEvent> = late.iter().map(|&t| quiet_tick(t, t, 1)).collect();
    let series = collect(&events, duration_ms).unwrap();
    let ratio = (duration_ms / interval_ms) as usize;
    let got = series.samples.len();
    assert!(ratio <= got + 1 && got <= ratio + 1, "count {} vs ratio {}", got, ratio);
}

#[test]
fn collect_stops_at_budget() {
    let events = vec![quiet_tick(0, 1, 1), quiet_tick(400, 2, 1), quiet_tick(800, 3, 1)];
    let series = collect(&events, 800).unwrap();
    assert_eq!(series.samples.len(), 2);
    assert_eq!(series.samples[0].elapsed_ms, 0);
    assert_eq!(series.samples[1].elapsed_ms, 400);
    assert_eq!(series.samples[1].metric_a, 2);
}

#[test]
fn collect_aborts_on_death() {
    let events = vec![
        quiet_tick(0, 1, 1),
        TickEvent {
            elapsed_ms: 500,
            observed_exit: Some(dead(11, "segfault")),
            metric_a: Some(2),
            metric_b: Some(1),
        },
        quiet_tick(1000, 3, 1),
    ];
    match collect(&events, 10_000) {
        Err(RunError::ProcessDied(info)) => {
            assert_eq!(info.exit_code, Some(11));
            assert_eq!(info.stderr_text, "segfault");
        },
        other => panic!("expected ProcessDied, got {:?}", other),
    }
}

#[test]
fn collect_aborts_on_failed_read() {
    // A failed metric read aborts the run: no silent gaps.
    let events = vec![
        quiet_tick(0, 1, 1),
        TickEvent { elapsed_ms: 500, observed_exit: None, metric_a: None, metric_b: Some(1) },
    ];
    assert!(matches!(collect(&events, 10_000), Err(RunError::MetricReadFailure)));
    let events2 = vec![
        quiet_tick(0, 1, 1),
        TickEvent { elapsed_ms: 500, observed_exit: None, metric_a: Some(2), metric_b: None },
    ];
    assert!(matches!(collect(&events2, 10_000), Err(RunError::MetricReadFailure)));
}
