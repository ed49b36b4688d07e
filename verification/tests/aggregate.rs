use eth_metrics::aggregate::{resample_rate, summary, window_factor, SpeedPoint};
use eth_metrics::errors::RunError;
use eth_metrics::series::{RunSeries, Sample};

fn series_of(points: &[(u64, u64, u64)]) -> RunSeries {
    let samples = points
        .iter()
        .map(|&(elapsed_ms, metric_a, metric_b)| Sample { elapsed_ms, metric_a, metric_b })
        .collect();
    RunSeries { samples }
}

fn rate_per_sec(p: &SpeedPoint) -> f64 {
    (p.delta_metric as f64) / (p.delta_ms as f64) * 1000.0
}

#[test]
fn factor_rounds_and_never_drops_below_one() {
    // 10 samples over 9 s, 2 s window: 10 / 9000 * 2000 = 2.22, rounds to 2.
    assert_eq!(window_factor(10, 9_000, 2_000), 2);
    // Exactly half rounds up: 3 / 2000 * 1000 = 1.5.
    assert_eq!(window_factor(3, 2_000, 1_000), 2);
    // A window far shorter than a sample spacing still gives factor 1.
    assert_eq!(window_factor(1, 1_000_000, 1), 1);
    // 10 samples over 10 s with a 10 s window span the whole run.
    assert_eq!(window_factor(10, 10_000, 10_000), 10);
}

#[test]
fn resample_leads_with_zero_point() {
    // Whatever the input, the first point is (time 0, rate 0).
    let single = series_of(&[(0, 42, 5)]);
    let sp = resample_rate(&single, 10_000);
    assert_eq!(sp.points.len(), 1);
    assert_eq!(sp.points[0].time_ms, 0);
    assert_eq!(sp.points[0].delta_metric, 0);
    assert!(sp.points[0].delta_ms > 0);

    let many = series_of(&[(0, 1, 1), (1_000, 5, 1), (2_000, 9, 1), (3_000, 13, 1)]);
    let sp2 = resample_rate(&many, 1_000);
    assert!(sp2.points.len() >= 1);
    assert_eq!(sp2.points[0].time_ms, 0);
    assert_eq!(sp2.points[0].delta_metric, 0);
}

#[test]
fn resample_window_spanning_run_degenerates() {
    // The window spans the whole short run: only the leading point, a
    // degenerate-but-valid series.
    let s = series_of(&[(0, 10, 1), (500, 20, 1)]);
    let sp = resample_rate(&s, 60_000);
    assert_eq!(sp.points.len(), 1);
}

#[test]
fn resample_constant_rate_gives_constant_speed() {
    // Metric grows by 5 per 500 ms tick: every interior rate is 10/s.
    let mut pts = Vec::new();
    for j in 0..20u64 {
        pts.push((j * 500, 1_000 + j * 5, 30));
    }
    let s = series_of(&pts);
    let sp = resample_rate(&s, 2_000);
    assert!(sp.points.len() > 1);
    for p in &sp.points[1..] {
        assert!((rate_per_sec(p) - 10.0).abs() < 1e-9);
    }
}

#[test]
fn mock_height_sequence_resamples_to_expected_points() {
    // Heights 100, 110, ..., 190 at 1 s ticks; a 2-tick window gives
    // factor round(10 / 9 * 2) = 2, so windows of 2 samples: points at
    // 2 s, 4 s and 6 s, each a delta of 20 over 2 s: 10.0 per second.
    let mut pts = Vec::new();
    for j in 0..10u64 {
        pts.push((j * 1_000, 100 + j * 10, 25));
    }
    let s = series_of(&pts);
    let sp = resample_rate(&s, 2_000);
    assert_eq!(sp.points.len(), 4);
    assert_eq!(sp.points[0].time_ms, 0);
    assert_eq!(sp.points[0].delta_metric, 0);
    for (idx, p) in sp.points[1..].iter().enumerate() {
        let j = (idx + 1) as u64;
        assert_eq!(p.time_ms, j * 2 * 1_000);
        assert_eq!(p.delta_metric, 20);
        assert_eq!(p.delta_ms, 2_000);
        assert!((rate_per_sec(p) - 10.0).abs() < 1e-9);
    }
}

#[test]
fn summary_rejects_full_skip() {
    let values = vec![4u64, 5, 6];
    assert!(matches!(summary(&values, 3), Err(RunError::InsufficientData)));
    assert!(matches!(summary(&values, 7), Err(RunError::InsufficientData)));
    let empty: Vec<u64> = Vec::new();
    assert!(matches!(summary(&empty, 0), Err(RunError::InsufficientData)));
}

#[test]
fn summary_aggregates_whole_slice() {
    let values = vec![3u64, 1, 2];
    let st = summary(&values, 0).unwrap();
    assert_eq!(st.min, 1);
    assert_eq!(st.max, 3);
    assert_eq!(st.sum, 6);
    assert_eq!(st.sum_sq, 14);
    assert_eq!(st.count, 3);
}

#[test]
fn summary_skips_warmup() {
    let values = vec![100u64, 2, 4, 4, 4, 5, 5, 7, 9];
    let st = summary(&values, 1).unwrap();
    assert_eq!(st.count, 8);
    assert_eq!(st.min, 2);
    assert_eq!(st.max, 9);
    assert_eq!(st.sum, 40);
    assert_eq!(st.sum_sq, 232);
    // Mean and sample standard deviation derived from the aggregates.
    let mean = st.sum as f64 / st.count as f64;
    assert!((mean - 5.0).abs() < 1e-9);
    let var = (st.sum_sq as f64 - (st.sum as f64) * (st.sum as f64) / st.count as f64)
        / (st.count as f64 - 1.0);
    assert!((var - 32.0 / 7.0).abs() < 1e-9);
}

#[test]
fn summary_of_single_kept_value() {
    let values = vec![8u64, 17];
    let st = summary(&values, 1).unwrap();
    assert_eq!(st.count, 1);
    assert_eq!(st.min, 17);
    assert_eq!(st.max, 17);
    assert_eq!(st.sum, 17);
    assert_eq!(st.sum_sq, 289);
}
