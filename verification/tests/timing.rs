use trapy::timing::{dump_timing, TimingSnapshot, TIMING_CAT};

fn snapshot(span: &str, count: u64) -> TimingSnapshot {
    TimingSnapshot {
        span: span.to_string(),
        event: "tick".to_string(),
        count,
        mean_ns: 1.5f64.to_bits(),
        p50_ns: 1,
        p90_ns: 2,
        p99_ns: 3,
        max_ns: 4,
    }
}

#[test]
fn only_sampled_histograms_are_reported() {
    let all = [snapshot("a", 2), snapshot("b", 0), snapshot("c", 1)];
    let mut reports = Vec::new();
    assert_eq!(dump_timing(&all, &mut reports), 2);
    assert_eq!(reports, [&all[0], &all[2]]);
    assert_eq!(TIMING_CAT, "timing");
}

#[test]
fn no_histogram_no_report() {
    let idle = [snapshot("a", 0)];
    let mut reports = Vec::new();
    assert_eq!(dump_timing(&[], &mut reports), 0);
    assert_eq!(dump_timing(&idle, &mut reports), 0);
    assert!(reports.is_empty());
}
