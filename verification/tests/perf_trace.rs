use gnil_app::perf::{PerfTrace, RenderPerfBucket, MAX_DURATION_NANOS, NANOS_PER_SECOND};

#[test]
fn bucket_averages_in_whole_microseconds() {
    let mut bucket = RenderPerfBucket::default();
    assert_eq!(bucket.average_micros(), 0);
    bucket.record(1_500);
    bucket.record(4_000);
    assert_eq!(bucket.count, 2);
    assert_eq!(bucket.total_nanos, 5_500);
    assert_eq!(bucket.max_nanos, 4_000);
    assert_eq!(bucket.average_micros(), 2);
}

#[test]
fn bucket_saturates_instead_of_overflowing() {
    let mut bucket = RenderPerfBucket { count: u64::MAX, total_nanos: MAX_DURATION_NANOS - 1, max_nanos: 0 };
    bucket.record(10);
    assert_eq!(bucket.count, u64::MAX);
    assert_eq!(bucket.total_nanos, MAX_DURATION_NANOS);
}

#[test]
fn disabled_trace_records_nothing() {
    let mut trace = PerfTrace::new(false, 0, 2);
    assert!(trace.record_root(1_000, 5 * NANOS_PER_SECOND).is_none());
    assert!(trace.record_pointer_received(5 * NANOS_PER_SECOND).is_none());
    assert_eq!(trace.root.count, 0);
    assert_eq!(trace.pointer_received, 0);
}

#[test]
fn trace_reports_once_a_second_and_starts_a_new_interval() {
    let mut trace = PerfTrace::new(true, 0, 2);
    assert!(trace.record_root(2_000, 10).is_none());
    assert!(trace.record_surface(1, 3_000, 20).is_none());
    trace.record_pointer_queued(100);
    assert!(trace.record_pointer_applied(5_100).is_none());
    let report = trace.record_pointer_received(NANOS_PER_SECOND).expect("report");
    assert_eq!(report.root_count, 1);
    assert_eq!(report.root_average_micros, 2);
    assert_eq!(report.surfaces, vec![(0, 0, 0), (1, 3, 3)]);
    assert_eq!(report.pointer_received, 1);
    assert_eq!(report.pointer_queued, 1);
    assert_eq!(report.pointer_applied, 1);
    assert_eq!(report.pointer_average_micros, 5);
    assert_eq!(report.pointer_p95_micros, 5);
    assert_eq!(report.pointer_max_micros, 5);
    assert_eq!(trace.root.count, 0);
    assert_eq!(trace.report_started, NANOS_PER_SECOND);
    assert!(trace.pointer_latency_samples_micros.is_empty());
}

#[test]
fn p95_is_taken_from_sorted_samples() {
    let mut trace = PerfTrace::new(true, 0, 0);
    for latency in [9_000u128, 1_000, 5_000] {
        trace.record_pointer_queued(0);
        assert!(trace.record_pointer_applied(latency).is_none());
    }
    let report = trace.maybe_report(NANOS_PER_SECOND).expect("report");
    assert_eq!(report.pointer_p95_micros, 9);
    assert_eq!(report.pointer_max_micros, 9);
    assert_eq!(report.pointer_average_micros, 5);
}

#[test]
fn applied_pointer_without_pending_update_only_counts() {
    let mut trace = PerfTrace::new(true, 0, 0);
    assert!(trace.record_pointer_applied(10).is_none());
    assert_eq!(trace.pointer_applied, 1);
    assert!(trace.pointer_latency_samples_micros.is_empty());
    let report = trace.maybe_report(NANOS_PER_SECOND).expect("report");
    assert_eq!(report.pointer_p95_micros, 0);
    assert_eq!(report.pointer_average_micros, 0);
}

#[test]
fn reset_interval_clears_the_counts() {
    let mut trace = PerfTrace::new(true, 0, 1);
    trace.record_root(10, 1);
    trace.reset_interval(77);
    assert_eq!(trace.report_started, 77);
    assert_eq!(trace.root.count, 0);
    assert_eq!(trace.surfaces.len(), 1);
}
