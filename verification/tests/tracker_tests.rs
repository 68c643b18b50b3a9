use bigquery_lite_engine::trackers::{MemoryTracker, PerformanceTracker};

#[test]
fn test_memory_tracker() {
    let mut tracker = MemoryTracker::new();

    tracker.allocate(1024);
    assert_eq!(tracker.current_usage(), 1024);
    assert_eq!(tracker.peak_usage(), 1024);

    tracker.allocate(2048);
    assert_eq!(tracker.current_usage(), 3072);
    assert_eq!(tracker.peak_usage(), 3072);

    tracker.deallocate(1024);
    assert_eq!(tracker.current_usage(), 2048);
    assert_eq!(tracker.peak_usage(), 3072);
}

#[test]
fn test_memory_tracker_deallocate_floors_at_zero() {
    let mut tracker = MemoryTracker::new();
    tracker.allocate(100);
    tracker.deallocate(500);
    assert_eq!(tracker.current_usage(), 0);
    assert_eq!(tracker.peak_usage(), 100);
}

#[test]
fn test_performance_tracker_elapsed() {
    let tracker = PerformanceTracker::new(100);
    assert_eq!(tracker.elapsed(250), 150);
    // A clock reading before the start yields zero, never an underflow.
    assert_eq!(tracker.elapsed(50), 0);
}

#[test]
fn test_performance_tracker_report() {
    let mut tracker = PerformanceTracker::new(0);
    tracker.checkpoint(String::from("load"), 500);
    tracker.checkpoint(String::from("run"), 2000);
    let report = tracker.report(2500);
    assert_eq!(report, "Total time: 2.50s\n  load: 500ms\n  run: 1.50s\n");
}

#[test]
fn test_performance_tracker_report_empty() {
    let tracker = PerformanceTracker::new(1000);
    assert_eq!(tracker.report(1250), "Total time: 250ms\n");
}
