use perf_layer::error::PerfError;
use perf_layer::guard::LifecycleGuard;
use perf_layer::span::SpanTracker;

#[test]
fn sequential_spans_end_clean() {
    let mut t = SpanTracker::new();
    assert_eq!(t.start(1), Ok(()));
    assert_eq!(t.end(1), Ok(true));
    assert_eq!(t.start(2), Ok(()));
    assert_eq!(t.end(2), Ok(true));
    assert!(!t.is_active(1));
    assert!(!t.is_active(2));
}

#[test]
fn nested_span_disturbs_outer() {
    let mut t = SpanTracker::new();
    assert_eq!(t.start(10), Ok(()));
    assert_eq!(t.start(20), Ok(()));
    assert_eq!(t.end(20), Ok(true));
    assert_eq!(t.end(10), Ok(false));
}

#[test]
fn span_cannot_start_twice_or_end_unstarted() {
    let mut t = SpanTracker::new();
    assert_eq!(t.end(3), Err(PerfError::InvalidState));
    assert_eq!(t.start(3), Ok(()));
    assert_eq!(t.start(3), Err(PerfError::InvalidState));
    assert!(t.is_active(3));
    assert_eq!(t.end(3), Ok(true));
    assert_eq!(t.end(3), Err(PerfError::InvalidState));
}

#[test]
fn guard_flushes_exactly_once() {
    let mut g = LifecycleGuard::new("./perf.folded");
    assert_eq!(g.destination(), "./perf.folded");
    assert!(!g.finalized());
    assert_eq!(g.release(), Some(Vec::new()));
    assert!(g.finalized());
    assert_eq!(g.release(), None);
    assert_eq!(g.release(), None);
}

#[test]
fn guard_hands_out_buffered_reports_in_order_once() {
    let mut g = LifecycleGuard::new("out.txt");
    assert!(g.push_report(String::from("first")));
    assert!(g.push_report(String::from("second")));
    assert_eq!(g.pending(), 2);
    assert_eq!(
        g.release(),
        Some(vec![String::from("first"), String::from("second")])
    );
    assert_eq!(g.pending(), 0);
    assert!(!g.push_report(String::from("late")));
    assert_eq!(g.pending(), 0);
    assert_eq!(g.release(), None);
}
