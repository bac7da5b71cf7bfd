use perf_layer::error::PerfError;
use perf_layer::event::EventKind;
use perf_layer::layer::PerfLayer;

fn busy_work(n: u64) -> u64 {
    let mut acc: u64 = 1;
    for i in 0..n {
        acc = acc.wrapping_mul(6364136223846793005).wrapping_add(i);
    }
    acc
}

#[test]
fn ipc_session_reports_a_span() {
    match PerfLayer::ipc_session("./perf.folded") {
        Ok((mut layer, guard)) => {
            assert!(!guard.finalized());
            assert_eq!(layer.lookup("cycles"), Ok(EventKind::CpuCycles));
            assert_eq!(layer.lookup("insns"), Ok(EventKind::Instructions));
            assert_eq!(layer.on_span_start(1), Ok(()));
            assert!(busy_work(100_000) != 0);
            let rec = layer.on_span_end(1).expect("read");
            assert_eq!(rec.span, 1);
            assert!(rec.clean);
            assert_eq!(rec.counts.len(), 2);
            assert!(rec.counts[1] > 100_000);
            assert!(rec.counts[0] > 0);
            let text = layer.span_report(&rec).expect("report");
            assert!(text.starts_with("{ span: 1, cycles: "));
            assert!(text.contains(", insns: "));
            assert!(text.contains(", ipc: "));
            assert!(!text.ends_with("(overlapped)"));
        }
        Err(e) => assert_eq!(e, PerfError::ResourceUnavailable),
    }
}

#[test]
fn registration_after_enable_or_twice_is_refused() {
    match PerfLayer::with_file("./perf.folded") {
        Ok((layer, _guard)) => match layer.with_perf_event("cycles", EventKind::CpuCycles) {
            Ok(layer) => {
                match layer.with_perf_event("cycles", EventKind::Instructions) {
                    Err(e) => assert_eq!(e, PerfError::DuplicateName),
                    Ok(_) => panic!("duplicate name accepted"),
                }
            }
            Err(e) => assert_eq!(e, PerfError::ResourceUnavailable),
        },
        Err(e) => assert_eq!(e, PerfError::ResourceUnavailable),
    }
}

#[test]
fn unregistered_name_is_not_found_on_a_layer() {
    if let Ok((mut layer, _guard)) = PerfLayer::with_file("./perf.folded") {
        assert_eq!(layer.lookup("insns"), Err(PerfError::NotFound));
        assert_eq!(layer.emit_ipc(), Err(PerfError::NotFound));
        assert_eq!(layer.on_span_end(7).err(), Some(PerfError::InvalidState));
    }
}

#[test]
fn abandoned_span_is_closed() {
    if let Ok((mut layer, _guard)) = PerfLayer::ipc_session("./perf.folded") {
        assert_eq!(layer.on_span_abort(5), Err(PerfError::InvalidState));
        assert_eq!(layer.on_span_start(5), Ok(()));
        assert_eq!(layer.on_span_abort(5), Ok(()));
        assert_eq!(layer.on_span_end(5).err(), Some(PerfError::InvalidState));
    }
}

#[test]
fn nested_span_report_is_marked() {
    if let Ok((mut layer, _guard)) = PerfLayer::ipc_session("./perf.folded") {
        assert_eq!(layer.on_span_start(1), Ok(()));
        assert!(busy_work(1000) != 0);
        assert_eq!(layer.on_span_start(2), Ok(()));
        let inner = layer.on_span_end(2).expect("read");
        assert!(inner.clean);
        let outer = layer.on_span_end(1).expect("read");
        assert!(!outer.clean);
        let text = layer.span_report(&outer).expect("report");
        assert!(text.starts_with("{ span: 1, "));
        assert!(text.ends_with(" } (overlapped)"));
    }
}
