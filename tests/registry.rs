use perf_layer::error::PerfError;
use perf_layer::event::EventKind;
use perf_layer::registry::Registry;

#[test]
fn register_then_lookup_round_trip() {
    let mut r = Registry::new();
    assert_eq!(r.register("cycles", EventKind::CpuCycles), Ok(0));
    assert_eq!(r.register("insns", EventKind::Instructions), Ok(1));
    assert_eq!(r.register("misses", EventKind::CacheMisses), Ok(2));
    assert_eq!(r.lookup("cycles"), Ok(EventKind::CpuCycles));
    assert_eq!(r.lookup("insns"), Ok(EventKind::Instructions));
    assert_eq!(r.lookup("misses"), Ok(EventKind::CacheMisses));
    assert_eq!(r.len(), 3);
    assert_eq!(r.position("insns"), Some(1));
}

#[test]
fn duplicate_name_is_refused() {
    let mut r = Registry::new();
    assert_eq!(r.register("cycles", EventKind::CpuCycles), Ok(0));
    assert_eq!(
        r.register("cycles", EventKind::Instructions),
        Err(PerfError::DuplicateName)
    );
    assert_eq!(r.len(), 1);
    assert_eq!(r.lookup("cycles"), Ok(EventKind::CpuCycles));
}

#[test]
fn unknown_name_is_not_found() {
    let mut r = Registry::new();
    assert_eq!(r.lookup("cycles"), Err(PerfError::NotFound));
    assert_eq!(r.register("cycles", EventKind::CpuCycles), Ok(0));
    assert_eq!(r.lookup("cycle"), Err(PerfError::NotFound));
    assert_eq!(r.lookup(""), Err(PerfError::NotFound));
    assert_eq!(r.position("insns"), None);
}

#[test]
fn ipc_report_takes_counts_by_name() {
    let mut r = Registry::new();
    assert_eq!(r.register("cycles", EventKind::CpuCycles), Ok(0));
    assert_eq!(r.register("insns", EventKind::Instructions), Ok(1));
    let counts = vec![400, 1000];
    assert_eq!(
        r.ipc_report(&counts),
        Ok(String::from("{ cycles: 400, insns: 1000, ipc: 2.50 }"))
    );
    let zero = vec![0, 3];
    assert_eq!(
        r.ipc_report(&zero),
        Ok(String::from("{ cycles: 0, insns: 3, ipc: undefined }"))
    );
}

#[test]
fn ipc_report_lists_every_counter() {
    let mut r = Registry::new();
    assert_eq!(r.register("insns", EventKind::Instructions), Ok(0));
    assert_eq!(r.register("misses", EventKind::CacheMisses), Ok(1));
    assert_eq!(r.register("cycles", EventKind::CpuCycles), Ok(2));
    let counts = vec![900, 12, 300];
    assert_eq!(
        r.ipc_report(&counts),
        Ok(String::from("{ insns: 900, misses: 12, cycles: 300, ipc: 3.00 }"))
    );
}

#[test]
fn ipc_report_needs_both_counters() {
    let mut r = Registry::new();
    assert_eq!(r.register("cycles", EventKind::CpuCycles), Ok(0));
    assert_eq!(r.ipc_report(&vec![10]), Err(PerfError::NotFound));
}

#[test]
fn ipc_report_exact_values() {
    let mut r = Registry::new();
    assert_eq!(r.register("insns", EventKind::Instructions), Ok(0));
    assert_eq!(r.register("cycles", EventKind::CpuCycles), Ok(1));
    assert_eq!(
        r.ipc_report(&vec![300, 200]),
        Ok(String::from("{ insns: 300, cycles: 200, ipc: 1.50 }"))
    );
    assert_eq!(
        r.ipc_report(&vec![5, 0]),
        Ok(String::from("{ insns: 5, cycles: 0, ipc: undefined }"))
    );
}
