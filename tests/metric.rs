use perf_layer::metric::{ipc_hundredths, push_decimal, push_ratio};

#[test]
fn ipc_is_rounded_to_hundredths() {
    assert_eq!(ipc_hundredths(10, 5), Some(200));
    assert_eq!(ipc_hundredths(1, 3), Some(33));
    assert_eq!(ipc_hundredths(2, 3), Some(67));
    assert_eq!(ipc_hundredths(1, 8), Some(13));
    assert_eq!(ipc_hundredths(0, 7), Some(0));
}

#[test]
fn ipc_of_zero_cycles_is_undefined() {
    assert_eq!(ipc_hundredths(0, 0), None);
    assert_eq!(ipc_hundredths(12345, 0), None);
}

#[test]
fn ipc_of_largest_counts_does_not_overflow() {
    assert_eq!(ipc_hundredths(u64::MAX, 1), Some(u64::MAX as u128 * 100));
    assert_eq!(ipc_hundredths(u64::MAX, u64::MAX), Some(100));
}

#[test]
fn decimal_notation() {
    let mut s = String::from("n=");
    push_decimal(&mut s, 0);
    assert_eq!(s, "n=0");
    let mut s = String::new();
    push_decimal(&mut s, 1907);
    assert_eq!(s, "1907");
    let mut s = String::new();
    push_decimal(&mut s, u128::MAX);
    assert_eq!(s, u128::MAX.to_string());
}

fn ratio(insns: u64, cycles: u64) -> String {
    let mut s = String::new();
    push_ratio(&mut s, insns, cycles);
    s
}

#[test]
fn ratio_with_two_decimals() {
    assert_eq!(ratio(1234, 1000), "1.23");
    assert_eq!(ratio(5, 2), "2.50");
    assert_eq!(ratio(7, 700), "0.01");
    assert_eq!(ratio(2, 3), "0.67");
    assert_eq!(ratio(123456, 100), "1234.56");
}

#[test]
fn ratio_marks_undefined() {
    let r = ratio(42, 0);
    assert_eq!(r, "undefined");
    assert!(!r.contains("NaN"));
    assert!(!r.contains("inf"));
}
