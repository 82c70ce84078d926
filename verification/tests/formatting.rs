use keyboard_diag::numfmt::{dec_two_digits, dec_u64};
use keyboard_diag::runner::Progress;

#[test]
fn decimal_rendering_is_exact() {
    assert_eq!(dec_u64(0), "0");
    assert_eq!(dec_u64(7), "7");
    assert_eq!(dec_u64(10), "10");
    assert_eq!(dec_u64(105), "105");
    assert_eq!(dec_u64(98765), "98765");
    assert_eq!(dec_u64(u64::MAX), "18446744073709551615");
}

#[test]
fn fractional_part_is_zero_padded() {
    assert_eq!(dec_two_digits(0), "00");
    assert_eq!(dec_two_digits(5), "05");
    assert_eq!(dec_two_digits(50), "50");
    assert_eq!(dec_two_digits(99), "99");
}

#[test]
fn progress_messages_match_the_reported_run() {
    assert_eq!(Progress::Idle.text(), "");
    assert_eq!(
        Progress::Running { run: 1, total: 10 }.text(),
        "Test 1/10 running"
    );
    assert_eq!(
        Progress::Successful { run: 3, total: 3 }.text(),
        "Test 3/3 successful"
    );
    assert_eq!(
        Progress::Failed { run: 2, total: 9 }.text(),
        "Test 2/9 failed"
    );
    assert_eq!(
        Progress::RunError { run: 4, total: 7, detail: "bus stalled".to_string() }.text(),
        "Test 4/7 failed to run: bus stalled"
    );
}
