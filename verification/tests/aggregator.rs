use keyboard_diag::bench::{all_ports, bench_failure_text, BenchmarkState, Port};

#[test]
fn fresh_state_reports_no_benchmarks() {
    let state = BenchmarkState::new();
    for port in all_ports() {
        assert_eq!(state.port_text(port), "no benchmarks performed");
    }
}

#[test]
fn better_result_kept_on_merge() {
    // Scenario: merging 120.50 MB/s and then 95.00 MB/s keeps 120.50.
    let mut state = BenchmarkState::new();
    state.merge(vec![(Port::Usb2ALeft, Ok(12050))]);
    state.merge(vec![(Port::Usb2ALeft, Ok(9500))]);
    assert_eq!(state.stored(Port::Usb2ALeft), &Ok(12050));
    assert_eq!(state.port_text(Port::Usb2ALeft), "120.50 MB/s");
}

#[test]
fn larger_result_replaces_smaller() {
    let mut state = BenchmarkState::new();
    state.merge(vec![(Port::Usb2ALeft, Ok(9500))]);
    state.merge(vec![(Port::Usb2ALeft, Ok(12050))]);
    assert_eq!(state.stored(Port::Usb2ALeft), &Ok(12050));
}

#[test]
fn failure_never_replaces_success() {
    let mut state = BenchmarkState::new();
    state.merge(vec![(Port::Usb3CRight, Ok(4200))]);
    state.merge(vec![(Port::Usb3CRight, Err("device busy".to_string()))]);
    assert_eq!(state.stored(Port::Usb3CRight), &Ok(4200));
    assert_eq!(state.port_text(Port::Usb3CRight), "42.00 MB/s");
}

#[test]
fn failure_overwritten_by_latest_outcome() {
    let mut state = BenchmarkState::new();
    state.merge(vec![(Port::Usb2CLeft, Err("first error".to_string()))]);
    assert_eq!(state.port_text(Port::Usb2CLeft), "first error");
    state.merge(vec![(Port::Usb2CLeft, Err("second error".to_string()))]);
    assert_eq!(state.port_text(Port::Usb2CLeft), "second error");
    state.merge(vec![(Port::Usb2CLeft, Ok(100))]);
    assert_eq!(state.stored(Port::Usb2CLeft), &Ok(100));
    assert_eq!(state.port_text(Port::Usb2CLeft), "1.00 MB/s");
}

#[test]
fn merge_touches_only_reported_ports() {
    let mut state = BenchmarkState::new();
    state.merge(vec![(Port::Usb2ARight, Ok(777))]);
    assert_eq!(state.port_text(Port::Usb2ALeft), "no benchmarks performed");
    assert_eq!(state.port_text(Port::Usb2ARight), "7.77 MB/s");
    assert_eq!(state.port_text(Port::Usb3CLeft), "no benchmarks performed");
}

#[test]
fn one_report_updates_many_ports_in_order() {
    let mut state = BenchmarkState::new();
    state.merge(vec![
        (Port::Usb2ALeft, Ok(1000)),
        (Port::Usb2ARight, Err("unplugged".to_string())),
        (Port::Usb2ALeft, Ok(2000)),
    ]);
    assert_eq!(state.stored(Port::Usb2ALeft), &Ok(2000));
    assert_eq!(state.port_text(Port::Usb2ARight), "unplugged");
}

#[test]
fn reset_restores_every_port() {
    let mut state = BenchmarkState::new();
    state.merge(vec![
        (Port::Usb2ALeft, Ok(12050)),
        (Port::Usb3ARight, Err("flaky cable".to_string())),
    ]);
    state.reset();
    for port in all_ports() {
        assert_eq!(state.port_text(port), "no benchmarks performed");
    }
}

#[test]
fn reset_twice_equals_reset_once() {
    let mut once = BenchmarkState::new();
    once.merge(vec![(Port::Usb2CLeft, Ok(5))]);
    once.reset();
    let mut twice = BenchmarkState::new();
    twice.merge(vec![(Port::Usb2CLeft, Ok(5))]);
    twice.reset();
    twice.reset();
    for port in all_ports() {
        assert_eq!(once.port_text(port), twice.port_text(port));
        assert_eq!(once.stored(port), twice.stored(port));
    }
}

#[test]
fn port_descriptions_name_the_closed_set() {
    let descriptions: Vec<&str> = all_ports().into_iter().map(Port::description).collect();
    assert_eq!(
        descriptions,
        vec![
            "USB 2.0: USB-A Left",
            "USB 2.0: USB-A Right",
            "USB 2.0: USB-C Left",
            "USB 2.0: USB-C Right",
            "USB 3.2 Gen 2: USB-A Left",
            "USB 3.2 Gen 2: USB-A Right",
            "USB 3.2 Gen 2: USB-C Left",
            "USB 3.2 Gen 2: USB-C Right",
        ]
    );
    assert_eq!(all_ports().len(), 8);
}

#[test]
fn wholesale_failure_message() {
    let text = bench_failure_text(&"connection lost".to_string());
    assert_eq!(text, "Benchmark failed to run: connection lost");
}
