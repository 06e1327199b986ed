use backend_supervisor::signal::{outcome_of_answer, send_graceful, signal_target, SignalOutcome};

#[test]
fn positive_pids_within_range_are_signalable() {
    assert_eq!(signal_target(1), Some(1));
    assert_eq!(signal_target(4242), Some(4242));
    assert_eq!(signal_target(2147483647), Some(i32::MAX));
}

#[test]
fn pids_that_address_groups_are_not_signalable() {
    assert_eq!(signal_target(0), None);
    assert_eq!(signal_target(2147483648), None);
    assert_eq!(signal_target(u32::MAX), None);
}

#[test]
fn nothing_is_sent_to_a_pid_that_addresses_no_single_process() {
    assert_eq!(send_graceful(0), SignalOutcome::Undeliverable);
    assert_eq!(send_graceful(2147483648), SignalOutcome::Undeliverable);
    assert_eq!(send_graceful(u32::MAX), SignalOutcome::Undeliverable);
}

#[test]
fn signal_to_a_process_that_does_not_exist_fails() {
    assert_eq!(send_graceful(2147483647), SignalOutcome::Failed);
}

#[test]
fn answer_of_the_operating_system_becomes_the_outcome() {
    assert_eq!(outcome_of_answer(true), SignalOutcome::Delivered);
    assert_eq!(outcome_of_answer(false), SignalOutcome::Failed);
}
