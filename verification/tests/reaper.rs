use backend_supervisor::reaper::{stale_pids, ReapSession, SETTLE_MILLIS};
use backend_supervisor::signal::{GracefulTerminator, SignalOutcome};
use backend_supervisor::signature::{BackendSignature, RunningProcessView};

fn texts(items: &[&str]) -> Vec<String> {
    items.iter().map(|item| item.to_string()).collect()
}

fn backend() -> BackendSignature {
    BackendSignature {
        executable_basename: "python".to_string(),
        trailing_args: texts(&["../backend.py"]),
    }
}

fn entry(pid: u32, command_vector: &[&str]) -> RunningProcessView {
    RunningProcessView { pid, command_vector: texts(command_vector) }
}

#[test]
fn only_the_interpreter_running_the_backend_is_signalled() {
    let table = vec![
        entry(100, &["python", "../backend.py"]),
        entry(200, &["python", "other_script.py"]),
    ];
    assert_eq!(stale_pids(&backend(), &table), vec![100]);
}

#[test]
fn shared_interpreter_names_are_never_signalled() {
    let table = vec![
        entry(1, &["/usr/bin/python", "manage.py", "runserver"]),
        entry(2, &["python"]),
        entry(3, &["python", "../backend.py", "--debug"]),
        entry(4, &["Python", "backend.py"]),
    ];
    assert_eq!(stale_pids(&backend(), &table), Vec::<u32>::new());
}

#[test]
fn every_match_is_picked_in_table_order() {
    let table = vec![
        entry(30, &["/usr/bin/python", "../backend.py"]),
        entry(10, &["bash"]),
        entry(20, &["PYTHON", "-u", "../backend.py"]),
        entry(5, &[]),
        entry(40, &["python", "../backend.py"]),
    ];
    assert_eq!(stale_pids(&backend(), &table), vec![30, 20, 40]);
}

#[test]
fn removing_a_spared_process_changes_nothing() {
    let mut table = vec![
        entry(30, &["python", "../backend.py"]),
        entry(31, &["python", "other_script.py"]),
        entry(32, &["python", "../backend.py"]),
    ];
    let with_it = stale_pids(&backend(), &table);
    table.remove(1);
    assert_eq!(with_it, stale_pids(&backend(), &table));
    assert_eq!(with_it, vec![30, 32]);
}

#[test]
fn empty_table_gives_an_empty_plan() {
    assert_eq!(stale_pids(&backend(), &vec![]), Vec::<u32>::new());
    let session = ReapSession::over(&backend(), vec![]);
    assert_eq!(session.next_target(), None);
    assert_eq!(session.handled(), 0);
}

#[test]
fn session_keeps_the_table_and_plans_its_matches() {
    let table = vec![
        entry(7, &["python", "../backend.py"]),
        entry(8, &["python", "other_script.py"]),
        entry(9, &["/bin/python", "../backend.py"]),
    ];
    let session = ReapSession::over(&backend(), table.clone());
    assert_eq!(session.observed(), &table);
    assert_eq!(session.plan(), &vec![7, 9]);
    assert_eq!(session.handled(), 0);
    assert_eq!(session.next_target(), Some(7));
}

#[test]
fn delivered_signal_is_followed_by_the_settle_pause() {
    let mut session = ReapSession::over(&backend(), vec![entry(7, &["python", "../backend.py"])]);
    assert_eq!(SETTLE_MILLIS, 100);
    assert_eq!(session.record(SignalOutcome::Delivered), 100);
    assert_eq!(session.handled(), 1);
    assert_eq!(session.next_target(), None);
}

#[test]
fn failed_signal_does_not_end_the_scan() {
    let table = vec![
        entry(7, &["python", "../backend.py"]),
        entry(8, &["python", "../backend.py"]),
        entry(9, &["python", "../backend.py"]),
    ];
    let mut session = ReapSession::over(&backend(), table);
    let mut visited = Vec::new();
    let mut pauses = Vec::new();
    let outcomes = [SignalOutcome::Failed, SignalOutcome::Undeliverable, SignalOutcome::Delivered];
    for outcome in outcomes {
        visited.push(session.next_target().unwrap());
        pauses.push(session.record(outcome));
    }
    assert_eq!(visited, vec![7, 8, 9]);
    assert_eq!(pauses, vec![0, 0, 100]);
    assert_eq!(session.next_target(), None);
}

#[test]
fn recording_after_the_pass_is_over_changes_nothing() {
    let mut session = ReapSession::over(&backend(), vec![entry(7, &["python", "../backend.py"])]);
    assert_eq!(session.record(SignalOutcome::Failed), 0);
    assert_eq!(session.handled(), 1);
    assert_eq!(session.record(SignalOutcome::Delivered), 0);
    assert_eq!(session.handled(), 1);
    assert_eq!(session.next_target(), None);
    assert_eq!(session.plan(), &vec![7]);
}

#[test]
fn scan_plans_exactly_the_matches_of_the_table_it_read() {
    let signature = BackendSignature {
        executable_basename: "backend-supervisor-test-binary".to_string(),
        trailing_args: texts(&["--no-process-ends-like-this-a7c1e5"]),
    };
    let session = ReapSession::scan(&signature, GracefulTerminator::SignalCapable);
    assert_eq!(session.handled(), 0);
    assert_eq!(session.plan(), &stale_pids(&signature, session.observed()));
    assert_eq!(session.plan(), &Vec::<u32>::new());
    assert_eq!(session.next_target(), None);
}

#[test]
fn scan_sees_the_processes_of_the_machine() {
    let nameless = BackendSignature { executable_basename: String::new(), trailing_args: vec![] };
    let session = ReapSession::scan(&nameless, GracefulTerminator::SignalCapable);
    assert!(!session.observed().is_empty());
    for seen in session.observed() {
        if seen.command_vector.is_empty() {
            continue;
        }
        let own = BackendSignature {
            executable_basename: backend_supervisor::path::basename(&seen.command_vector[0]),
            trailing_args: seen.command_vector[1..].to_vec(),
        };
        assert!(stale_pids(&own, session.observed()).contains(&seen.pid));
    }
}

#[test]
fn platform_without_a_graceful_signal_reaps_nothing() {
    let nameless = BackendSignature { executable_basename: String::new(), trailing_args: vec![] };
    let session = ReapSession::scan(&nameless, GracefulTerminator::SignalIncapable);
    assert_eq!(session.observed(), &Vec::<RunningProcessView>::new());
    assert_eq!(session.plan(), &Vec::<u32>::new());
    assert_eq!(session.next_target(), None);
}

#[test]
fn scan_reads_the_table_anew_each_time() {
    let nameless = BackendSignature { executable_basename: String::new(), trailing_args: vec![] };
    let first = ReapSession::scan(&nameless, GracefulTerminator::SignalCapable);
    let second = ReapSession::scan(&nameless, GracefulTerminator::SignalCapable);
    assert_eq!(first.plan(), &stale_pids(&nameless, first.observed()));
    assert_eq!(second.plan(), &stale_pids(&nameless, second.observed()));
}
