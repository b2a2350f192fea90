use python_executor::btypes::OutputLimits;
use python_executor::btypes::RunCommandRequest;
use python_executor::docker::DockerError;
use python_executor::output::StreamKind;
use python_executor::record::Action;
use python_executor::record::Event;
use python_executor::record::ExecutionRecord;
use python_executor::record::ExecutionState;

fn record() -> ExecutionRecord {
    ExecutionRecord::new(RunCommandRequest::new(String::from("e1")), 10)
}

fn running() -> ExecutionRecord {
    let mut r = record();
    assert!(matches!(r.apply(Event::Prepare, 11), Action::Pull));
    assert!(matches!(r.apply(Event::Pulled, 11), Action::Launch));
    assert!(matches!(r.apply(Event::Started(String::from("c1")), 12), Action::Idle));
    r
}

#[test]
fn fresh_record_is_pending() {
    let r = record();
    assert_eq!(r.state(), ExecutionState::Pending);
    assert_eq!(r.execution_id(), "e1");
    assert_eq!(r.created_at(), 10);
    assert_eq!(r.finished_at(), None);
    assert!(!r.cancel_requested());
    assert!(r.result().is_none());
}

#[test]
fn natural_run_completes_with_exit_code() {
    let mut r = running();
    assert_eq!(r.state(), ExecutionState::Running);
    r.apply(Event::Output(StreamKind::Stdout, b"hi".to_vec()), 13);
    r.apply(Event::Output(StreamKind::Stderr, b"warn".to_vec()), 13);
    assert!(matches!(r.apply(Event::Exited(3), 14), Action::Idle));
    assert_eq!(r.state(), ExecutionState::Completed);
    assert_eq!(r.finished_at(), Some(14));
    let res = r.result().unwrap();
    assert_eq!(res.stdout, "hi");
    assert_eq!(res.stderr, "warn");
    assert_eq!(res.exit_code, 3);
    assert_eq!(res.error_msg, None);
    assert!(!res.stdout_truncated);
    assert!(!res.stderr_truncated);
}

#[test]
fn result_is_the_same_when_read_again() {
    let mut r = running();
    r.apply(Event::Output(StreamKind::Stdout, b"out".to_vec()), 13);
    r.apply(Event::Exited(0), 14);
    let a = r.result().unwrap();
    let b = r.result().unwrap();
    assert_eq!(a.stdout, b.stdout);
    assert_eq!(a.stderr, b.stderr);
    assert_eq!(a.exit_code, b.exit_code);
    assert_eq!(a.error_msg, b.error_msg);
    assert_eq!(a.stdout_truncated, b.stdout_truncated);
}

#[test]
fn terminal_record_takes_no_event() {
    let mut r = running();
    r.apply(Event::Exited(0), 14);
    assert!(matches!(r.apply(Event::Cancel, 15), Action::Idle));
    assert!(matches!(r.apply(Event::Output(StreamKind::Stdout, b"late".to_vec()), 15), Action::Idle));
    assert!(matches!(r.apply(Event::Exited(9), 15), Action::Idle));
    assert!(matches!(r.apply(Event::Prepare, 15), Action::Idle));
    assert!(matches!(r.apply(Event::Pulled, 15), Action::Idle));
    assert!(matches!(r.apply(Event::GraceExpired, 15), Action::Idle));
    assert_eq!(r.state(), ExecutionState::Completed);
    assert_eq!(r.finished_at(), Some(14));
    let res = r.result().unwrap();
    assert_eq!(res.stdout, "");
    assert_eq!(res.exit_code, 0);
    assert!(!r.cancel_requested());
}

#[test]
fn pull_failure_fails_with_its_category() {
    let mut r = record();
    r.apply(Event::Prepare, 11);
    r.apply(Event::Failed(DockerError::PullError(String::from("no such image"))), 12);
    assert_eq!(r.state(), ExecutionState::Failed);
    let res = r.result().unwrap();
    assert_eq!(res.error_msg.as_deref(), Some("Failed to pull image: no such image"));
}

#[test]
fn connectivity_failure_fails_with_its_category() {
    let mut r = record();
    r.apply(Event::Prepare, 11);
    r.apply(Event::Failed(DockerError::ConnectionFailure(String::from("refused"))), 12);
    assert_eq!(r.state(), ExecutionState::Failed);
    let res = r.result().unwrap();
    assert_eq!(res.error_msg.as_deref(), Some("Failed to connect to docker: refused"));
}

#[test]
fn failure_while_running_keeps_the_output() {
    let mut r = running();
    r.apply(Event::Output(StreamKind::Stdout, b"partial".to_vec()), 13);
    r.apply(Event::Failed(DockerError::ContainerFailure(String::from("oom"))), 14);
    assert_eq!(r.state(), ExecutionState::Failed);
    let res = r.result().unwrap();
    assert_eq!(res.stdout, "partial");
    assert_eq!(res.error_msg.as_deref(), Some("Container failed: oom"));
}

#[test]
fn cancel_while_pending_ends_at_once() {
    let mut r = record();
    assert!(matches!(r.apply(Event::Cancel, 11), Action::Idle));
    assert_eq!(r.state(), ExecutionState::Cancelled);
    assert_eq!(r.finished_at(), Some(11));
    assert!(r.cancel_requested());
}

#[test]
fn cancel_while_preparing_asks_to_stop_without_handle() {
    let mut r = record();
    r.apply(Event::Prepare, 11);
    match r.apply(Event::Cancel, 12) {
        Action::Stop(None) => {}
        other => panic!("expected a stop without handle, got {:?}", other),
    }
    assert_eq!(r.state(), ExecutionState::Preparing);
    assert!(matches!(r.apply(Event::Pulled, 13), Action::Idle));
    assert_eq!(r.state(), ExecutionState::Cancelled);
    assert_eq!(r.finished_at(), Some(13));
}

#[test]
fn cancel_between_pull_and_start_stops_the_container() {
    let mut r = record();
    r.apply(Event::Prepare, 11);
    assert!(matches!(r.apply(Event::Pulled, 12), Action::Launch));
    match r.apply(Event::Cancel, 12) {
        Action::Stop(None) => {}
        other => panic!("expected a stop without handle, got {:?}", other),
    }
    match r.apply(Event::Started(String::from("c9")), 13) {
        Action::Stop(Some(h)) => assert_eq!(h, "c9"),
        other => panic!("expected a stop, got {:?}", other),
    }
    assert_eq!(r.state(), ExecutionState::Running);
    r.apply(Event::Stopped, 14);
    assert_eq!(r.state(), ExecutionState::Cancelled);
}

#[test]
fn a_container_that_starts_too_late_is_killed() {
    let mut r = record();
    r.apply(Event::Prepare, 11);
    r.apply(Event::Pulled, 12);
    r.apply(Event::Cancel, 13);
    r.apply(Event::GraceExpired, 14);
    assert_eq!(r.state(), ExecutionState::Cancelled);
    match r.apply(Event::Started(String::from("late")), 15) {
        Action::Kill(Some(h)) => assert_eq!(h, "late"),
        other => panic!("expected a kill, got {:?}", other),
    }
    assert_eq!(r.state(), ExecutionState::Cancelled);
    assert_eq!(r.finished_at(), Some(14));
}

#[test]
fn a_second_container_is_killed_and_the_first_goes_on() {
    let mut r = running();
    match r.apply(Event::Started(String::from("c2")), 13) {
        Action::Kill(Some(h)) => assert_eq!(h, "c2"),
        other => panic!("expected a kill, got {:?}", other),
    }
    assert!(matches!(r.apply(Event::Started(String::from("c1")), 13), Action::Idle));
    assert_eq!(r.state(), ExecutionState::Running);
    match r.apply(Event::Cancel, 14) {
        Action::Stop(Some(h)) => assert_eq!(h, "c1"),
        other => panic!("expected a stop, got {:?}", other),
    }
}

#[test]
fn the_image_is_pulled_once() {
    let mut r = record();
    assert!(matches!(r.apply(Event::Pulled, 10), Action::Idle));
    assert_eq!(r.state(), ExecutionState::Pending);
    r.apply(Event::Prepare, 11);
    assert!(matches!(r.apply(Event::Prepare, 11), Action::Idle));
    assert!(matches!(r.apply(Event::Pulled, 12), Action::Launch));
    assert!(matches!(r.apply(Event::Pulled, 12), Action::Idle));
    assert_eq!(r.state(), ExecutionState::Preparing);
}

#[test]
fn a_container_without_an_image_is_killed() {
    let mut r = record();
    r.apply(Event::Prepare, 11);
    match r.apply(Event::Started(String::from("early")), 12) {
        Action::Kill(Some(h)) => assert_eq!(h, "early"),
        other => panic!("expected a kill, got {:?}", other),
    }
    assert_eq!(r.state(), ExecutionState::Preparing);
}

#[test]
fn cancel_while_running_stops_then_kills_after_grace() {
    let mut r = running();
    match r.apply(Event::Cancel, 13) {
        Action::Stop(Some(h)) => assert_eq!(h, "c1"),
        other => panic!("expected a stop, got {:?}", other),
    }
    assert_eq!(r.state(), ExecutionState::Running);
    assert!(matches!(r.apply(Event::Cancel, 14), Action::Idle));
    match r.apply(Event::GraceExpired, 15) {
        Action::Kill(Some(h)) => assert_eq!(h, "c1"),
        other => panic!("expected a kill, got {:?}", other),
    }
    assert_eq!(r.state(), ExecutionState::Cancelled);
    assert_eq!(r.result().unwrap().error_msg, None);
}

#[test]
fn exit_before_cancel_is_completed() {
    let mut r = running();
    r.apply(Event::Exited(0), 13);
    r.apply(Event::Cancel, 14);
    assert_eq!(r.state(), ExecutionState::Completed);
}

#[test]
fn cancel_before_exit_is_cancelled() {
    let mut r = running();
    r.apply(Event::Cancel, 13);
    r.apply(Event::Exited(137), 14);
    assert_eq!(r.state(), ExecutionState::Cancelled);
    assert_eq!(r.result().unwrap().exit_code, 137);
}

#[test]
fn failure_after_cancel_is_cancelled() {
    let mut r = running();
    r.apply(Event::Cancel, 13);
    r.apply(Event::Failed(DockerError::ContainerFailure(String::from("killed"))), 14);
    assert_eq!(r.state(), ExecutionState::Cancelled);
    assert_eq!(r.result().unwrap().error_msg, None);
}

#[test]
fn events_that_do_not_fit_change_nothing() {
    let mut r = record();
    assert!(matches!(r.apply(Event::Started(String::from("c")), 11), Action::Kill(Some(_))));
    assert!(matches!(r.apply(Event::Exited(1), 11), Action::Idle));
    assert!(matches!(r.apply(Event::Stopped, 11), Action::Idle));
    assert!(matches!(r.apply(Event::GraceExpired, 11), Action::Idle));
    assert!(matches!(r.apply(Event::Output(StreamKind::Stdout, b"x".to_vec()), 11), Action::Idle));
    assert!(matches!(
        r.apply(Event::Failed(DockerError::PullError(String::from("x"))), 11),
        Action::Idle
    ));
    assert_eq!(r.state(), ExecutionState::Pending);
    assert_eq!(r.captured(StreamKind::Stdout), Vec::<u8>::new());
    let mut r = running();
    assert!(matches!(r.apply(Event::Prepare, 20), Action::Idle));
    assert!(matches!(r.apply(Event::Stopped, 20), Action::Idle));
    assert!(matches!(r.apply(Event::GraceExpired, 20), Action::Idle));
    assert_eq!(r.state(), ExecutionState::Running);
}

#[test]
fn output_limits_of_the_job_are_applied() {
    let mut job = RunCommandRequest::new(String::from("e2"));
    job.output_limits = Some(OutputLimits {
        max_stdout_file_length: 10,
        max_stdout_return_length: 4,
        max_stderr_file_length: 10,
        max_stderr_return_length: 10,
    });
    let mut r = ExecutionRecord::new(job, 0);
    r.apply(Event::Prepare, 1);
    r.apply(Event::Pulled, 1);
    r.apply(Event::Started(String::from("c")), 2);
    r.apply(Event::Output(StreamKind::Stdout, vec![b'a'; 25]), 3);
    r.apply(Event::Exited(0), 4);
    assert_eq!(r.captured(StreamKind::Stdout).len(), 10);
    assert!(r.truncated(StreamKind::Stdout));
    let res = r.result().unwrap();
    assert_eq!(res.stdout, "aaaa");
    assert!(res.stdout_truncated);
    assert!(!res.stderr_truncated);
}

#[test]
fn output_that_is_not_utf8_is_replaced() {
    let mut r = running();
    r.apply(Event::Output(StreamKind::Stdout, vec![b'a', 0xff, b'b']), 13);
    r.apply(Event::Exited(0), 14);
    assert_eq!(r.result().unwrap().stdout, "a\u{fffd}b");
}

#[test]
fn readers_of_a_record_end_when_it_ends() {
    let mut r = running();
    let id = r.subscribe(true, true);
    r.apply(Event::Output(StreamKind::Stdout, b"x".to_vec()), 13);
    assert!(matches!(r.poll(id), python_executor::output::Delivery::Data(_)));
    assert!(matches!(r.poll(id), python_executor::output::Delivery::Pending));
    r.apply(Event::Exited(0), 14);
    assert!(matches!(r.poll(id), python_executor::output::Delivery::Closed));
    r.detach(id);
    assert_eq!(r.state(), ExecutionState::Completed);
}

#[test]
fn terminal_states_are_terminal() {
    assert!(ExecutionState::Completed.is_terminal());
    assert!(ExecutionState::Failed.is_terminal());
    assert!(ExecutionState::Cancelled.is_terminal());
    assert!(!ExecutionState::Pending.is_terminal());
    assert!(!ExecutionState::Preparing.is_terminal());
    assert!(!ExecutionState::Running.is_terminal());
}
