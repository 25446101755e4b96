use pty_session::process::{
    pid_from_raw, termination_plan, usable_group, wait_step, ProcessWaitResult, TerminationStep,
    WaitSignal, WaitStep,
};

#[test]
fn completion_returns_output() {
    let (step, kill) = wait_step(WaitSignal::Exited("out".to_string()), Some(9));
    assert!(matches!(step, WaitStep::Finish(ProcessWaitResult::Completed(o)) if o == "out"));
    assert_eq!(kill, None);
}

#[test]
fn cancellation_kills_known_pid() {
    let (step, kill) = wait_step(WaitSignal::<String>::CancelRequested, Some(9));
    assert!(matches!(step, WaitStep::Finish(ProcessWaitResult::Cancelled)));
    assert_eq!(kill, Some(9));
    let (step, kill) = wait_step(WaitSignal::<String>::CancelRequested, None);
    assert!(matches!(step, WaitStep::Finish(ProcessWaitResult::Cancelled)));
    assert_eq!(kill, None);
}

#[test]
fn stop_and_child_change() {
    let (step, _) = wait_step(WaitSignal::<String>::JobStopped, Some(1));
    assert!(matches!(step, WaitStep::Finish(ProcessWaitResult::Stopped)));
    let (step, _) =
        wait_step(WaitSignal::<String>::ChildStateChanged { stopped_child_found: true }, Some(1));
    assert!(matches!(step, WaitStep::Finish(ProcessWaitResult::Stopped)));
    let (step, kill) =
        wait_step(WaitSignal::<String>::ChildStateChanged { stopped_child_found: false }, Some(1));
    assert!(matches!(step, WaitStep::Continue));
    assert_eq!(kill, None);
}

#[test]
fn interrupt_keeps_waiting() {
    let (step, kill) = wait_step(WaitSignal::<String>::Interrupted, Some(1));
    assert!(matches!(step, WaitStep::Continue));
    assert_eq!(kill, None);
}

#[test]
fn full_termination_plan() {
    assert_eq!(
        termination_plan(Some(10), Some(20)),
        vec![
            TerminationStep::Group { pgid: 20, signal: 15 },
            TerminationStep::Tree { pid: 10, signal: 15 },
            TerminationStep::Child,
            TerminationStep::Group { pgid: 20, signal: 9 },
            TerminationStep::Tree { pid: 10, signal: 9 },
        ]
    );
}

#[test]
fn termination_plan_without_ids() {
    assert_eq!(termination_plan(None, None), vec![TerminationStep::Child]);
    assert_eq!(
        termination_plan(Some(3), None),
        vec![
            TerminationStep::Tree { pid: 3, signal: 15 },
            TerminationStep::Child,
            TerminationStep::Tree { pid: 3, signal: 9 },
        ]
    );
}

#[test]
fn ids_that_may_be_signalled() {
    assert_eq!(pid_from_raw(42), Some(42));
    assert_eq!(pid_from_raw(u32::MAX), None);
    assert_eq!(usable_group(Some(0)), None);
    assert_eq!(usable_group(Some(-4)), None);
    assert_eq!(usable_group(Some(12)), Some(12));
    assert_eq!(usable_group(None), None);
}
