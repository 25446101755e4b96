use pty_session::cancel::CancelToken;
use pty_session::control::{ControlMessage, PtyRunResult, TerminalSize};
use pty_session::run_loop::{
    exit_code_from_status, FinalWait, Heartbeat, LoopAction, LoopEvent, Poll, RunLoop,
};
use pty_session::utf8::Utf8Reassembler;

#[test]
fn quick_exit_without_output() {
    let mut run = RunLoop::new();
    assert!(!run.handle(LoopEvent::Beat { status: Heartbeat::Running, now: 0 }));
    assert!(!run.handle(LoopEvent::ReaderDone));
    assert!(!run.handle(LoopEvent::Exited { code: 0, now: 1 }));
    assert!(run.is_complete());
    assert_eq!(run.final_wait(), FinalWait::Known);
    assert!(run.may_join_reader());
    assert_eq!(
        run.result(),
        PtyRunResult { exit_code: Some(0), cancelled: false, timed_out: false }
    );
}

#[test]
fn hello_then_exit_three() {
    let mut decoder = Utf8Reassembler::new();
    let mut out = decoder.push(b"hel");
    out.extend(decoder.push(b"lo"));
    out.extend(decoder.finish());
    assert_eq!(out.concat(), "hello");
    let mut run = RunLoop::new();
    run.handle(LoopEvent::ReaderDone);
    run.handle(LoopEvent::Exited { code: 3, now: 10 });
    assert_eq!(run.result().exit_code, Some(3));
    assert!(!run.result().cancelled);
    assert!(!run.result().timed_out);
}

#[test]
fn timeout_terminates_once() {
    let mut run = RunLoop::new();
    assert!(run.wants_heartbeat());
    assert!(run.handle(LoopEvent::Beat { status: Heartbeat::TimedOut, now: 100 }));
    assert!(!run.wants_heartbeat());
    assert!(!run.handle(LoopEvent::Beat { status: Heartbeat::TimedOut, now: 120 }));
    assert!(!run.deadline_reached(399));
    assert!(run.deadline_reached(400));
    assert_eq!(run.final_wait(), FinalWait::Poll);
    let result = run.result();
    assert!(result.timed_out);
    assert!(!result.cancelled);
    assert_eq!(result.exit_code, None);
}

#[test]
fn external_cancel_is_cancelled_not_timed_out() {
    let mut run = RunLoop::new();
    assert!(run.handle(LoopEvent::Beat { status: Heartbeat::Cancelled, now: 5 }));
    let result = run.result();
    assert!(result.cancelled);
    assert!(!result.timed_out);
}

#[test]
fn kill_before_exit_is_cancelled() {
    let mut run = RunLoop::new();
    assert!(matches!(run.apply_control(ControlMessage::kill(), 50), LoopAction::Terminate));
    assert!(matches!(run.apply_control(ControlMessage::kill(), 60), LoopAction::Nothing));
    run.handle(LoopEvent::Exited { code: 137, now: 70 });
    run.handle(LoopEvent::ReaderDone);
    let result = run.result();
    assert!(result.cancelled);
    assert_eq!(result.exit_code, Some(137));
}

#[test]
fn kill_after_timeout_marks_cancelled_too() {
    let mut run = RunLoop::new();
    run.handle(LoopEvent::Beat { status: Heartbeat::TimedOut, now: 0 });
    assert!(!run.handle(LoopEvent::Kill { now: 1 }));
    assert!(run.result().cancelled);
    assert!(run.result().timed_out);
}

#[test]
fn reader_that_never_ends_is_bounded_after_exit() {
    let mut run = RunLoop::new();
    run.handle(LoopEvent::Exited { code: 0, now: 1000 });
    assert!(!run.is_complete());
    assert!(!run.wants_exit_poll());
    assert!(!run.deadline_reached(1299));
    assert!(run.deadline_reached(1300));
    assert!(!run.may_join_reader());
    assert_eq!(run.final_wait(), FinalWait::Known);
    assert_eq!(run.result().exit_code, Some(0));
}

#[test]
fn later_exit_is_ignored() {
    let mut run = RunLoop::new();
    run.handle(LoopEvent::Exited { code: 1, now: 0 });
    run.handle(LoopEvent::Exited { code: 2, now: 5 });
    assert_eq!(run.result().exit_code, Some(1));
}

#[test]
fn untouched_run_waits_blocking() {
    let mut run = RunLoop::new();
    assert_eq!(run.final_wait(), FinalWait::Block);
    run.record_final_exit(Some(4));
    assert_eq!(run.result().exit_code, Some(4));
    run.record_final_exit(Some(5));
    assert_eq!(run.result().exit_code, Some(4));
}

#[test]
fn input_and_resize_pass_through() {
    let mut run = RunLoop::new();
    assert!(matches!(run.apply_control(ControlMessage::input("x".to_string()), 0), LoopAction::Write(s) if s == "x"));
    assert!(matches!(
        run.apply_control(ControlMessage::resize(10, 10), 0),
        LoopAction::Resize(TerminalSize { cols: 20, rows: 10 })
    ));
    assert!(run.wants_heartbeat());
}

#[test]
fn deadline_saturates_at_the_end_of_time() {
    let mut run = RunLoop::new();
    run.handle(LoopEvent::Kill { now: u64::MAX - 1 });
    assert!(!run.deadline_reached(u64::MAX - 1));
    assert!(run.deadline_reached(u64::MAX));
}

#[test]
fn exit_status_conversion() {
    assert_eq!(exit_code_from_status(0), 0);
    assert_eq!(exit_code_from_status(255), 255);
    assert_eq!(exit_code_from_status(i32::MAX as u32), i32::MAX);
    assert_eq!(exit_code_from_status(u32::MAX), i32::MAX);
}

#[test]
fn cancel_token_times_out_and_latches() {
    let mut token = CancelToken::new(1000, Some(200));
    assert_eq!(token.heartbeat(1199), Heartbeat::Running);
    assert_eq!(token.heartbeat(1200), Heartbeat::TimedOut);
    token.abort();
    assert_eq!(token.heartbeat(1300), Heartbeat::TimedOut);
}

#[test]
fn cancel_token_abort() {
    let mut token = CancelToken::new(0, None);
    assert_eq!(token.heartbeat(u64::MAX), Heartbeat::Running);
    token.abort();
    assert_eq!(token.heartbeat(1), Heartbeat::Cancelled);
    assert_eq!(token.heartbeat(2), Heartbeat::Cancelled);
}

#[test]
fn one_tick_in_order() {
    let mut run = RunLoop::new();
    assert_eq!(run.next_poll(0), Poll::AskHeartbeat);
    run.handle(LoopEvent::Beat { status: Heartbeat::Running, now: 0 });
    assert_eq!(run.next_poll(0), Poll::TakeControl);
    run.apply_control(ControlMessage::input("a".to_string()), 0);
    run.taken();
    assert_eq!(run.next_poll(0), Poll::TakeControl);
    run.drained();
    assert_eq!(run.next_poll(0), Poll::TakeReaderEvent);
    run.taken();
    assert_eq!(run.next_poll(0), Poll::TakeReaderEvent);
    run.drained();
    assert_eq!(run.next_poll(0), Poll::PollExit);
    assert_eq!(run.next_poll(0), Poll::Sleep(16));
    assert_eq!(run.next_poll(16), Poll::AskHeartbeat);
}

#[test]
fn control_messages_per_tick_are_bounded() {
    let mut run = RunLoop::new();
    assert_eq!(run.next_poll(0), Poll::AskHeartbeat);
    for _ in 0..64 {
        assert_eq!(run.next_poll(0), Poll::TakeControl);
        run.taken();
    }
    assert_eq!(run.next_poll(0), Poll::TakeReaderEvent);
    for _ in 0..256 {
        assert_eq!(run.next_poll(0), Poll::TakeReaderEvent);
        run.taken();
    }
    assert_eq!(run.next_poll(0), Poll::PollExit);
}

#[test]
fn tick_stops_once_complete_or_at_deadline() {
    let mut run = RunLoop::new();
    run.handle(LoopEvent::Exited { code: 0, now: 0 });
    run.handle(LoopEvent::ReaderDone);
    assert_eq!(run.next_poll(0), Poll::Stop);
    let mut late = RunLoop::new();
    late.handle(LoopEvent::Exited { code: 2, now: 0 });
    assert_eq!(late.next_poll(0), Poll::AskHeartbeat);
    late.drained();
    late.drained();
    assert_eq!(late.next_poll(0), Poll::Sleep(16));
    assert_eq!(late.next_poll(300), Poll::AskHeartbeat);
    late.drained();
    late.drained();
    assert_eq!(late.next_poll(300), Poll::Stop);
    assert_eq!(late.next_poll(301), Poll::Stop);
}

#[test]
fn heartbeat_is_skipped_after_termination() {
    let mut run = RunLoop::new();
    run.handle(LoopEvent::Kill { now: 0 });
    assert_eq!(run.next_poll(0), Poll::TakeControl);
}
