use pty_session::session::{SessionError, SessionSlot};

#[test]
fn control_before_start_is_not_running() {
    let slot: SessionSlot<u32> = SessionSlot::new();
    assert!(!slot.is_running());
    assert_eq!(slot.control().err(), Some(SessionError::NotRunning));
}

#[test]
fn control_after_run_is_not_running() {
    let mut slot: SessionSlot<u32> = SessionSlot::new();
    assert_eq!(slot.begin(7), Ok(()));
    assert_eq!(slot.control().ok(), Some(&7));
    assert_eq!(slot.end(), Some(7));
    assert_eq!(slot.control().err(), Some(SessionError::NotRunning));
}

#[test]
fn second_start_is_already_running() {
    let mut slot: SessionSlot<u32> = SessionSlot::new();
    assert_eq!(slot.begin(1), Ok(()));
    assert_eq!(slot.begin(2), Err(SessionError::AlreadyRunning));
    assert!(slot.is_running());
    assert_eq!(slot.control().ok(), Some(&1));
}

#[test]
fn a_new_run_may_start_after_the_last_ended() {
    let mut slot: SessionSlot<u32> = SessionSlot::new();
    assert_eq!(slot.begin(1), Ok(()));
    assert_eq!(slot.end(), Some(1));
    assert_eq!(slot.end(), None);
    assert_eq!(slot.begin(2), Ok(()));
    assert_eq!(slot.control().ok(), Some(&2));
}
