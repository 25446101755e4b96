use pty_session::control::{
    clamp_cols, clamp_rows, ControlMessage, PtyRunConfig, PtyStartOptions, TerminalSize,
};

#[test]
fn resize_below_bounds_is_clamped_up() {
    assert!(matches!(
        ControlMessage::resize(0, 1),
        ControlMessage::Resize { cols: 20, rows: 5 }
    ));
}

#[test]
fn resize_above_bounds_is_clamped_down() {
    assert!(matches!(
        ControlMessage::resize(1000, 900),
        ControlMessage::Resize { cols: 400, rows: 200 }
    ));
}

#[test]
fn resize_within_bounds_is_kept() {
    assert!(matches!(
        ControlMessage::resize(80, 24),
        ControlMessage::Resize { cols: 80, rows: 24 }
    ));
    assert!(matches!(
        ControlMessage::resize(20, 200),
        ControlMessage::Resize { cols: 20, rows: 200 }
    ));
}

#[test]
fn clamp_edges() {
    assert_eq!(clamp_cols(19), 20);
    assert_eq!(clamp_cols(400), 400);
    assert_eq!(clamp_cols(401), 400);
    assert_eq!(clamp_cols(u16::MAX), 400);
    assert_eq!(clamp_rows(4), 5);
    assert_eq!(clamp_rows(201), 200);
}

#[test]
fn requested_size_defaults() {
    assert_eq!(TerminalSize::requested(None, None), TerminalSize { cols: 120, rows: 40 });
    assert_eq!(TerminalSize::requested(Some(10), None), TerminalSize { cols: 20, rows: 40 });
    assert_eq!(TerminalSize::requested(None, Some(500)), TerminalSize { cols: 120, rows: 200 });
}

#[test]
fn run_config_clamps_size_and_keeps_the_rest() {
    let options = PtyStartOptions {
        command: "echo hi".to_string(),
        cwd: Some("/tmp".to_string()),
        env: Some(vec![("A".to_string(), "1".to_string())]),
        timeout_ms: Some(5),
        cols: Some(1),
        rows: Some(1000),
    };
    let config = PtyRunConfig::from_options(options);
    assert_eq!(config.command, "echo hi");
    assert_eq!(config.cwd.as_deref(), Some("/tmp"));
    assert_eq!(config.env, Some(vec![("A".to_string(), "1".to_string())]));
    assert_eq!(config.size, TerminalSize { cols: 20, rows: 200 });
}

#[test]
fn input_and_kill_messages() {
    assert!(matches!(ControlMessage::input("ls\n".to_string()), ControlMessage::Input(s) if s == "ls\n"));
    assert!(matches!(ControlMessage::kill(), ControlMessage::Kill));
}
