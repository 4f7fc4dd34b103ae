//! The pseudo-terminal table, the spawn command plan, the remote channel
//! classification, the error messages, and the shared value types.

use webshell::error::TerminalError;
use webshell::pty::{default_shell_for, spawn_command_plan, PtyManager};
use webshell::ssh::{classify_channel_event, ChannelEvent, ReadStep};
use webshell::types::{generate_terminal_id, CursorStyle, TerminalSession, TerminalSettings};

#[test]
fn pty_table_tracks_ids() {
    let mut p = PtyManager::new();
    assert!(p.spawn("t1").is_ok());
    assert!(matches!(
        p.spawn("t1"),
        Err(TerminalError::AlreadyExists(id)) if id == "t1"
    ));
    assert!(p.resize("t1").is_ok());
    assert!(matches!(p.resize("t2"), Err(TerminalError::NotFound(_))));
    assert!(p.close("t1").is_ok());
    assert!(matches!(p.close("t1"), Err(TerminalError::NotFound(_))));
}

#[test]
fn command_plan_is_a_login_shell_with_term_set() {
    let env = vec![("LANG".to_string(), "C.UTF-8".to_string())];
    let plan = spawn_command_plan("/bin/zsh".to_string(), Some("/srv/ws".to_string()), env);
    assert_eq!(plan.program, "/bin/zsh");
    assert_eq!(plan.args, vec!["--login".to_string()]);
    assert_eq!(plan.cwd, Some("/srv/ws".to_string()));
    assert_eq!(plan.env.len(), 2);
    assert_eq!(plan.env[0], ("LANG".to_string(), "C.UTF-8".to_string()));
    assert_eq!(plan.env[1], ("TERM".to_string(), "xterm-256color".to_string()));
}

#[test]
fn shell_comes_from_the_environment_or_bash() {
    assert_eq!(default_shell_for(Some("/bin/fish".to_string())), "/bin/fish");
    assert_eq!(default_shell_for(None), "/bin/bash");
}

#[test]
fn channel_events_classify_exactly() {
    match classify_channel_event(ChannelEvent::Data(vec![1, 2, 3])) {
        ReadStep::Emit(b) => assert_eq!(b, vec![1, 2, 3]),
        other => panic!("expected an emit, got {:?}", other),
    }
    match classify_channel_event(ChannelEvent::ExtendedData(vec![9])) {
        ReadStep::Emit(b) => assert_eq!(b, vec![9]),
        other => panic!("expected an emit, got {:?}", other),
    }
    assert!(matches!(
        classify_channel_event(ChannelEvent::Eof),
        ReadStep::EndOfStream
    ));
    assert!(matches!(
        classify_channel_event(ChannelEvent::Closed),
        ReadStep::EndOfStream
    ));
    assert!(matches!(
        classify_channel_event(ChannelEvent::Other),
        ReadStep::Skip
    ));
}

#[test]
fn error_messages_are_exact() {
    assert_eq!(
        TerminalError::NotFound("t1".to_string()).message(),
        "Terminal not found: t1"
    );
    assert_eq!(
        TerminalError::AlreadyExists("t1".to_string()).message(),
        "Terminal already exists: t1"
    );
    assert_eq!(
        TerminalError::PtyError("boom".to_string()).message(),
        "PTY error: boom"
    );
    assert_eq!(
        TerminalError::ProcessExited.message(),
        "Terminal process exited"
    );
    assert_eq!(
        TerminalError::SendError("input queue closed".to_string()).message(),
        "Send error: input queue closed"
    );
    assert_eq!(
        TerminalError::MaxTerminalsReached.message(),
        "Maximum terminals reached"
    );
}

#[test]
fn terminal_ids_are_uuid_shaped_and_distinct() {
    let a = generate_terminal_id();
    let b = generate_terminal_id();
    assert_eq!(a.len(), 36);
    assert_ne!(a, b);
    for pos in [8, 13, 18, 23] {
        assert_eq!(a.as_bytes()[pos], b'-');
    }
}

#[test]
fn terminal_session_is_numbered() {
    let s = TerminalSession::new(3);
    assert_eq!(s.name, "Terminal 3");
    assert_eq!(s.id.len(), 36);
    let s = TerminalSession::new(12);
    assert_eq!(s.name, "Terminal 12");
}

#[test]
fn default_settings_match_documented_values() {
    let s = TerminalSettings::default();
    assert_eq!(s.font_size, 14);
    assert_eq!(s.font_family, "'JetBrains Mono', 'Fira Code', Consolas, monospace");
    assert_eq!(s.cursor_style, CursorStyle::Block);
    assert!(s.cursor_blink);
    assert_eq!(s.scrollback, 10000);
}
