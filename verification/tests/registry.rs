//! The terminal registry: quota, lifecycle, the reaper, and resizing.

use webshell::error::TerminalError;
use webshell::session::{BackendKind, ResizeOutcome, SessionManager, TerminalConfig};

fn manager(max_terminals: usize, idle_timeout: u64) -> SessionManager {
    SessionManager::new(TerminalConfig { max_terminals, idle_timeout })
}

#[test]
fn quota_is_enforced() {
    let mut m = manager(2, 60);
    assert!(m.create("t1", 80, 24, BackendKind::Local, 0).is_ok());
    assert!(m.create("t2", 80, 24, BackendKind::Local, 0).is_ok());
    let r = m.create("t3", 80, 24, BackendKind::Local, 0);
    assert!(matches!(r, Err(TerminalError::MaxTerminalsReached)));
    assert_eq!(m.len(), 2);
    assert!(m.get_session("t3").is_none());
}

#[test]
fn duplicate_id_is_refused() {
    let mut m = manager(10, 60);
    assert!(m.create("t1", 80, 24, BackendKind::Local, 0).is_ok());
    let r = m.create("t1", 80, 24, BackendKind::Local, 1);
    assert!(matches!(r, Err(TerminalError::AlreadyExists(id)) if id == "t1"));
    assert_eq!(m.len(), 1);
}

#[test]
fn close_twice_returns_not_found() {
    let mut m = manager(10, 60);
    m.create("t1", 80, 24, BackendKind::Local, 0).unwrap();
    m.create("t2", 80, 24, BackendKind::Remote, 0).unwrap();
    assert!(m.close("t1").is_ok());
    let r = m.close("t1");
    assert!(matches!(r, Err(TerminalError::NotFound(id)) if id == "t1"));
    // The other terminal is untouched.
    let rec = m.get_session("t2").unwrap();
    assert_eq!(rec.cols, 80);
    assert!(matches!(rec.kind, BackendKind::Remote));
}

#[test]
fn input_goes_to_live_terminals_only() {
    let mut m = manager(10, 60);
    m.create("t1", 80, 24, BackendKind::Local, 0).unwrap();
    assert!(m.send_input("t1", b"echo hello\n", 5).is_ok());
    assert_eq!(m.get_session("t1").unwrap().last_activity, 5);
    let r = m.send_input("nope", b"x", 6);
    assert!(matches!(r, Err(TerminalError::NotFound(_))));
}

#[test]
fn closed_input_queue_yields_send_error() {
    let mut m = manager(10, 60);
    m.create("t1", 80, 24, BackendKind::Local, 0).unwrap();
    m.mark_input_closed("t1");
    let r = m.send_input("t1", b"x", 9);
    assert!(matches!(r, Err(TerminalError::SendError(_))));
    // The terminal was found, so its activity was still refreshed.
    assert_eq!(m.get_session("t1").unwrap().last_activity, 9);
}

#[test]
fn resize_with_unchanged_dimensions_is_a_noop() {
    let mut m = manager(10, 60);
    m.create("t1", 80, 24, BackendKind::Local, 0).unwrap();
    assert_eq!(m.resize("t1", 80, 24, 1).unwrap(), ResizeOutcome::Unchanged);
    assert_eq!(m.resize("t1", 120, 40, 2).unwrap(), ResizeOutcome::Resized);
    let rec = m.get_session("t1").unwrap();
    assert_eq!((rec.cols, rec.rows), (120, 40));
    assert!(matches!(
        m.resize("nope", 1, 1, 3),
        Err(TerminalError::NotFound(_))
    ));
}

#[test]
fn reaper_removes_idle_disconnected_terminals() {
    let mut m = manager(10, 2);
    m.create("t1", 80, 24, BackendKind::Local, 0).unwrap();
    m.disconnect("t1");
    let removed = m.reap(90);
    assert_eq!(removed, vec!["t1".to_string()]);
    assert!(m.get_session("t1").is_none());
    assert!(matches!(
        m.send_input("t1", b"x", 91),
        Err(TerminalError::NotFound(_))
    ));
}

#[test]
fn reaper_spares_connected_and_recent_terminals() {
    let mut m = manager(10, 60);
    m.create("busy", 80, 24, BackendKind::Local, 0).unwrap();
    m.create("young", 80, 24, BackendKind::Local, 50).unwrap();
    m.create("idle", 80, 24, BackendKind::Local, 0).unwrap();
    m.disconnect("young");
    m.disconnect("idle");
    let removed = m.reap(100);
    assert_eq!(removed, vec!["idle".to_string()]);
    assert!(m.get_session("busy").is_some());
    assert!(m.get_session("young").is_some());
    assert!(m.get_session("idle").is_none());
}

#[test]
fn terminal_survives_disconnect_for_reconnection() {
    let mut m = manager(10, 60);
    m.create("t1", 80, 24, BackendKind::Local, 0).unwrap();
    m.disconnect("t1");
    assert!(!m.get_session("t1").unwrap().connected);
    // Within the idle timeout the terminal is still there.
    let removed = m.reap(30);
    assert!(removed.is_empty());
    assert!(m.reconnect("t1"));
    assert!(m.get_session("t1").unwrap().connected);
    assert!(m.send_input("t1", b"still here\n", 31).is_ok());
}

#[test]
fn default_terminal_config() {
    let c = TerminalConfig::default();
    assert_eq!(c.max_terminals, 10);
    assert_eq!(c.idle_timeout, 3600);
}
