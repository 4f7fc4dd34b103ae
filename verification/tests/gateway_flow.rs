//! The message gateway: upgrade gating, envelope dispatch, output
//! wrapping, and the login decision table.

use webshell::auth::SessionStore;
use webshell::config::{AuthMethod, Config, EnvValues};
use webshell::gateway::{authorize_upgrade, handle_message, login_plan, output_envelope,
    GatewayAction, LoginPlan, UpgradeDecision};
use webshell::session::{BackendKind, SessionManager, TerminalConfig};
use webshell::types::{ShellExit, ShellOutput, TerminalClose, TerminalInput, TerminalOpenRequest,
    TerminalResize, WsMessage};

fn manager() -> SessionManager {
    SessionManager::new(TerminalConfig { max_terminals: 10, idle_timeout: 60 })
}

fn local_config() -> Config {
    Config::from_env_values(EnvValues {
        port: None,
        workspace_dir: None,
        max_terminals: None,
        idle_timeout: None,
        host: None,
        ssh_port: None,
        user: None,
        password: None,
        key_path: None,
        key_data: None,
        passphrase: None,
        home: None,
    })
}

#[test]
fn upgrade_without_cookie_is_rejected() {
    let store = SessionStore::new();
    assert!(matches!(
        authorize_upgrade(&store, None),
        UpgradeDecision::Reject
    ));
}

#[test]
fn upgrade_with_unknown_token_is_rejected() {
    let mut store = SessionStore::new();
    store.create_session("alice".to_string(), 0);
    assert!(matches!(
        authorize_upgrade(&store, Some("not-a-token")),
        UpgradeDecision::Reject
    ));
}

#[test]
fn upgrade_with_valid_token_is_accepted() {
    let mut store = SessionStore::new();
    let token = store.create_session("alice".to_string(), 0);
    match authorize_upgrade(&store, Some(&token)) {
        UpgradeDecision::Accept(u) => assert_eq!(u, "alice"),
        UpgradeDecision::Reject => panic!("valid token was rejected"),
    }
}

#[test]
fn revoked_token_no_longer_upgrades() {
    let mut store = SessionStore::new();
    let token = store.create_session("alice".to_string(), 0);
    store.remove_session(&token);
    assert!(matches!(
        authorize_upgrade(&store, Some(&token)),
        UpgradeDecision::Reject
    ));
}

#[test]
fn open_then_input_flows_to_backend() {
    let mut m = manager();
    let open = WsMessage::TerminalOpen(TerminalOpenRequest {
        id: "t1".to_string(),
        cols: 80,
        rows: 24,
    });
    match handle_message(&mut m, &open, BackendKind::Local, 0) {
        Some(GatewayAction::SpawnBackend { id, cols, rows }) => {
            assert_eq!((id.as_str(), cols, rows), ("t1", 80, 24));
        }
        other => panic!("expected a spawn action, got {:?}", other),
    }
    let input = WsMessage::TerminalInput(TerminalInput {
        id: "t1".to_string(),
        input: "echo hello\n".to_string(),
    });
    match handle_message(&mut m, &input, BackendKind::Local, 1) {
        Some(GatewayAction::DeliverInput { id, data }) => {
            assert_eq!(id, "t1");
            assert_eq!(data, b"echo hello\n".to_vec());
        }
        other => panic!("expected a deliver action, got {:?}", other),
    }
}

#[test]
fn input_for_unknown_terminal_is_dropped() {
    let mut m = manager();
    let input = WsMessage::TerminalInput(TerminalInput {
        id: "ghost".to_string(),
        input: "x".to_string(),
    });
    assert!(handle_message(&mut m, &input, BackendKind::Local, 0).is_none());
}

#[test]
fn resize_envelope_changes_window_once() {
    let mut m = manager();
    let open = WsMessage::TerminalOpen(TerminalOpenRequest {
        id: "t1".to_string(),
        cols: 80,
        rows: 24,
    });
    handle_message(&mut m, &open, BackendKind::Local, 0);
    let same = WsMessage::TerminalResize(TerminalResize {
        id: "t1".to_string(),
        cols: 80,
        rows: 24,
    });
    assert!(handle_message(&mut m, &same, BackendKind::Local, 1).is_none());
    let grow = WsMessage::TerminalResize(TerminalResize {
        id: "t1".to_string(),
        cols: 120,
        rows: 40,
    });
    match handle_message(&mut m, &grow, BackendKind::Local, 2) {
        Some(GatewayAction::WindowChange { id, cols, rows }) => {
            assert_eq!((id.as_str(), cols, rows), ("t1", 120, 40));
        }
        other => panic!("expected a window change, got {:?}", other),
    }
}

#[test]
fn close_envelope_tears_down_backend() {
    let mut m = manager();
    let open = WsMessage::TerminalOpen(TerminalOpenRequest {
        id: "t1".to_string(),
        cols: 80,
        rows: 24,
    });
    handle_message(&mut m, &open, BackendKind::Local, 0);
    let close = WsMessage::TerminalClose(TerminalClose { id: "t1".to_string() });
    match handle_message(&mut m, &close, BackendKind::Local, 1) {
        Some(GatewayAction::CloseBackend { id }) => assert_eq!(id, "t1"),
        other => panic!("expected a close action, got {:?}", other),
    }
    // A second close finds nothing.
    assert!(handle_message(&mut m, &close, BackendKind::Local, 2).is_none());
}

#[test]
fn misrouted_server_envelopes_are_dropped() {
    let mut m = manager();
    let out = WsMessage::ShellOutput(ShellOutput {
        id: "t1".to_string(),
        output: "hi".to_string(),
    });
    assert!(handle_message(&mut m, &out, BackendKind::Local, 0).is_none());
    let exit = WsMessage::ShellExit(ShellExit { id: "t1".to_string(), code: Some(0) });
    assert!(handle_message(&mut m, &exit, BackendKind::Local, 0).is_none());
    assert_eq!(m.len(), 0);
}

#[test]
fn zero_sized_open_is_dropped() {
    let mut m = manager();
    let open = WsMessage::TerminalOpen(TerminalOpenRequest {
        id: "t1".to_string(),
        cols: 0,
        rows: 24,
    });
    assert!(handle_message(&mut m, &open, BackendKind::Local, 0).is_none());
    assert_eq!(m.len(), 0);
}

#[test]
fn output_envelope_wraps_chunk() {
    match output_envelope("t1", b"hello") {
        WsMessage::ShellOutput(o) => {
            assert_eq!(o.id, "t1");
            assert_eq!(o.output, "hello");
        }
        other => panic!("expected shell output, got {:?}", other),
    }
    // Invalid bytes are rendered best effort, not handed back raw.
    match output_envelope("t1", &[0xff, 0xfe]) {
        WsMessage::ShellOutput(o) => assert_eq!(o.output, "\u{FFFD}\u{FFFD}"),
        other => panic!("expected shell output, got {:?}", other),
    }
}

#[test]
fn exit_envelope_carries_id_and_code() {
    match webshell::gateway::exit_envelope("t1", Some(0)) {
        WsMessage::ShellExit(e) => {
            assert_eq!(e.id, "t1");
            assert_eq!(e.code, Some(0));
        }
        other => panic!("expected shell exit, got {:?}", other),
    }
}

#[test]
fn login_plan_local_requires_credentials() {
    let cfg = local_config();
    match login_plan(&cfg, None, Some("alice".to_string()), None) {
        LoginPlan::Reject(m) => assert_eq!(m, "Username and password required"),
        other => panic!("expected a rejection, got {:?}", other),
    }
    match login_plan(&cfg, None, Some("alice".to_string()), Some("pw".to_string())) {
        LoginPlan::Local { username, password } => {
            assert_eq!((username.as_str(), password.as_str()), ("alice", "pw"));
        }
        other => panic!("expected a local check, got {:?}", other),
    }
}

#[test]
fn login_plan_prefers_configured_values() {
    let mut cfg = local_config();
    cfg.user = Some("root".to_string());
    cfg.auth = AuthMethod::Password("secret".to_string());
    match login_plan(&cfg, None, Some("alice".to_string()), Some("pw".to_string())) {
        LoginPlan::Local { username, password } => {
            assert_eq!((username.as_str(), password.as_str()), ("root", "secret"));
        }
        other => panic!("expected a local check, got {:?}", other),
    }
}

#[test]
fn login_plan_remote_uses_ssh() {
    let mut cfg = local_config();
    cfg.host = Some("example.com".to_string());
    match login_plan(&cfg, None, Some("alice".to_string()), None) {
        LoginPlan::Reject(m) => assert_eq!(m, "Password required"),
        other => panic!("expected a rejection, got {:?}", other),
    }
    match login_plan(&cfg, None, None, Some("pw".to_string())) {
        LoginPlan::Reject(m) => assert_eq!(m, "Username required"),
        other => panic!("expected a rejection, got {:?}", other),
    }
    match login_plan(&cfg, None, Some("alice".to_string()), Some("pw".to_string())) {
        LoginPlan::Remote(sc) => {
            assert_eq!((sc.host.as_str(), sc.port, sc.user.as_str()), ("example.com", 22, "alice"));
            match sc.auth {
                webshell::ssh::SshAuth::Password(p) => assert_eq!(p, "pw"),
                other => panic!("expected password auth, got {:?}", other),
            }
        }
        other => panic!("expected a remote check, got {:?}", other),
    }
}

#[test]
fn login_plan_remote_key_file() {
    let mut cfg = local_config();
    cfg.host = Some("example.com".to_string());
    cfg.user = Some("deploy".to_string());
    cfg.auth = AuthMethod::KeyFile {
        path: "/keys/id".to_string(),
        passphrase: Some("pp".to_string()),
    };
    match login_plan(&cfg, None, None, None) {
        LoginPlan::Remote(sc) => match sc.auth {
            webshell::ssh::SshAuth::KeyFile { path, passphrase } => {
                assert_eq!(path, "/keys/id");
                assert_eq!(passphrase, Some("pp".to_string()));
            }
            other => panic!("expected key-file auth, got {:?}", other),
        },
        other => panic!("expected a remote check, got {:?}", other),
    }
}
