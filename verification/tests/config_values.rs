//! Configuration from environment values, and the decimal helpers.

use webshell::config::{AuthMethod, Config, EnvValues};
use webshell::text::{parse_u16, parse_u64, parse_usize, usize_to_string};

fn empty_env() -> EnvValues {
    EnvValues {
        port: None,
        workspace_dir: None,
        max_terminals: None,
        idle_timeout: None,
        host: None,
        ssh_port: None,
        user: None,
        password: None,
        key_path: None,
        key_data: None,
        passphrase: None,
        home: None,
    }
}

#[test]
fn defaults_apply_when_nothing_is_set() {
    let c = Config::from_env_values(empty_env());
    assert_eq!(c.port, 2222);
    assert_eq!(c.workspace_dir, "/tmp");
    assert_eq!(c.max_terminals, 10);
    assert_eq!(c.idle_timeout, 3600);
    assert_eq!(c.host, None);
    assert_eq!(c.ssh_port, 22);
    assert_eq!(c.user, None);
    assert!(matches!(c.auth, AuthMethod::NoAuth));
    assert!(c.is_local());
    assert!(!c.auto_login());
    assert_eq!(c.auth_method_name(), "none");
}

#[test]
fn values_override_defaults() {
    let mut env = empty_env();
    env.port = Some("8080".to_string());
    env.workspace_dir = Some("/srv/ws".to_string());
    env.max_terminals = Some("3".to_string());
    env.idle_timeout = Some("120".to_string());
    env.host = Some("example.com".to_string());
    env.ssh_port = Some("2200".to_string());
    env.user = Some("deploy".to_string());
    env.password = Some("pw".to_string());
    let c = Config::from_env_values(env);
    assert_eq!(c.port, 8080);
    assert_eq!(c.workspace_dir, "/srv/ws");
    assert_eq!(c.max_terminals, 3);
    assert_eq!(c.idle_timeout, 120);
    assert_eq!(c.host, Some("example.com".to_string()));
    assert_eq!(c.ssh_port, 2200);
    assert_eq!(c.user, Some("deploy".to_string()));
    assert!(matches!(c.auth, AuthMethod::Password(ref p) if p == "pw"));
    assert!(!c.is_local());
    assert!(c.auto_login());
    assert_eq!(c.auth_method_name(), "password");
}

#[test]
fn malformed_numbers_fall_back_to_defaults() {
    let mut env = empty_env();
    env.port = Some("eight".to_string());
    env.max_terminals = Some("".to_string());
    env.idle_timeout = Some("99999999999999999999999".to_string());
    let c = Config::from_env_values(env);
    assert_eq!(c.port, 2222);
    assert_eq!(c.max_terminals, 10);
    assert_eq!(c.idle_timeout, 3600);
}

#[test]
fn home_is_the_workspace_fallback() {
    let mut env = empty_env();
    env.home = Some("/home/alice".to_string());
    let c = Config::from_env_values(env);
    assert_eq!(c.workspace_dir, "/home/alice");
}

#[test]
fn empty_values_count_as_absent() {
    let mut env = empty_env();
    env.host = Some("".to_string());
    env.user = Some("".to_string());
    env.password = Some("".to_string());
    let c = Config::from_env_values(env);
    assert_eq!(c.host, None);
    assert_eq!(c.user, None);
    assert!(matches!(c.auth, AuthMethod::NoAuth));
}

#[test]
fn key_data_wins_over_key_file_and_password() {
    let mut env = empty_env();
    env.key_data = Some("PEM".to_string());
    env.key_path = Some("/keys/id".to_string());
    env.password = Some("pw".to_string());
    env.passphrase = Some("pp".to_string());
    let c = Config::from_env_values(env);
    match c.auth {
        AuthMethod::KeyData { ref data, ref passphrase } => {
            assert_eq!(data, "PEM");
            assert_eq!(passphrase, &Some("pp".to_string()));
        }
        ref other => panic!("expected key data, got {:?}", other),
    }
    assert_eq!(c.auth_method_name(), "key_data");
}

#[test]
fn key_file_wins_over_password() {
    let mut env = empty_env();
    env.key_path = Some("/keys/id".to_string());
    env.password = Some("pw".to_string());
    let c = Config::from_env_values(env);
    assert!(matches!(c.auth, AuthMethod::KeyFile { ref path, .. } if path == "/keys/id"));
    assert_eq!(c.auth_method_name(), "key_file");
}

#[test]
fn loopback_hosts_are_local() {
    for host in ["localhost", "127.0.0.1", "127.5.3.1"] {
        let mut env = empty_env();
        env.host = Some(host.to_string());
        assert!(Config::from_env_values(env).is_local(), "{host} should be local");
    }
    let mut env = empty_env();
    env.host = Some("128.0.0.1".to_string());
    assert!(!Config::from_env_values(env).is_local());
}

#[test]
fn default_config_matches_documented_values() {
    let c = Config::default();
    assert_eq!(c.port, 2222);
    assert_eq!(c.workspace_dir, "/tmp");
    assert_eq!(c.max_terminals, 10);
    assert_eq!(c.idle_timeout, 3600);
    assert_eq!(c.ssh_port, 22);
    assert!(matches!(c.auth, AuthMethod::NoAuth));
}

#[test]
fn decimal_parsing_is_exact() {
    assert_eq!(parse_u64("0"), Some(0));
    assert_eq!(parse_u64("123"), Some(123));
    assert_eq!(parse_u64("18446744073709551615"), Some(u64::MAX));
    assert_eq!(parse_u64("18446744073709551616"), None);
    assert_eq!(parse_u64(""), None);
    assert_eq!(parse_u64("12a"), None);
    assert_eq!(parse_u64("-1"), None);
    assert_eq!(parse_u16("65535"), Some(65535));
    assert_eq!(parse_u16("65536"), None);
    assert_eq!(parse_usize("42"), Some(42));
}

#[test]
fn decimal_rendering_round_trips() {
    assert_eq!(usize_to_string(0), "0");
    assert_eq!(usize_to_string(7), "7");
    assert_eq!(usize_to_string(120), "120");
    assert_eq!(usize_to_string(1234567), "1234567");
    assert_eq!(parse_usize(&usize_to_string(98765)), Some(98765));
}
