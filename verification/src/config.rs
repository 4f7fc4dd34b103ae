//! Startup configuration: a value object read once, immutable thereafter.

use vstd::prelude::*;

use crate::text::{str_eq, str_starts_with, is_dec_string, spec_dec_value, parse_u64, parse_u16, parse_usize};

verus! {

/// How the gateway authenticates against a remote host.
#[derive(Debug, Clone)]
pub enum AuthMethod {
    /// Password authentication.
    Password(String),
    /// Private key read from a file, with an optional passphrase.
    KeyFile { path: String, passphrase: Option<String> },
    /// Private key supplied inline, with an optional passphrase.
    KeyData { data: String, passphrase: Option<String> },
    /// No pre-configured authentication: the user is prompted.
    NoAuth,
}

/// Application configuration.
#[derive(Debug, Clone)]
pub struct Config {
    /// HTTP server port.
    pub port: u16,
    /// Base workspace directory for terminal sessions.
    pub workspace_dir: String,
    /// Maximum number of concurrently live terminals.
    pub max_terminals: usize,
    /// Terminal idle timeout in seconds.
    pub idle_timeout: u64,
    /// Pre-configured target host, if any.
    pub host: Option<String>,
    /// Port for remote shell connections.
    pub ssh_port: u16,
    /// Pre-configured username, if any.
    pub user: Option<String>,
    /// Authentication method.
    pub auth: AuthMethod,
}

/// True when the given host name denotes the local machine:
/// `localhost`, `127.0.0.1`, or any address starting with `127.`.
pub open spec fn spec_host_is_local(host: Seq<char>) -> bool {
    host == "localhost"@ || host == "127.0.0.1"@ || (host.len() >= 4 && host.subrange(0, 4)
        == "127."@)
}

impl Config {
    /// A configuration targets the local machine when no host is set or
    /// the host resolves literally to a loopback name.
    pub open spec fn spec_is_local(&self) -> bool {
        match self.host {
            Option::None => true,
            Option::Some(h) => spec_host_is_local(h@),
        }
    }

    /// Check whether terminals run on the local machine.
    pub fn is_local(&self) -> (r: bool)
        ensures
            r == self.spec_is_local(),
    {
        match &self.host {
            Option::None => true,
            Option::Some(h) => host_is_local(h.as_str()),
        }
    }
}

impl Config {
    /// Auto-login holds when a username and an authentication method are
    /// both pre-configured.
    pub fn auto_login(&self) -> (r: bool)
        ensures
            r == (self.user is Some && !(self.auth is NoAuth)),
    {
        match (&self.user, &self.auth) {
            (Option::Some(_), AuthMethod::NoAuth) => false,
            (Option::Some(_), _) => true,
            (Option::None, _) => false,
        }
    }

    /// The name of the configured authentication method, for the UI.
    pub fn auth_method_name(&self) -> (r: &'static str)
        ensures
            self.auth is Password ==> r@ == "password"@,
            self.auth is KeyFile ==> r@ == "key_file"@,
            self.auth is KeyData ==> r@ == "key_data"@,
            self.auth is NoAuth ==> r@ == "none"@,
    {
        match &self.auth {
            AuthMethod::Password(_) => "password",
            AuthMethod::KeyFile { .. } => "key_file",
            AuthMethod::KeyData { .. } => "key_data",
            AuthMethod::NoAuth => "none",
        }
    }
}

impl Default for Config {
    /// The built-in defaults, used when no environment value overrides them.
    fn default() -> (c: Self)
        ensures
            c.port == 2222,
            c.workspace_dir@ == "/tmp"@,
            c.max_terminals == 10,
            c.idle_timeout == 3600,
            c.host is None,
            c.ssh_port == 22,
            c.user is None,
            c.auth is NoAuth,
    {
        Config {
            port: 2222,
            workspace_dir: "/tmp".to_owned(),
            max_terminals: 10,
            idle_timeout: 3600,
            host: Option::None,
            ssh_port: 22,
            user: Option::None,
            auth: AuthMethod::NoAuth,
        }
    }
}

/// Check whether a host name denotes the local machine.
pub fn host_is_local(host: &str) -> (r: bool)
    ensures
        r == spec_host_is_local(host@),
{
    let localhost = "localhost";
    let loopback = "127.0.0.1";
    if str_eq(host, localhost) || str_eq(host, loopback) {
        return true;
    }
    proof {
        reveal_strlit("127.");
    }
    str_starts_with(host, "127.")
}

/// The raw environment values the configuration is built from; a missing
/// variable is `None`.
pub struct EnvValues {
    pub port: Option<String>,
    pub workspace_dir: Option<String>,
    pub max_terminals: Option<String>,
    pub idle_timeout: Option<String>,
    pub host: Option<String>,
    pub ssh_port: Option<String>,
    pub user: Option<String>,
    pub password: Option<String>,
    pub key_path: Option<String>,
    pub key_data: Option<String>,
    pub passphrase: Option<String>,
    pub home: Option<String>,
}

/// Drop an empty value, keeping only a non-empty one.
pub open spec fn spec_nonempty(o: Option<String>) -> Option<String> {
    match o {
        Option::Some(s) => if s@.len() > 0 {
            Option::Some(s)
        } else {
            Option::None
        },
        Option::None => Option::None,
    }
}

/// Which authentication method a set of environment values selects:
/// inline key data wins over a key file, which wins over a password;
/// a variable that is set but empty selects no method at all.
pub open spec fn spec_auth_choice(
    key_data: Option<String>,
    key_path: Option<String>,
    password: Option<String>,
    passphrase: Option<String>,
) -> AuthMethod {
    match key_data {
        Option::Some(d) => if d@.len() > 0 {
            AuthMethod::KeyData { data: d, passphrase: spec_nonempty(passphrase) }
        } else {
            AuthMethod::NoAuth
        },
        Option::None => match key_path {
            Option::Some(p) => if p@.len() > 0 {
                AuthMethod::KeyFile { path: p, passphrase: spec_nonempty(passphrase) }
            } else {
                AuthMethod::NoAuth
            },
            Option::None => match password {
                Option::Some(pw) => if pw@.len() > 0 {
                    AuthMethod::Password(pw)
                } else {
                    AuthMethod::NoAuth
                },
                Option::None => AuthMethod::NoAuth,
            },
        },
    }
}

/// The parsed value of a decimal string, or the default where the value
/// is missing, malformed, or out of range.
pub open spec fn spec_parse_u16_or(o: Option<String>, d: u16) -> u16 {
    match o {
        Option::Some(s) => if is_dec_string(s@) && spec_dec_value(s@) <= u16::MAX {
            spec_dec_value(s@) as u16
        } else {
            d
        },
        Option::None => d,
    }
}

/// As `spec_parse_u16_or`, for `u64`.
pub open spec fn spec_parse_u64_or(o: Option<String>, d: u64) -> u64 {
    match o {
        Option::Some(s) => if is_dec_string(s@) && spec_dec_value(s@) <= u64::MAX {
            spec_dec_value(s@) as u64
        } else {
            d
        },
        Option::None => d,
    }
}

/// As `spec_parse_u16_or`, for `usize`.
pub open spec fn spec_parse_usize_or(o: Option<String>, d: usize) -> usize {
    match o {
        Option::Some(s) => if is_dec_string(s@) && spec_dec_value(s@) <= usize::MAX {
            spec_dec_value(s@) as usize
        } else {
            d
        },
        Option::None => d,
    }
}

fn opt_nonempty(o: Option<String>) -> (r: Option<String>)
    ensures
        r == spec_nonempty(o),
{
    match o {
        Option::Some(s) => if s.unicode_len() > 0 {
            Option::Some(s)
        } else {
            Option::None
        },
        Option::None => Option::None,
    }
}

fn parse_u16_or(o: Option<String>, d: u16) -> (r: u16)
    ensures
        r == spec_parse_u16_or(o, d),
{
    match o {
        Option::Some(s) => match parse_u16(s.as_str()) {
            Option::Some(v) => v,
            Option::None => d,
        },
        Option::None => d,
    }
}

fn parse_u64_or(o: Option<String>, d: u64) -> (r: u64)
    ensures
        r == spec_parse_u64_or(o, d),
{
    match o {
        Option::Some(s) => match parse_u64(s.as_str()) {
            Option::Some(v) => v,
            Option::None => d,
        },
        Option::None => d,
    }
}

fn parse_usize_or(o: Option<String>, d: usize) -> (r: usize)
    ensures
        r == spec_parse_usize_or(o, d),
{
    match o {
        Option::Some(s) => match parse_usize(s.as_str()) {
            Option::Some(v) => v,
            Option::None => d,
        },
        Option::None => d,
    }
}

impl Config {
    /// Build the configuration from raw environment values, applying the
    /// documented defaults: port 2222, workspace from the home directory
    /// or `/tmp`, at most 10 terminals, a 3600-second idle timeout, and
    /// remote-shell port 22.
    pub fn from_env_values(env: EnvValues) -> (c: Config)
        ensures
            c.port == spec_parse_u16_or(env.port, 2222),
            match (env.workspace_dir, env.home) {
                (Option::Some(w), _) => c.workspace_dir == w,
                (Option::None, Option::Some(h)) => c.workspace_dir == h,
                (Option::None, Option::None) => c.workspace_dir@ == "/tmp"@,
            },
            c.max_terminals == spec_parse_usize_or(env.max_terminals, 10),
            c.idle_timeout == spec_parse_u64_or(env.idle_timeout, 3600),
            c.host == spec_nonempty(env.host),
            c.ssh_port == spec_parse_u16_or(env.ssh_port, 22),
            c.user == spec_nonempty(env.user),
            c.auth == spec_auth_choice(env.key_data, env.key_path, env.password, env.passphrase),
    {
        let auth = match env.key_data {
            Option::Some(d) => if d.unicode_len() > 0 {
                AuthMethod::KeyData { data: d, passphrase: opt_nonempty(env.passphrase) }
            } else {
                AuthMethod::NoAuth
            },
            Option::None => match env.key_path {
                Option::Some(p) => if p.unicode_len() > 0 {
                    AuthMethod::KeyFile { path: p, passphrase: opt_nonempty(env.passphrase) }
                } else {
                    AuthMethod::NoAuth
                },
                Option::None => match env.password {
                    Option::Some(pw) => if pw.unicode_len() > 0 {
                        AuthMethod::Password(pw)
                    } else {
                        AuthMethod::NoAuth
                    },
                    Option::None => AuthMethod::NoAuth,
                },
            },
        };
        let workspace_dir = match env.workspace_dir {
            Option::Some(w) => w,
            Option::None => match env.home {
                Option::Some(h) => h,
                Option::None => "/tmp".to_owned(),
            },
        };
        Config {
            port: parse_u16_or(env.port, 2222),
            workspace_dir,
            max_terminals: parse_usize_or(env.max_terminals, 10),
            idle_timeout: parse_u64_or(env.idle_timeout, 3600),
            host: opt_nonempty(env.host),
            ssh_port: parse_u16_or(env.ssh_port, 22),
            user: opt_nonempty(env.user),
            auth,
        }
    }
}

} // verus!
