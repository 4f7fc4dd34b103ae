//! The per-connection protocol endpoint: who may upgrade, what each
//! envelope does to the registry, and what goes back out.
//!
//! The socket itself lives outside the library. For each parsed envelope
//! the caller invokes `handle_message` and then performs the returned
//! backend action; for each chunk the backend reader produces it wraps
//! the bytes with `output_envelope` and queues the result.

use vstd::prelude::*;

use crate::auth::{contains_token, sidx_of, SessionStore};
use crate::config::{spec_host_is_local, AuthMethod, Config};
use crate::session::{
    contains_id, idx_of, spec_fed, spec_new_record, spec_resized, spec_touched, BackendKind,
    ResizeOutcome, SessionManager,
};
use crate::ssh::{SshAuth, SshConfig};
use crate::types::{ShellOutput, WsMessage};

verus! {

/// Whether a socket upgrade may proceed.
#[derive(Debug)]
pub enum UpgradeDecision {
    /// A valid session cookie: proceed as this user.
    Accept(String),
    /// No cookie, or an unknown token: respond 401 and do not upgrade.
    Reject,
}

/// Gate the socket: only a cookie carrying a token bound in the store is
/// allowed through, and the connection runs as the bound principal.
/// Everything else is rejected before it reaches the gateway.
pub fn authorize_upgrade(store: &SessionStore, cookie: Option<&str>) -> (r: UpgradeDecision)
    requires
        store.wf(),
    ensures
        cookie is None ==> r is Reject,
        cookie matches Some(t) ==> !contains_token(store.entries(), t@) ==> r is Reject,
        cookie matches Some(t) ==> contains_token(store.entries(), t@) ==> (r matches
            UpgradeDecision::Accept(u) && u@ == store.entries()[
            sidx_of(store.entries(), t@)
        ].session.username@),
    {
    match cookie {
        Option::None => UpgradeDecision::Reject,
        Option::Some(t) => match store.validate_session(t) {
            Option::Some(u) => UpgradeDecision::Accept(u),
            Option::None => UpgradeDecision::Reject,
        },
    }
}

/// The backend work one envelope asks for; the caller performs it after
/// the registry transition.
#[derive(Debug)]
pub enum GatewayAction {
    /// Allocate a pseudo-terminal or remote channel and spawn under this id.
    SpawnBackend { id: String, cols: u16, rows: u16 },
    /// Hand these bytes to the terminal's backend writer.
    DeliverInput { id: String, data: Vec<u8> },
    /// Issue a window-change of this size to the backend.
    WindowChange { id: String, cols: u16, rows: u16 },
    /// Kill the backend child and wait for it.
    CloseBackend { id: String },
}

/// Apply one client envelope to the registry and say what backend work
/// follows. Envelopes that fail (unknown id, quota, duplicate, zero
/// size) are dropped without an action, as the gateway logs and carries
/// on; server-to-client envelopes arriving from the client are dropped
/// silently. Input bytes and output bytes are never reordered: each
/// accepted input chunk is appended to the terminal's log in arrival
/// order, and a resize that changes nothing issues no window change.
pub fn handle_message(mgr: &mut SessionManager, msg: &WsMessage, kind: BackendKind, now: u64) -> (act:
    Option<GatewayAction>)
    requires
        old(mgr).wf(),
    ensures
        final(mgr).wf(),
        final(mgr).same_config(old(mgr)),
        msg matches WsMessage::ShellOutput(_) ==> final(mgr).records() == old(mgr).records() && act is None,
        msg matches WsMessage::ShellExit(_) ==> final(mgr).records() == old(mgr).records() && act is None,
        msg matches WsMessage::TerminalOpen(req) ==> (req.cols == 0 || req.rows == 0) ==> final(mgr).records() == old(mgr).records() && act is None,
        msg matches WsMessage::TerminalOpen(req) ==> req.cols > 0 && req.rows > 0 && old(mgr).records().len() >= old(mgr).spec_max_terminals() ==> final(mgr).records() == old(mgr).records() && act is None,
        msg matches WsMessage::TerminalOpen(req) ==> req.cols > 0 && req.rows > 0 && old(mgr).records().len() < old(mgr).spec_max_terminals() && contains_id(old(mgr).records(), req.id@) ==> final(mgr).records() == old(mgr).records() && act is None,
        msg matches WsMessage::TerminalOpen(req) ==> req.cols > 0 && req.rows > 0 && old(mgr).records().len() < old(mgr).spec_max_terminals() && !contains_id(old(mgr).records(), req.id@) ==> final(mgr).records().len() == old(mgr).records().len() + 1 && final(mgr).records().drop_last() == old(mgr).records() && spec_new_record(final(mgr).records().last(), req.id@, req.cols, req.rows, kind, now) && (act matches Some(GatewayAction::SpawnBackend { id, cols, rows }) && id@ == req.id@ && cols == req.cols && rows == req.rows),
        msg matches WsMessage::TerminalInput(inp) ==> !contains_id(old(mgr).records(), inp.id@) ==> final(mgr).records() == old(mgr).records() && act is None,
        msg matches WsMessage::TerminalInput(inp) ==> contains_id(old(mgr).records(), inp.id@) && !old(mgr).records()[idx_of(old(mgr).records(), inp.id@)].input_open ==> final(mgr).records() == old(mgr).records().update(idx_of(old(mgr).records(), inp.id@), spec_touched(old(mgr).records()[idx_of(old(mgr).records(), inp.id@)], now)) && act is None,
        msg matches WsMessage::TerminalInput(inp) ==> contains_id(old(mgr).records(), inp.id@) && old(mgr).records()[idx_of(old(mgr).records(), inp.id@)].input_open ==> final(mgr).records() == old(mgr).records().update(idx_of(old(mgr).records(), inp.id@), spec_fed(old(mgr).records()[idx_of(old(mgr).records(), inp.id@)], vstd::utf8::encode_utf8(inp.input@), now)) && (act matches Some(GatewayAction::DeliverInput { id, data }) && id@ == inp.id@ && data@ == vstd::utf8::encode_utf8(inp.input@)),
        msg matches WsMessage::TerminalResize(rz) ==> (rz.cols == 0 || rz.rows == 0) ==> final(mgr).records() == old(mgr).records() && act is None,
        msg matches WsMessage::TerminalResize(rz) ==> rz.cols > 0 && rz.rows > 0 && !contains_id(old(mgr).records(), rz.id@) ==> final(mgr).records() == old(mgr).records() && act is None,
        msg matches WsMessage::TerminalResize(rz) ==> rz.cols > 0 && rz.rows > 0 && contains_id(old(mgr).records(), rz.id@) && (old(mgr).records()[idx_of(old(mgr).records(), rz.id@)].cols != rz.cols || old(mgr).records()[idx_of(old(mgr).records(), rz.id@)].rows != rz.rows) ==> final(mgr).records() == old(mgr).records().update(idx_of(old(mgr).records(), rz.id@), spec_resized(old(mgr).records()[idx_of(old(mgr).records(), rz.id@)], rz.cols, rz.rows, now)) && (act matches Some(GatewayAction::WindowChange { id, cols, rows }) && id@ == rz.id@ && cols == rz.cols && rows == rz.rows),
        msg matches WsMessage::TerminalResize(rz) ==> rz.cols > 0 && rz.rows > 0 && contains_id(old(mgr).records(), rz.id@) && old(mgr).records()[idx_of(old(mgr).records(), rz.id@)].cols == rz.cols && old(mgr).records()[idx_of(old(mgr).records(), rz.id@)].rows == rz.rows ==> final(mgr).records() == old(mgr).records().update(idx_of(old(mgr).records(), rz.id@), spec_touched(old(mgr).records()[idx_of(old(mgr).records(), rz.id@)], now)) && act is None,
        msg matches WsMessage::TerminalClose(cl) ==> !contains_id(old(mgr).records(), cl.id@) ==> final(mgr).records() == old(mgr).records() && act is None,
        msg matches WsMessage::TerminalClose(cl) ==> contains_id(old(mgr).records(), cl.id@) ==> final(mgr).records() == old(mgr).records().remove(idx_of(old(mgr).records(), cl.id@)) && (act matches Some(GatewayAction::CloseBackend { id }) && id@ == cl.id@),
{
    match msg {
        WsMessage::TerminalOpen(req) => {
            if req.cols == 0 || req.rows == 0 {
                return Option::None;
            }
            match mgr.create(req.id.as_str(), req.cols, req.rows, kind, now) {
                Result::Ok(_) => Option::Some(
                    GatewayAction::SpawnBackend { id: req.id.clone(), cols: req.cols, rows: req.rows },
                ),
                Result::Err(_) => Option::None,
            }
        },
        WsMessage::TerminalInput(inp) => {
            match mgr.send_input(inp.id.as_str(), inp.input.as_str().as_bytes(), now) {
                Result::Ok(_) => Option::Some(
                    GatewayAction::DeliverInput {
                        id: inp.id.clone(),
                        data: inp.input.as_str().as_bytes_vec(),
                    },
                ),
                Result::Err(_) => Option::None,
            }
        },
        WsMessage::TerminalResize(rz) => {
            if rz.cols == 0 || rz.rows == 0 {
                return Option::None;
            }
            match mgr.resize(rz.id.as_str(), rz.cols, rz.rows, now) {
                Result::Ok(ResizeOutcome::Resized) => Option::Some(
                    GatewayAction::WindowChange { id: rz.id.clone(), cols: rz.cols, rows: rz.rows },
                ),
                Result::Ok(ResizeOutcome::Unchanged) => Option::None,
                Result::Err(_) => Option::None,
            }
        },
        WsMessage::TerminalClose(cl) => {
            match mgr.close(cl.id.as_str()) {
                Result::Ok(_) => Option::Some(GatewayAction::CloseBackend { id: cl.id.clone() }),
                Result::Err(_) => Option::None,
            }
        },
        WsMessage::ShellOutput(_) => Option::None,
        WsMessage::ShellExit(_) => Option::None,
    }
}

/// What a byte chunk renders to as text, best effort; fixed by the bytes
/// alone.
pub uninterp spec fn utf8_lossy_of(bytes: Seq<u8>) -> Seq<char>;

/// Relies on `String::from_utf8_lossy`: the rendering is a function of
/// the bytes alone.
#[verifier::external_body]
fn utf8_lossy(bytes: &[u8]) -> (r: String)
    ensures
        r@ == utf8_lossy_of(bytes@),
{
    String::from_utf8_lossy(bytes).into_owned()
}

/// Wrap one chunk from a terminal's backend reader in the output
/// envelope addressed to that terminal.
pub fn output_envelope(id: &str, chunk: &[u8]) -> (m: WsMessage)
    ensures
        m matches WsMessage::ShellOutput(o) && o.id@ == id@ && o.output@ == utf8_lossy_of(chunk@),
{
    WsMessage::ShellOutput(ShellOutput { id: id.to_owned(), output: utf8_lossy(chunk) })
}

/// The envelope announcing that a terminal's shell has exited with the
/// given status, sent when the backend is reaped after end of file.
pub fn exit_envelope(id: &str, code: Option<i32>) -> (m: WsMessage)
    ensures
        m matches WsMessage::ShellExit(e) && e.id@ == id@ && e.code == code,
{
    WsMessage::ShellExit(crate::types::ShellExit { id: id.to_owned(), code })
}

/// The output texts of a run of chunks, in reader order.
pub open spec fn spec_output_texts(chunks: Seq<Seq<u8>>) -> Seq<Seq<char>> {
    chunks.map_values(|c: Seq<u8>| utf8_lossy_of(c))
}

/// Output ordering: wrapping a run of chunks yields one envelope per
/// chunk, at the chunk's own position — the gateway neither drops nor
/// reorders a terminal's output before it is queued.
pub proof fn lemma_output_ordering(chunks: Seq<Seq<u8>>)
    ensures
        spec_output_texts(chunks).len() == chunks.len(),
        forall|i: int|
            0 <= i < chunks.len() ==> #[trigger] spec_output_texts(chunks)[i] == utf8_lossy_of(
                chunks[i],
            ),
{
}

/// The decision a login request resolves to, before any check runs.
#[derive(Debug)]
pub enum LoginPlan {
    /// Refuse with this message, without running any check.
    Reject(String),
    /// Verify these credentials against the local operating system.
    Local { username: String, password: String },
    /// Verify these credentials by a remote-shell dry run.
    Remote(SshConfig),
}

/// The first of a configured and a form value, or the default.
pub open spec fn spec_or_default(
    configured: Option<String>,
    form: Option<String>,
    default: Seq<char>,
) -> Seq<char> {
    match configured {
        Option::Some(c) => c@,
        Option::None => match form {
            Option::Some(f) => f@,
            Option::None => default,
        },
    }
}

/// The view of an optional form value, empty when absent.
pub open spec fn spec_opt_view(o: Option<String>) -> Seq<char> {
    match o {
        Option::Some(s) => s@,
        Option::None => Seq::empty(),
    }
}

/// Two optional passphrases agree, view for view.
pub open spec fn spec_opt_eq(a: Option<String>, b: Option<String>) -> bool {
    match (a, b) {
        (Option::Some(x), Option::Some(y)) => x@ == y@,
        (Option::None, Option::None) => true,
        _ => false,
    }
}

/// The login decision table. Configured values win over form values; a
/// missing host means `localhost`. A local host resolves to an
/// operating-system check with the configured or form password; a remote
/// host resolves to a remote-shell dry run with the configured
/// authentication method, falling back to the form password. Missing
/// required fields are refused up front with the exact message.
pub open spec fn spec_login_plan_ok(
    cfg: &Config,
    form_host: Option<String>,
    form_username: Option<String>,
    form_password: Option<String>,
    r: LoginPlan,
) -> bool {
    let h = spec_or_default(cfg.host, form_host, "localhost"@);
    let u = spec_or_default(cfg.user, form_username, Seq::empty());
    let fpw = spec_opt_view(form_password);
    if spec_host_is_local(h) {
        let pw = match cfg.auth {
            AuthMethod::Password(p) => p@,
            _ => fpw,
        };
        if u.len() == 0 || pw.len() == 0 {
            r matches LoginPlan::Reject(m) && m@ == "Username and password required"@
        } else {
            r matches LoginPlan::Local { username, password } && username@ == u && password@ == pw
        }
    } else {
        match cfg.auth {
            AuthMethod::Password(p) => if u.len() == 0 {
                r matches LoginPlan::Reject(m) && m@ == "Username required"@
            } else {
                r matches LoginPlan::Remote(sc) && sc.host@ == h && sc.port == cfg.ssh_port
                    && sc.user@ == u && (sc.auth matches SshAuth::Password(q) && q@ == p@)
            },
            AuthMethod::KeyFile { path, passphrase } => if u.len() == 0 {
                r matches LoginPlan::Reject(m) && m@ == "Username required"@
            } else {
                r matches LoginPlan::Remote(sc) && sc.host@ == h && sc.port == cfg.ssh_port
                    && sc.user@ == u && (sc.auth matches SshAuth::KeyFile {
                    path: p2,
                    passphrase: s2,
                } && p2@ == path@ && spec_opt_eq(s2, passphrase))
            },
            AuthMethod::KeyData { data, passphrase } => if u.len() == 0 {
                r matches LoginPlan::Reject(m) && m@ == "Username required"@
            } else {
                r matches LoginPlan::Remote(sc) && sc.host@ == h && sc.port == cfg.ssh_port
                    && sc.user@ == u && (sc.auth matches SshAuth::KeyData {
                    data: d2,
                    passphrase: s2,
                } && d2@ == data@ && spec_opt_eq(s2, passphrase))
            },
            AuthMethod::NoAuth => if fpw.len() == 0 {
                r matches LoginPlan::Reject(m) && m@ == "Password required"@
            } else if u.len() == 0 {
                r matches LoginPlan::Reject(m) && m@ == "Username required"@
            } else {
                r matches LoginPlan::Remote(sc) && sc.host@ == h && sc.port == cfg.ssh_port
                    && sc.user@ == u && (sc.auth matches SshAuth::Password(q) && q@ == fpw)
            },
        }
    }
}

/// Resolve a login request against the configuration: what to check, and
/// with which credentials — or why to refuse it outright.
pub fn login_plan(
    cfg: &Config,
    form_host: Option<String>,
    form_username: Option<String>,
    form_password: Option<String>,
) -> (r: LoginPlan)
    ensures
        spec_login_plan_ok(cfg, form_host, form_username, form_password, r),
{
    let host: String = match (&cfg.host, form_host) {
        (Option::Some(c), _) => c.clone(),
        (Option::None, Option::Some(f)) => f,
        (Option::None, Option::None) => "localhost".to_owned(),
    };
    let username: String = match (&cfg.user, form_username) {
        (Option::Some(c), _) => c.clone(),
        (Option::None, Option::Some(f)) => f,
        (Option::None, Option::None) => String::new(),
    };
    let form_pw: String = match form_password {
        Option::Some(p) => p,
        Option::None => String::new(),
    };
    if crate::config::host_is_local(host.as_str()) {
        let password: String = match &cfg.auth {
            AuthMethod::Password(p) => p.clone(),
            _ => form_pw,
        };
        if username.as_str().unicode_len() == 0 || password.as_str().unicode_len() == 0 {
            LoginPlan::Reject("Username and password required".to_owned())
        } else {
            LoginPlan::Local { username, password }
        }
    } else {
        let auth: SshAuth = match &cfg.auth {
            AuthMethod::Password(p) => SshAuth::Password(p.clone()),
            AuthMethod::KeyFile { path, passphrase } => SshAuth::KeyFile {
                path: path.clone(),
                passphrase: clone_opt(passphrase),
            },
            AuthMethod::KeyData { data, passphrase } => SshAuth::KeyData {
                data: data.clone(),
                passphrase: clone_opt(passphrase),
            },
            AuthMethod::NoAuth => {
                if form_pw.as_str().unicode_len() == 0 {
                    return LoginPlan::Reject("Password required".to_owned());
                }
                SshAuth::Password(form_pw)
            },
        };
        if username.as_str().unicode_len() == 0 {
            LoginPlan::Reject("Username required".to_owned())
        } else {
            LoginPlan::Remote(SshConfig { host, port: cfg.ssh_port, user: username, auth })
        }
    }
}

fn clone_opt(o: &Option<String>) -> (r: Option<String>)
    ensures
        match (o, r) {
            (Option::Some(x), Option::Some(y)) => x@ == y@,
            (Option::None, Option::None) => true,
            _ => false,
        },
{
    match o {
        Option::Some(s) => Option::Some(s.clone()),
        Option::None => Option::None,
    }
}

} // verus!
