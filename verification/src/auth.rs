//! Authentication: opaque session tokens bound to a principal, and the
//! decision rules of operating-system credential checks.
//!
//! Running the credential check is process I/O and happens outside the
//! library; the library validates the inputs first and turns the check's
//! outcome into the verdict. Token randomness, hashing, and hex encoding
//! come from outside crates behind trusted wrappers; everything around
//! them is verified.

use vstd::prelude::*;

use sha2::Digest;

verus! {

/// One authenticated principal.
#[derive(Debug, Clone)]
pub struct Session {
    /// Who logged in.
    pub username: String,
    /// When the session was created, in nanoseconds of wall-clock time.
    pub created_at: u64,
}

/// A token bound to its session.
#[derive(Debug, Clone)]
pub struct SessionEntry {
    pub token: String,
    pub session: Session,
}

/// A session older than this many nanoseconds (24 hours) is expired.
pub const MAX_SESSION_AGE_NANOS: u64 = 86400000000000;

/// Some entry in `s` carries the token.
pub open spec fn contains_token(s: Seq<SessionEntry>, token: Seq<char>) -> bool {
    exists|i: int| 0 <= i < s.len() && s[i].token@ == token
}

/// The position of the entry carrying the token; meaningful only under
/// `contains_token` and `distinct_tokens`.
pub open spec fn sidx_of(s: Seq<SessionEntry>, token: Seq<char>) -> int {
    choose|i: int| 0 <= i < s.len() && s[i].token@ == token
}

/// No two entries carry the same token.
pub open spec fn distinct_tokens(s: Seq<SessionEntry>) -> bool {
    forall|i: int, j: int| 0 <= i < j < s.len() ==> s[i].token@ != s[j].token@
}

/// The store after a token is revoked: without the entry carrying it, or
/// unchanged when no entry does.
pub open spec fn spec_removed(s: Seq<SessionEntry>, token: Seq<char>) -> Seq<SessionEntry> {
    if contains_token(s, token) {
        s.remove(sidx_of(s, token))
    } else {
        s
    }
}

/// A session still young enough to keep at time `now`.
pub open spec fn is_fresh(e: SessionEntry, now: u64) -> bool {
    (now as int) < (e.session.created_at as int) + (MAX_SESSION_AGE_NANOS as int)
}

/// The entries that survive a cleanup at time `now`, in original order.
pub open spec fn spec_retained(s: Seq<SessionEntry>, now: u64) -> Seq<SessionEntry>
    decreases s.len(),
{
    if s.len() == 0 {
        s
    } else {
        let rest = spec_retained(s.drop_last(), now);
        if is_fresh(s.last(), now) {
            rest.push(s.last())
        } else {
            rest
        }
    }
}

/// The entry after its token is bound anew: same token, new principal
/// and timestamp.
pub open spec fn spec_rebound(e: SessionEntry, username: String, now: u64) -> SessionEntry {
    SessionEntry { session: Session { username, created_at: now }, ..e }
}

/// The store of live authenticated sessions, keyed by token.
pub struct SessionStore {
    entries: Vec<SessionEntry>,
}

/// What a byte sequence hashes to under SHA-256; fixed by the input alone.
pub uninterp spec fn sha256_of(data: Seq<u8>) -> Seq<u8>;

/// Relies on sha2's `Sha256`: the digest is a function of the input alone
/// and is exactly 32 bytes.
#[verifier::external_body]
fn sha256(data: &Vec<u8>) -> (r: Vec<u8>)
    ensures
        r@ == sha256_of(data@),
        r@.len() == 32,
{
    sha2::Sha256::digest(data.as_slice()).to_vec()
}

/// Relies on rand's `random`: 32 bytes from the thread-local
/// cryptographically secure generator. Nothing can be promised of their
/// values.
#[verifier::external_body]
fn random_bytes32() -> (r: Vec<u8>)
    ensures
        r@.len() == 32,
{
    rand::random::<[u8; 32]>().to_vec()
}

/// The character for one hex digit, lowercase.
pub open spec fn hex_digit(d: int) -> char {
    if d < 10 {
        crate::text::digit_char(d)
    } else if d == 10 {
        'a'
    } else if d == 11 {
        'b'
    } else if d == 12 {
        'c'
    } else if d == 13 {
        'd'
    } else if d == 14 {
        'e'
    } else {
        'f'
    }
}

/// Lowercase hex encoding: two digits per byte, high nibble first.
pub open spec fn spec_hex(data: Seq<u8>) -> Seq<char>
    decreases data.len(),
{
    if data.len() == 0 {
        Seq::empty()
    } else {
        spec_hex(data.drop_last()) + seq![
            hex_digit(data.last() as int / 16),
            hex_digit(data.last() as int % 16),
        ]
    }
}

/// A lowercase hex digit character.
pub open spec fn is_hex_char(c: char) -> bool {
    ('0' <= c && c <= '9') || ('a' <= c && c <= 'f')
}

/// Relies on hex's `encode`: lowercase, two digits per byte, high nibble
/// first, as its documentation and examples state.
#[verifier::external_body]
fn hex_encode(data: &Vec<u8>) -> (r: String)
    ensures
        r@ == spec_hex(data@),
{
    hex::encode(data.as_slice())
}

/// Hex encoding yields two hex characters per input byte.
proof fn lemma_hex_props(data: Seq<u8>)
    ensures
        spec_hex(data).len() == 2 * data.len(),
        forall|i: int| 0 <= i < spec_hex(data).len() ==> is_hex_char(#[trigger] spec_hex(data)[i]),
    decreases data.len(),
{
    if data.len() > 0 {
        lemma_hex_props(data.drop_last());
        let h = spec_hex(data);
        let rest = spec_hex(data.drop_last());
        assert forall|i: int| 0 <= i < h.len() implies is_hex_char(#[trigger] h[i]) by {
            if i < rest.len() {
                assert(h[i] == rest[i]);
            } else {
                let d = if i == rest.len() {
                    data.last() as int / 16
                } else {
                    data.last() as int % 16
                };
                assert(h[i] == hex_digit(d));
                assert(0 <= d < 16);
                assert(is_hex_char(hex_digit(d)));
            }
        }
    }
}

/// The little-endian bytes of a number, `k` of them.
pub open spec fn spec_le_bytes_rec(n: int, k: nat) -> Seq<u8>
    decreases k,
{
    if k == 0 {
        Seq::empty()
    } else {
        seq![(n % 256) as u8] + spec_le_bytes_rec(n / 256, (k - 1) as nat)
    }
}

/// The eight little-endian bytes of a 64-bit number.
pub open spec fn spec_u64_le(n: u64) -> Seq<u8> {
    spec_le_bytes_rec(n as int, 8)
}

/// Serialize a 64-bit number as its eight little-endian bytes.
pub fn u64_le_bytes(n: u64) -> (r: Vec<u8>)
    ensures
        r@ == spec_u64_le(n),
{
    let mut r: Vec<u8> = Vec::new();
    let mut v: u64 = n;
    let mut k: usize = 0;
    while k < 8
        invariant
            k <= 8,
            r@.len() == k,
            spec_le_bytes_rec(n as int, 8) == r@ + spec_le_bytes_rec(v as int, (8 - k) as nat),
        decreases 8 - k,
    {
        let ghost rpre = r@;
        let b: u8 = (v % 256) as u8;
        r.push(b);
        proof {
            assert(spec_le_bytes_rec(v as int, (8 - k) as nat) == seq![b] + spec_le_bytes_rec(
                v as int / 256,
                (8 - (k + 1)) as nat,
            ));
            assert(rpre + (seq![b] + spec_le_bytes_rec(v as int / 256, (8 - (k + 1)) as nat)) =~= r@
                + spec_le_bytes_rec(v as int / 256, (8 - (k + 1)) as nat));
        }
        v = v / 256;
        k += 1;
    }
    proof {
        assert(spec_le_bytes_rec(v as int, 0) =~= Seq::<u8>::empty());
        assert(r@ + Seq::<u8>::empty() =~= r@);
    }
    r
}

/// Mint a session token: 32 random bytes and the current wall-clock
/// nanoseconds, hashed with SHA-256 and hex-encoded. The result is 64
/// lowercase hex characters carrying the full 256 bits of the digest.
pub fn generate_token(now_nanos: u64) -> (t: String)
    ensures
        t@.len() == 64,
        forall|i: int| 0 <= i < t@.len() ==> is_hex_char(#[trigger] t@[i]),
        spec_token_built(t@, now_nanos),
{
    let mut input = random_bytes32();
    let ghost entropy = input@;
    let mut tail = u64_le_bytes(now_nanos);
    input.append(&mut tail);
    let digest = sha256(&input);
    let t = hex_encode(&digest);
    proof {
        lemma_hex_props(digest@);
        assert(entropy.len() == 32 && t@ == spec_hex(sha256_of(entropy + spec_u64_le(now_nanos))));
    }
    t
}

/// The token is really the stated construction: the hex encoding of the
/// SHA-256 digest of 32 generator bytes followed by the little-endian
/// wall-clock nanoseconds. A constant cannot satisfy this; the generator
/// bytes are the witness.
pub open spec fn spec_token_built(t: Seq<char>, now_nanos: u64) -> bool {
    exists|entropy: Seq<u8>|
        entropy.len() == 32 && t == spec_hex(#[trigger] sha256_of(entropy + spec_u64_le(now_nanos)))
}

impl SessionStore {
    /// The live sessions, in creation order.
    pub closed spec fn entries(&self) -> Seq<SessionEntry> {
        self.entries@
    }

    /// The store invariant: tokens are pairwise distinct.
    pub open spec fn wf(&self) -> bool {
        distinct_tokens(self.entries())
    }

    /// An empty store.
    pub fn new() -> (s: Self)
        ensures
            s.wf(),
            s.entries() == Seq::<SessionEntry>::empty(),
    {
        let s = SessionStore { entries: Vec::new() };
        proof {
            assert(s.entries() =~= Seq::<SessionEntry>::empty());
        }
        s
    }

    fn find(&self, token: &str) -> (r: Option<usize>)
        ensures
            match r {
                Option::Some(i) => i < self.entries().len() && self.entries()[i as int].token@
                    == token@,
                Option::None => !contains_token(self.entries(), token@),
            },
    {
        let n = self.entries.len();
        let mut i: usize = 0;
        while i < n
            invariant
                n == self.entries().len(),
                i <= n,
                forall|j: int| 0 <= j < i ==> self.entries()[j].token@ != token@,
            decreases n - i,
        {
            if crate::text::str_eq(self.entries[i].token.as_str(), token) {
                return Option::Some(i);
            }
            i += 1;
        }
        Option::None
    }

    /// Create a session for an authenticated user: mint a fresh token and
    /// bind it to the principal, stamped `now_nanos`. The token comes
    /// back for the cookie. In the vanishingly unlikely event the token
    /// already exists, the old binding is replaced.
    pub fn create_session(&mut self, username: String, now_nanos: u64) -> (token: String)
        requires
            old(self).wf(),
        ensures
            final(self).wf(),
            token@.len() == 64,
            forall|i: int| 0 <= i < token@.len() ==> is_hex_char(#[trigger] token@[i]),
            spec_token_built(token@, now_nanos),
            contains_token(final(self).entries(), token@),
            final(self).entries()[sidx_of(final(self).entries(), token@)].session.username
                == username,
            final(self).entries()[sidx_of(final(self).entries(), token@)].session.created_at
                == now_nanos,
            !contains_token(old(self).entries(), token@) ==> (final(self).entries().drop_last()
                == old(self).entries() && final(self).entries().last().token@ == token@),
            contains_token(old(self).entries(), token@) ==> final(self).entries() == old(
                self,
            ).entries().update(
                sidx_of(old(self).entries(), token@),
                spec_rebound(
                    old(self).entries()[sidx_of(old(self).entries(), token@)],
                    username,
                    now_nanos,
                ),
            ),
    {
        let token = generate_token(now_nanos);
        let session = Session { username, created_at: now_nanos };
        let ghost pre = self.entries@;
        match self.find(token.as_str()) {
            Option::Some(i) => {
                self.entries[i].session = session;
                proof {
                    lemma_sidx_of_unique(pre, token@, i as int);
                    assert forall|p: int, q: int| 0 <= p < q < self.entries@.len() implies self
                        .entries@[p].token@ != self.entries@[q].token@ by {
                        assert(self.entries@[p].token@ == pre[p].token@);
                        assert(self.entries@[q].token@ == pre[q].token@);
                    }
                    assert(self.entries@[i as int].token@ == token@);
                    lemma_sidx_of_unique(self.entries@, token@, i as int);
                }
            },
            Option::None => {
                let entry = SessionEntry { token: token.clone(), session };
                self.entries.push(entry);
                proof {
                    assert(self.entries@.drop_last() =~= pre);
                    assert forall|p: int, q: int| 0 <= p < q < self.entries@.len() implies self
                        .entries@[p].token@ != self.entries@[q].token@ by {
                        if q == pre.len() {
                            assert(pre[p].token@ != token@);
                        }
                    }
                    lemma_sidx_of_unique(self.entries@, token@, pre.len() as int);
                }
            },
        }
        token
    }

    /// Return the principal a token is bound to, if any.
    pub fn validate_session(&self, token: &str) -> (r: Option<String>)
        requires
            self.wf(),
        ensures
            !contains_token(self.entries(), token@) ==> r is None,
            contains_token(self.entries(), token@) ==> (r matches Some(u) && u@ == self.entries()[
                sidx_of(self.entries(), token@)
            ].session.username@),
    {
        match self.find(token) {
            Option::Some(i) => {
                proof {
                    lemma_sidx_of_unique(self.entries@, token@, i as int);
                }
                Option::Some(self.entries[i].session.username.clone())
            },
            Option::None => Option::None,
        }
    }

    /// Revoke a token: drop its entry; a token not in the store is a
    /// silent no-op.
    pub fn remove_session(&mut self, token: &str)
        requires
            old(self).wf(),
        ensures
            final(self).wf(),
            final(self).entries() == spec_removed(old(self).entries(), token@),
    {
        let ghost pre = self.entries@;
        match self.find(token) {
            Option::Some(i) => {
                self.entries.remove(i);
                proof {
                    lemma_sidx_of_unique(pre, token@, i as int);
                    lemma_distinct_tokens_remove(pre, i as int);
                }
            },
            Option::None => {},
        }
    }

    /// Drop every session older than 24 hours, as of `now_nanos`.
    pub fn cleanup_expired(&mut self, now_nanos: u64)
        requires
            old(self).wf(),
        ensures
            final(self).wf(),
            final(self).entries() == spec_retained(old(self).entries(), now_nanos),
    {
        let n = self.entries.len();
        let mut kept: Vec<SessionEntry> = Vec::new();
        let mut i: usize = 0;
        proof {
            assert(self.entries@.take(0) =~= Seq::<SessionEntry>::empty());
        }
        while i < n
            invariant
                *self == *old(self),
                n == self.entries@.len(),
                i <= n,
                kept@ == spec_retained(self.entries@.take(i as int), now_nanos),
            decreases n - i,
        {
            let ghost prefix = self.entries@.take(i as int);
            let e = &self.entries[i];
            proof {
                assert(self.entries@.take(i + 1).drop_last() =~= prefix);
                assert(self.entries@.take(i + 1).last() == self.entries@[i as int]);
            }
            if now_nanos < e.session.created_at || now_nanos - e.session.created_at
                < MAX_SESSION_AGE_NANOS {
                kept.push(clone_entry(e));
            }
            i += 1;
        }
        proof {
            assert(self.entries@.take(n as int) =~= self.entries@);
            lemma_retained_wf(self.entries@, now_nanos);
        }
        self.entries = kept;
    }
}

impl Default for SessionStore {
    /// An empty store.
    fn default() -> (s: Self)
        ensures
            s.wf(),
            s.entries() == Seq::<SessionEntry>::empty(),
    {
        SessionStore::new()
    }
}

fn clone_entry(e: &SessionEntry) -> (c: SessionEntry)
    ensures
        c == *e,
{
    SessionEntry {
        token: e.token.clone(),
        session: Session {
            username: e.session.username.clone(),
            created_at: e.session.created_at,
        },
    }
}

/// Under distinct tokens, the entry found at any position carrying the
/// token is the entry `sidx_of` points at.
proof fn lemma_sidx_of_unique(s: Seq<SessionEntry>, token: Seq<char>, i: int)
    requires
        distinct_tokens(s),
        0 <= i < s.len(),
        s[i].token@ == token,
    ensures
        sidx_of(s, token) == i,
{
    let j = sidx_of(s, token);
    assert(0 <= j < s.len() && s[j].token@ == token);
    if i < j {
        assert(s[i].token@ != s[j].token@);
    } else if j < i {
        assert(s[j].token@ != s[i].token@);
    }
}

/// Removing an entry keeps the remaining tokens pairwise distinct.
proof fn lemma_distinct_tokens_remove(s: Seq<SessionEntry>, i: int)
    requires
        distinct_tokens(s),
        0 <= i < s.len(),
    ensures
        distinct_tokens(s.remove(i)),
{
    let t = s.remove(i);
    assert forall|p: int, q: int| 0 <= p < q < t.len() implies t[p].token@ != t[q].token@ by {
        let p0 = if p < i {
            p
        } else {
            p + 1
        };
        let q0 = if q < i {
            q
        } else {
            q + 1
        };
        assert(t[p] == s[p0]);
        assert(t[q] == s[q0]);
    }
}

/// What survives a cleanup is a subset of what was there: distinctness
/// carries over and no new token appears.
proof fn lemma_retained_wf(s: Seq<SessionEntry>, now: u64)
    requires
        distinct_tokens(s),
    ensures
        distinct_tokens(spec_retained(s, now)),
        forall|t: Seq<char>| contains_token(spec_retained(s, now), t) ==> contains_token(s, t),
        forall|k: int|
            0 <= k < spec_retained(s, now).len() ==> exists|j: int|
                0 <= j < s.len() && #[trigger] spec_retained(s, now)[k] == s[j],
    decreases s.len(),
{
    if s.len() > 0 {
        let d = s.drop_last();
        assert(distinct_tokens(d)) by {
            assert(forall|p: int, q: int| 0 <= p < q < d.len() ==> d[p] == s[p] && d[q] == s[q]);
        }
        lemma_retained_wf(d, now);
        let rest = spec_retained(d, now);
        if is_fresh(s.last(), now) {
            let surv = rest.push(s.last());
            assert forall|t: Seq<char>| contains_token(surv, t) implies contains_token(s, t) by {
                let k = choose|k: int| 0 <= k < surv.len() && surv[k].token@ == t;
                if k < rest.len() {
                    let j = choose|j: int| 0 <= j < d.len() && d[j].token@ == t;
                    assert(s[j].token@ == t);
                } else {
                    assert(s[s.len() - 1].token@ == t);
                }
            }
            assert forall|p: int, q: int| 0 <= p < q < surv.len() implies surv[p].token@
                != surv[q].token@ by {
                if q == surv.len() - 1 {
                    let j = choose|j: int| 0 <= j < d.len() && rest[p] == d[j];
                    assert(s[j].token@ != s[s.len() - 1].token@);
                }
            }
            assert forall|k: int| 0 <= k < surv.len() implies exists|j: int|
                0 <= j < s.len() && #[trigger] surv[k] == s[j] by {
                if k < rest.len() {
                    let j = choose|j: int| 0 <= j < d.len() && rest[k] == d[j];
                    assert(surv[k] == s[j]);
                } else {
                    assert(surv[k] == s[s.len() - 1]);
                }
            }
        } else {
            assert forall|t: Seq<char>| contains_token(rest, t) implies contains_token(s, t) by {
                let j = choose|j: int| 0 <= j < d.len() && d[j].token@ == t;
                assert(s[j].token@ == t);
            }
            assert forall|k: int| 0 <= k < rest.len() implies exists|j: int|
                0 <= j < s.len() && #[trigger] rest[k] == s[j] by {
                let j = choose|j: int| 0 <= j < d.len() && rest[k] == d[j];
                assert(rest[k] == s[j]);
            }
        }
    }
}

/// Revocation is final and exact: after a token is removed no entry
/// carries it — a later lookup finds nothing — removing it again changes
/// nothing, and every other token is bound exactly as before.
pub proof fn lemma_logout_idempotent(s: Seq<SessionEntry>, token: Seq<char>)
    requires
        distinct_tokens(s),
    ensures
        !contains_token(spec_removed(s, token), token),
        spec_removed(spec_removed(s, token), token) == spec_removed(s, token),
        forall|o: Seq<char>|
            o != token ==> contains_token(spec_removed(s, token), o) == contains_token(s, o),
{
    if contains_token(s, token) {
        let i = sidx_of(s, token);
        assert(0 <= i < s.len() && s[i].token@ == token);
        let t = s.remove(i);
        assert forall|k: int| 0 <= k < t.len() implies t[k].token@ != token by {
            let k0 = if k < i {
                k
            } else {
                k + 1
            };
            assert(t[k] == s[k0]);
            if k0 < i {
                assert(s[k0].token@ != s[i].token@);
            } else {
                assert(s[i].token@ != s[k0].token@);
            }
        }
        assert forall|o: Seq<char>| o != token implies contains_token(t, o) == contains_token(
            s,
            o,
        ) by {
            if contains_token(t, o) {
                let k = choose|k: int| 0 <= k < t.len() && t[k].token@ == o;
                let k0 = if k < i {
                    k
                } else {
                    k + 1
                };
                assert(s[k0].token@ == o);
            }
            if contains_token(s, o) {
                let k = choose|k: int| 0 <= k < s.len() && s[k].token@ == o;
                let k1 = if k < i {
                    k
                } else {
                    k - 1
                };
                assert(k != i);
                assert(t[k1] == s[k]);
                assert(contains_token(t, o));
            }
        }
    }
}

/// The cleanup rejects what it removes: an entry past the maximum age is
/// gone after `cleanup_expired`, so a later lookup of its token finds
/// nothing.
pub proof fn lemma_gc_rejects(s: Seq<SessionEntry>, now: u64, i: int)
    requires
        distinct_tokens(s),
        0 <= i < s.len(),
        !is_fresh(s[i], now),
    ensures
        !contains_token(spec_retained(s, now), s[i].token@),
    decreases s.len(),
{
    let d = s.drop_last();
    assert(distinct_tokens(d)) by {
        assert(forall|p: int, q: int| 0 <= p < q < d.len() ==> d[p] == s[p] && d[q] == s[q]);
    }
    lemma_retained_wf(d, now);
    let rest = spec_retained(d, now);
    if i == s.len() - 1 {
        if contains_token(rest, s[i].token@) {
            let k = choose|k: int| 0 <= k < d.len() && d[k].token@ == s[i].token@;
            assert(s[k].token@ != s[i].token@);
        }
    } else {
        lemma_gc_rejects(d, now, i);
        assert(d[i] == s[i]);
        if is_fresh(s.last(), now) {
            if contains_token(rest.push(s.last()), s[i].token@) {
                let k = choose|k: int|
                    0 <= k < rest.push(s.last()).len() && rest.push(s.last())[k].token@
                        == s[i].token@;
                if k < rest.len() {
                    assert(contains_token(rest, s[i].token@));
                } else {
                    assert(s[i].token@ != s[s.len() - 1].token@);
                }
            }
        }
    }
}

/// How the operating-system credential check ended, as the caller saw it.
#[derive(Debug)]
pub enum OsAuthOutcome {
    /// The check exited with status zero.
    Accepted,
    /// The check exited with a non-zero status.
    Rejected,
    /// The check could not be run; the message says why.
    Error(String),
    /// No credential check exists on this platform.
    Unsupported,
}

/// A character allowed in a username: letters, digits, underscore,
/// hyphen, or dot. Anything else could smuggle shell syntax into the
/// credential check.
pub open spec fn is_username_char(c: char) -> bool {
    ('a' <= c && c <= 'z') || ('A' <= c && c <= 'Z') || ('0' <= c && c <= '9') || c == '_' || c
        == '-' || c == '.'
}

/// Every character of the username is allowed.
pub open spec fn spec_username_ok(u: Seq<char>) -> bool {
    forall|i: int| 0 <= i < u.len() ==> is_username_char(u[i])
}

/// Check a username against the allowed character set.
pub fn username_is_valid(u: &str) -> (r: bool)
    ensures
        r == spec_username_ok(u@),
{
    let n = u.unicode_len();
    let mut i: usize = 0;
    while i < n
        invariant
            n == u@.len(),
            i <= n,
            forall|j: int| 0 <= j < i ==> is_username_char(u@[j]),
        decreases n - i,
    {
        let c = u.get_char(i);
        let ok = ('a' <= c && c <= 'z') || ('A' <= c && c <= 'Z') || ('0' <= c && c <= '9') || c
            == '_' || c == '-' || c == '.';
        if !ok {
            assert(!is_username_char(u@[i as int]));
            return false;
        }
        i += 1;
    }
    true
}

/// The verdict of an operating-system login: empty credentials and
/// unsafe usernames are rejected before anything runs; otherwise the
/// outcome of the credential check decides, and only status zero logs
/// the user in. Every failure of the check itself — rejection or a check
/// that could not run — is reported with the one fixed
/// invalid-credentials message, so the response carries no
/// credential-probing signal; the detailed cause stays in the outcome
/// for the caller's log. The caller runs the check only when
/// `check_needed` grants it.
pub fn authenticate_os(username: &str, password: &str, outcome: &OsAuthOutcome) -> (r: Result<
    String,
    String,
>)
    ensures
        (username@.len() == 0 || password@.len() == 0) ==> (r matches Err(m) && m@
            == "Username and password required"@),
        (username@.len() > 0 && password@.len() > 0 && !spec_username_ok(username@)) ==> (r matches
            Err(m) && m@ == "Invalid username"@),
        (username@.len() > 0 && password@.len() > 0 && spec_username_ok(username@)) ==> match outcome {
            OsAuthOutcome::Accepted => r matches Ok(u) && u@ == username@,
            OsAuthOutcome::Rejected => r matches Err(m) && m@ == "Invalid username or password"@,
            OsAuthOutcome::Error(_) => r matches Err(m) && m@
                == "Invalid username or password"@,
            OsAuthOutcome::Unsupported => r matches Err(m) && m@
                == "Authentication not supported on this platform"@,
        },
{
    if username.unicode_len() == 0 || password.unicode_len() == 0 {
        return Result::Err("Username and password required".to_owned());
    }
    if !username_is_valid(username) {
        return Result::Err("Invalid username".to_owned());
    }
    match outcome {
        OsAuthOutcome::Accepted => Result::Ok(username.to_owned()),
        OsAuthOutcome::Rejected => Result::Err("Invalid username or password".to_owned()),
        OsAuthOutcome::Error(_) => Result::Err("Invalid username or password".to_owned()),
        OsAuthOutcome::Unsupported => Result::Err(
            "Authentication not supported on this platform".to_owned(),
        ),
    }
}

/// How a remote-shell credential dry run ended, as the caller saw it:
/// either the handshake authenticated, or it failed with this detail
/// (connection refused, key unreadable, credentials rejected).
#[derive(Debug)]
pub enum RemoteAuthOutcome {
    Accepted,
    Failed(String),
}

/// The verdict of a remote login: the dry run decides, and every failure
/// — whatever its stage or cause — is reported with the one fixed
/// invalid-credentials message, so the response carries no
/// credential-probing signal; the detail stays in the outcome for the
/// caller's log.
pub fn authenticate_remote(username: &str, outcome: &RemoteAuthOutcome) -> (r: Result<
    String,
    String,
>)
    ensures
        outcome is Accepted ==> (r matches Ok(u) && u@ == username@),
        outcome is Failed ==> (r matches Err(m) && m@ == "Invalid username or password"@),
{
    match outcome {
        RemoteAuthOutcome::Accepted => Result::Ok(username.to_owned()),
        RemoteAuthOutcome::Failed(_) => Result::Err("Invalid username or password".to_owned()),
    }
}

/// Whether the credential check should run at all: exactly when the
/// inputs pass the guards that `authenticate_os` applies first.
pub fn check_needed(username: &str, password: &str) -> (r: bool)
    ensures
        r == (username@.len() > 0 && password@.len() > 0 && spec_username_ok(username@)),
{
    username.unicode_len() > 0 && password.unicode_len() > 0 && username_is_valid(username)
}

} // verus!
