//! The registry of live terminals: quotas, activity tracking, and the
//! reaper of idle sessions.
//!
//! The manager is a state machine over plain values. The caller supplies
//! every timestamp, performs the actual backend work (spawning, killing,
//! delivering bytes), and reports back; the manager decides and records.

use vstd::prelude::*;

use crate::error::TerminalError;

verus! {

/// Whether a terminal drives a local pseudo-terminal or a remote shell
/// channel. A terminal keeps its kind for its whole life.
#[derive(Clone, Copy, PartialEq, Eq, Structural, Debug)]
pub enum BackendKind {
    Local,
    Remote,
}

/// One live terminal as the registry sees it. The backend handle itself
/// (the pseudo-terminal pair or the remote channel) lives with the caller,
/// keyed by the same id.
pub struct TerminalRecord {
    /// The client-chosen identifier, unique within the manager.
    pub id: String,
    /// Window width in character cells; never zero.
    pub cols: u16,
    /// Window height in character cells; never zero.
    pub rows: u16,
    /// Local pseudo-terminal or remote shell.
    pub kind: BackendKind,
    /// When the terminal was created.
    pub created_at: u64,
    /// When the terminal last saw client activity.
    pub last_activity: u64,
    /// True while a socket is actively driving the terminal.
    pub connected: bool,
    /// True until the input queue to the backend writer is closed.
    pub input_open: bool,
    /// Every input chunk accepted for this terminal, oldest first.
    pub input_log: Ghost<Seq<Seq<u8>>>,
}

/// Sizing of the registry: the quota and the reaper's timeout.
pub struct TerminalConfig {
    /// Maximum number of concurrently live terminals.
    pub max_terminals: usize,
    /// Seconds a disconnected terminal may stay idle before it is reaped.
    pub idle_timeout: u64,
}

impl Default for TerminalConfig {
    /// At most 10 terminals; an hour of idle time.
    fn default() -> (c: Self)
        ensures
            c.max_terminals == 10,
            c.idle_timeout == 3600,
    {
        TerminalConfig { max_terminals: 10, idle_timeout: 3600 }
    }
}

/// Some record in `s` carries the id.
pub open spec fn contains_id(s: Seq<TerminalRecord>, id: Seq<char>) -> bool {
    exists|i: int| 0 <= i < s.len() && s[i].id@ == id
}

/// The position of the record carrying the id; meaningful only under
/// `contains_id` and `distinct_ids`.
pub open spec fn idx_of(s: Seq<TerminalRecord>, id: Seq<char>) -> int {
    choose|i: int| 0 <= i < s.len() && s[i].id@ == id
}

/// No two records carry the same id.
pub open spec fn distinct_ids(s: Seq<TerminalRecord>) -> bool {
    forall|i: int, j: int| 0 <= i < j < s.len() ==> s[i].id@ != s[j].id@
}

/// A record whose window has both dimensions non-zero.
pub open spec fn valid_record(r: TerminalRecord) -> bool {
    r.cols > 0 && r.rows > 0
}

/// The record after its activity timestamp is refreshed.
pub open spec fn spec_touched(r: TerminalRecord, now: u64) -> TerminalRecord {
    TerminalRecord { last_activity: now, ..r }
}

/// The record after its driving socket goes away.
pub open spec fn spec_disconnected(r: TerminalRecord) -> TerminalRecord {
    TerminalRecord { connected: false, ..r }
}

/// The record after a new socket attaches to it.
pub open spec fn spec_reconnected(r: TerminalRecord) -> TerminalRecord {
    TerminalRecord { connected: true, ..r }
}

/// The record after its input queue closes.
pub open spec fn spec_input_closed(r: TerminalRecord) -> TerminalRecord {
    TerminalRecord { input_open: false, ..r }
}

/// The record after one input chunk is accepted: the chunk joins the
/// input log and the activity timestamp is refreshed.
pub open spec fn spec_fed(r: TerminalRecord, data: Seq<u8>, now: u64) -> TerminalRecord {
    TerminalRecord { last_activity: now, input_log: Ghost(r.input_log@.push(data)), ..r }
}

/// The record after a window-size change.
pub open spec fn spec_resized(r: TerminalRecord, cols: u16, rows: u16, now: u64) -> TerminalRecord {
    TerminalRecord { cols, rows, last_activity: now, ..r }
}

/// True of a freshly created record.
pub open spec fn spec_new_record(
    r: TerminalRecord,
    id: Seq<char>,
    cols: u16,
    rows: u16,
    kind: BackendKind,
    now: u64,
) -> bool {
    &&& r.id@ == id
    &&& r.cols == cols
    &&& r.rows == rows
    &&& r.kind == kind
    &&& r.created_at == now
    &&& r.last_activity == now
    &&& r.connected
    &&& r.input_open
    &&& r.input_log@ == Seq::<Seq<u8>>::empty()
}

/// The authoritative registry of live terminals.
pub struct SessionManager {
    terminals: Vec<TerminalRecord>,
    max_terminals: usize,
    idle_timeout: u64,
}

impl SessionManager {
    /// The registry's contents, in creation order.
    pub closed spec fn records(&self) -> Seq<TerminalRecord> {
        self.terminals@
    }

    /// The configured quota.
    pub closed spec fn spec_max_terminals(&self) -> usize {
        self.max_terminals
    }

    /// The configured idle timeout, in seconds.
    pub closed spec fn spec_idle_timeout(&self) -> u64 {
        self.idle_timeout
    }

    /// The registry invariant: ids are pairwise distinct, the quota is
    /// respected, and every window has non-zero size.
    pub open spec fn wf(&self) -> bool {
        &&& distinct_ids(self.records())
        &&& self.records().len() <= self.spec_max_terminals()
        &&& forall|i: int| 0 <= i < self.records().len() ==> valid_record(#[trigger] self.records()[i])
    }

    /// Every method leaves the configuration untouched.
    pub open spec fn same_config(&self, other: &Self) -> bool {
        self.spec_max_terminals() == other.spec_max_terminals() && self.spec_idle_timeout()
            == other.spec_idle_timeout()
    }

    /// An empty registry under the given configuration.
    pub fn new(config: TerminalConfig) -> (m: Self)
        ensures
            m.wf(),
            m.records() == Seq::<TerminalRecord>::empty(),
            m.spec_max_terminals() == config.max_terminals,
            m.spec_idle_timeout() == config.idle_timeout,
    {
        let m = SessionManager {
            terminals: Vec::new(),
            max_terminals: config.max_terminals,
            idle_timeout: config.idle_timeout,
        };
        proof {
            assert(m.records() =~= Seq::<TerminalRecord>::empty());
        }
        m
    }

    /// How many terminals are live.
    pub fn len(&self) -> (n: usize)
        ensures
            n == self.records().len(),
    {
        self.terminals.len()
    }

    /// Find the position of the record carrying the id.
    fn find(&self, id: &str) -> (r: Option<usize>)
        ensures
            match r {
                Option::Some(i) => i < self.records().len() && self.records()[i as int].id@ == id@,
                Option::None => !contains_id(self.records(), id@),
            },
    {
        let n = self.terminals.len();
        let mut i: usize = 0;
        while i < n
            invariant
                n == self.records().len(),
                i <= n,
                forall|j: int| 0 <= j < i ==> self.records()[j].id@ != id@,
            decreases n - i,
        {
            if crate::text::str_eq(self.terminals[i].id.as_str(), id) {
                return Option::Some(i);
            }
            i += 1;
        }
        Option::None
    }

    /// Register a new terminal. The quota is checked first, then the id;
    /// on success the record starts connected, with both timestamps at
    /// `now`. The caller spawns the backend after this returns `Ok` and
    /// rolls back with `close` if the spawn fails.
    pub fn create(
        &mut self,
        id: &str,
        cols: u16,
        rows: u16,
        kind: BackendKind,
        now: u64,
    ) -> (r: Result<(), TerminalError>)
        requires
            old(self).wf(),
            cols > 0,
            rows > 0,
        ensures
            final(self).wf(),
            final(self).same_config(old(self)),
            old(self).records().len() >= old(self).spec_max_terminals() ==> (r matches Err(
                TerminalError::MaxTerminalsReached,
            ) && final(self).records() == old(self).records()),
            (old(self).records().len() < old(self).spec_max_terminals() && contains_id(
                old(self).records(),
                id@,
            )) ==> (r matches Err(TerminalError::AlreadyExists(e)) && e@ == id@
                && final(self).records() == old(self).records()),
            (old(self).records().len() < old(self).spec_max_terminals() && !contains_id(
                old(self).records(),
                id@,
            )) ==> (r is Ok && final(self).records().len() == old(self).records().len() + 1
                && final(self).records().drop_last() == old(self).records() && spec_new_record(
                final(self).records().last(),
                id@,
                cols,
                rows,
                kind,
                now,
            )),
    {
        if self.terminals.len() >= self.max_terminals {
            return Result::Err(TerminalError::MaxTerminalsReached);
        }
        match self.find(id) {
            Option::Some(_) => Result::Err(TerminalError::AlreadyExists(id.to_owned())),
            Option::None => {
                let ghost pre = self.terminals@;
                let record = TerminalRecord {
                    id: id.to_owned(),
                    cols,
                    rows,
                    kind,
                    created_at: now,
                    last_activity: now,
                    connected: true,
                    input_open: true,
                    input_log: Ghost(Seq::empty()),
                };
                self.terminals.push(record);
                proof {
                    assert(self.terminals@.drop_last() =~= pre);
                    assert forall|i: int, j: int| 0 <= i < j < self.terminals@.len() implies self
                        .terminals@[i].id@ != self.terminals@[j].id@ by {
                        if j == pre.len() {
                            assert(!contains_id(pre, id@));
                            assert(pre[i].id@ != id@);
                        }
                    }
                }
                Result::Ok(())
            },
        }
    }

    /// Remove a terminal from the registry. The caller kills the backend
    /// child and waits for it. Fails with `NotFound` when the id is not
    /// registered.
    pub fn close(&mut self, id: &str) -> (r: Result<(), TerminalError>)
        requires
            old(self).wf(),
        ensures
            final(self).wf(),
            final(self).same_config(old(self)),
            !contains_id(old(self).records(), id@) ==> (r matches Err(TerminalError::NotFound(e))
                && e@ == id@ && final(self).records() == old(self).records()),
            contains_id(old(self).records(), id@) ==> (r is Ok && final(self).records()
                == old(self).records().remove(idx_of(old(self).records(), id@))),
    {
        match self.find(id) {
            Option::None => Result::Err(TerminalError::NotFound(id.to_owned())),
            Option::Some(i) => {
                let ghost pre = self.terminals@;
                self.terminals.remove(i);
                proof {
                    lemma_idx_of_unique(pre, id@, i as int);
                    lemma_distinct_remove(pre, i as int);
                }
                Result::Ok(())
            },
        }
    }
}

impl SessionManager {
    /// Look a terminal up by id.
    pub fn get_session(&self, id: &str) -> (r: Option<&TerminalRecord>)
        requires
            self.wf(),
        ensures
            match r {
                Option::Some(rec) => contains_id(self.records(), id@) && *rec == self.records()[
                    idx_of(self.records(), id@)
                ],
                Option::None => !contains_id(self.records(), id@),
            },
    {
        match self.find(id) {
            Option::Some(i) => {
                proof {
                    lemma_idx_of_unique(self.records(), id@, i as int);
                }
                Option::Some(&self.terminals[i])
            },
            Option::None => Option::None,
        }
    }

    /// Refresh a terminal's activity timestamp; a silent no-op when the
    /// id is not registered (it may have been reaped meanwhile).
    pub fn touch(&mut self, id: &str, now: u64)
        requires
            old(self).wf(),
        ensures
            final(self).wf(),
            final(self).same_config(old(self)),
            !contains_id(old(self).records(), id@) ==> final(self).records() == old(self).records(),
            contains_id(old(self).records(), id@) ==> final(self).records() == old(
                self,
            ).records().update(
                idx_of(old(self).records(), id@),
                spec_touched(old(self).records()[idx_of(old(self).records(), id@)], now),
            ),
    {
        let ghost pre = self.terminals@;
        match self.find(id) {
            Option::Some(i) => {
                self.terminals[i].last_activity = now;
                proof {
                    lemma_idx_of_unique(pre, id@, i as int);
                    assert(self.terminals@[i as int] == spec_touched(pre[i as int], now));
                    lemma_update_same_id_wf(pre, i as int, self.terminals@[i as int]);
                }
            },
            Option::None => {},
        }
    }

    /// Mark a terminal as no longer driven by a socket. The terminal
    /// stays alive for the idle timeout, permitting reconnection.
    pub fn disconnect(&mut self, id: &str)
        requires
            old(self).wf(),
        ensures
            final(self).wf(),
            final(self).same_config(old(self)),
            !contains_id(old(self).records(), id@) ==> final(self).records() == old(self).records(),
            contains_id(old(self).records(), id@) ==> final(self).records() == old(
                self,
            ).records().update(
                idx_of(old(self).records(), id@),
                spec_disconnected(old(self).records()[idx_of(old(self).records(), id@)]),
            ),
    {
        let ghost pre = self.terminals@;
        match self.find(id) {
            Option::Some(i) => {
                self.terminals[i].connected = false;
                proof {
                    lemma_idx_of_unique(pre, id@, i as int);
                    assert(self.terminals@[i as int] == spec_disconnected(pre[i as int]));
                    lemma_update_same_id_wf(pre, i as int, self.terminals@[i as int]);
                }
            },
            Option::None => {},
        }
    }

    /// Attach a new socket to a surviving terminal: the connected flag
    /// comes back on. Returns whether the terminal was found.
    pub fn reconnect(&mut self, id: &str) -> (found: bool)
        requires
            old(self).wf(),
        ensures
            final(self).wf(),
            final(self).same_config(old(self)),
            found == contains_id(old(self).records(), id@),
            !contains_id(old(self).records(), id@) ==> final(self).records() == old(self).records(),
            contains_id(old(self).records(), id@) ==> final(self).records() == old(
                self,
            ).records().update(
                idx_of(old(self).records(), id@),
                spec_reconnected(old(self).records()[idx_of(old(self).records(), id@)]),
            ),
    {
        let ghost pre = self.terminals@;
        match self.find(id) {
            Option::Some(i) => {
                self.terminals[i].connected = true;
                proof {
                    lemma_idx_of_unique(pre, id@, i as int);
                    assert(self.terminals@[i as int] == spec_reconnected(pre[i as int]));
                    lemma_update_same_id_wf(pre, i as int, self.terminals@[i as int]);
                }
                true
            },
            Option::None => false,
        }
    }

    /// Record that the input queue to the backend writer has closed (the
    /// backend reached end of file or the writer failed). Later input is
    /// refused with `SendError`.
    pub fn mark_input_closed(&mut self, id: &str)
        requires
            old(self).wf(),
        ensures
            final(self).wf(),
            final(self).same_config(old(self)),
            !contains_id(old(self).records(), id@) ==> final(self).records() == old(self).records(),
            contains_id(old(self).records(), id@) ==> final(self).records() == old(
                self,
            ).records().update(
                idx_of(old(self).records(), id@),
                spec_input_closed(old(self).records()[idx_of(old(self).records(), id@)]),
            ),
    {
        let ghost pre = self.terminals@;
        match self.find(id) {
            Option::Some(i) => {
                self.terminals[i].input_open = false;
                proof {
                    lemma_idx_of_unique(pre, id@, i as int);
                    assert(self.terminals@[i as int] == spec_input_closed(pre[i as int]));
                    lemma_update_same_id_wf(pre, i as int, self.terminals@[i as int]);
                }
            },
            Option::None => {},
        }
    }

    /// Accept one input chunk for a terminal. On success the chunk joins
    /// the terminal's input log — input is delivered in exactly the order
    /// accepted — and the caller hands the same bytes to the backend
    /// writer. Fails with `NotFound` for an unknown id and with
    /// `SendError` when the input queue has closed; activity is refreshed
    /// in the latter case, as the terminal was found.
    pub fn send_input(&mut self, id: &str, data: &[u8], now: u64) -> (r: Result<
        (),
        TerminalError,
    >)
        requires
            old(self).wf(),
        ensures
            final(self).wf(),
            final(self).same_config(old(self)),
            !contains_id(old(self).records(), id@) ==> (r matches Err(TerminalError::NotFound(e))
                && e@ == id@ && final(self).records() == old(self).records()),
            (contains_id(old(self).records(), id@) && !old(self).records()[idx_of(
                old(self).records(),
                id@,
            )].input_open) ==> (r matches Err(TerminalError::SendError(m)) && m@
                == "input queue closed"@ && final(self).records() == old(self).records().update(
                idx_of(old(self).records(), id@),
                spec_touched(old(self).records()[idx_of(old(self).records(), id@)], now),
            )),
            (contains_id(old(self).records(), id@) && old(self).records()[idx_of(
                old(self).records(),
                id@,
            )].input_open) ==> (r is Ok && final(self).records() == old(self).records().update(
                idx_of(old(self).records(), id@),
                spec_fed(old(self).records()[idx_of(old(self).records(), id@)], data@, now),
            )),
    {
        let ghost pre = self.terminals@;
        match self.find(id) {
            Option::None => Result::Err(TerminalError::NotFound(id.to_owned())),
            Option::Some(i) => {
                proof {
                    lemma_idx_of_unique(pre, id@, i as int);
                }
                self.terminals[i].last_activity = now;
                if !self.terminals[i].input_open {
                    proof {
                        assert(self.terminals@[i as int] == spec_touched(pre[i as int], now));
                        lemma_update_same_id_wf(pre, i as int, self.terminals@[i as int]);
                    }
                    return Result::Err(TerminalError::SendError("input queue closed".to_owned()));
                }
                let ghost newlog = self.terminals@[i as int].input_log@.push(data@);
                self.terminals[i].input_log = Ghost(newlog);
                proof {
                    assert(self.terminals@[i as int] == spec_fed(pre[i as int], data@, now));
                    assert(self.terminals@ =~= pre.update(
                        i as int,
                        spec_fed(pre[i as int], data@, now),
                    ));
                    lemma_update_same_id_wf(pre, i as int, self.terminals@[i as int]);
                }
                Result::Ok(())
            },
        }
    }

    /// Change a terminal's window size. When the dimensions are already
    /// current this is a no-op apart from the activity refresh, and the
    /// caller issues no window-change request to the backend.
    pub fn resize(&mut self, id: &str, cols: u16, rows: u16, now: u64) -> (r: Result<
        ResizeOutcome,
        TerminalError,
    >)
        requires
            old(self).wf(),
            cols > 0,
            rows > 0,
        ensures
            final(self).wf(),
            final(self).same_config(old(self)),
            !contains_id(old(self).records(), id@) ==> (r matches Err(TerminalError::NotFound(e))
                && e@ == id@ && final(self).records() == old(self).records()),
            (contains_id(old(self).records(), id@) && (old(self).records()[idx_of(
                old(self).records(),
                id@,
            )].cols != cols || old(self).records()[idx_of(old(self).records(), id@)].rows != rows))
                ==> (r matches Ok(o) && o == ResizeOutcome::Resized && final(self).records() == old(
                self,
            ).records().update(
                idx_of(old(self).records(), id@),
                spec_resized(old(self).records()[idx_of(old(self).records(), id@)], cols, rows, now),
            )),
            (contains_id(old(self).records(), id@) && old(self).records()[idx_of(
                old(self).records(),
                id@,
            )].cols == cols && old(self).records()[idx_of(old(self).records(), id@)].rows == rows)
                ==> (r matches Ok(o) && o == ResizeOutcome::Unchanged && final(self).records()
                == old(self).records().update(
                idx_of(old(self).records(), id@),
                spec_touched(old(self).records()[idx_of(old(self).records(), id@)], now),
            )),
    {
        let ghost pre = self.terminals@;
        match self.find(id) {
            Option::None => Result::Err(TerminalError::NotFound(id.to_owned())),
            Option::Some(i) => {
                proof {
                    lemma_idx_of_unique(pre, id@, i as int);
                }
                let same = self.terminals[i].cols == cols && self.terminals[i].rows == rows;
                self.terminals[i].last_activity = now;
                if same {
                    proof {
                        assert(self.terminals@[i as int] == spec_touched(pre[i as int], now));
                        lemma_update_same_id_wf(pre, i as int, self.terminals@[i as int]);
                    }
                    Result::Ok(ResizeOutcome::Unchanged)
                } else {
                    self.terminals[i].cols = cols;
                    self.terminals[i].rows = rows;
                    proof {
                        assert(self.terminals@[i as int] == spec_resized(
                            pre[i as int],
                            cols,
                            rows,
                            now,
                        ));
                        assert(self.terminals@ =~= pre.update(
                            i as int,
                            spec_resized(pre[i as int], cols, rows, now),
                        ));
                        lemma_update_same_id_wf(pre, i as int, self.terminals@[i as int]);
                    }
                    Result::Ok(ResizeOutcome::Resized)
                }
            },
        }
    }
}

/// Whether a resize had to change anything: the backend receives a
/// window-change request only for `Resized`.
#[derive(Clone, Copy, PartialEq, Eq, Structural, Debug)]
pub enum ResizeOutcome {
    Resized,
    Unchanged,
}

/// Updating one record with a record of the same id and a valid window
/// preserves the registry invariant.
proof fn lemma_update_same_id_wf(s: Seq<TerminalRecord>, i: int, r: TerminalRecord)
    requires
        distinct_ids(s),
        0 <= i < s.len(),
        r.id@ == s[i].id@,
    ensures
        distinct_ids(s.update(i, r)),
{
    let t = s.update(i, r);
    assert forall|p: int, q: int| 0 <= p < q < t.len() implies t[p].id@ != t[q].id@ by {
        assert(t[p].id@ == s[p].id@);
        assert(t[q].id@ == s[q].id@);
    }
}

/// A terminal is ripe for reaping when no socket drives it and it has
/// been idle for longer than the timeout.
pub open spec fn is_expired(r: TerminalRecord, now: u64, timeout: u64) -> bool {
    !r.connected && (now as int) > (r.last_activity as int) + (timeout as int)
}

/// The records that survive a reap at time `now`, in their original order.
pub open spec fn spec_survivors(s: Seq<TerminalRecord>, now: u64, timeout: u64) -> Seq<
    TerminalRecord,
>
    decreases s.len(),
{
    if s.len() == 0 {
        s
    } else {
        let rest = spec_survivors(s.drop_last(), now, timeout);
        if is_expired(s.last(), now, timeout) {
            rest
        } else {
            rest.push(s.last())
        }
    }
}

/// The ids a reap at time `now` removes, in their original order.
pub open spec fn spec_reaped_ids(s: Seq<TerminalRecord>, now: u64, timeout: u64) -> Seq<Seq<char>>
    decreases s.len(),
{
    if s.len() == 0 {
        Seq::empty()
    } else {
        let rest = spec_reaped_ids(s.drop_last(), now, timeout);
        if is_expired(s.last(), now, timeout) {
            rest.push(s.last().id@)
        } else {
            rest
        }
    }
}

/// An id is registered in `s.push(x)` exactly when it is registered in
/// `s` or is `x`'s id.
proof fn lemma_contains_push(s: Seq<TerminalRecord>, x: TerminalRecord, id: Seq<char>)
    ensures
        contains_id(s.push(x), id) == (contains_id(s, id) || x.id@ == id),
{
    if contains_id(s, id) {
        let k = choose|k: int| 0 <= k < s.len() && s[k].id@ == id;
        assert(s.push(x)[k].id@ == id);
    }
    if x.id@ == id {
        assert(s.push(x)[s.len() as int].id@ == id);
    }
    if contains_id(s.push(x), id) {
        let k = choose|k: int| 0 <= k < s.push(x).len() && s.push(x)[k].id@ == id;
        if k < s.len() {
            assert(s[k].id@ == id);
        }
    }
}

/// What survives a reap is a subset of what was there: distinctness and
/// validity carry over, nothing grows, and no new id appears.
proof fn lemma_survivors_wf(s: Seq<TerminalRecord>, now: u64, timeout: u64)
    requires
        distinct_ids(s),
    ensures
        distinct_ids(spec_survivors(s, now, timeout)),
        spec_survivors(s, now, timeout).len() <= s.len(),
        forall|id: Seq<char>| contains_id(spec_survivors(s, now, timeout), id) ==> contains_id(s, id),
        forall|k: int|
            0 <= k < spec_survivors(s, now, timeout).len() ==> exists|j: int|
                0 <= j < s.len() && #[trigger] spec_survivors(s, now, timeout)[k] == s[j],
    decreases s.len(),
{
    if s.len() > 0 {
        let d = s.drop_last();
        assert(distinct_ids(d)) by {
            assert(forall|i: int, j: int| 0 <= i < j < d.len() ==> d[i] == s[i] && d[j] == s[j]);
        }
        lemma_survivors_wf(d, now, timeout);
        let rest = spec_survivors(d, now, timeout);
        if !is_expired(s.last(), now, timeout) {
            let surv = rest.push(s.last());
            assert forall|id: Seq<char>| contains_id(surv, id) implies contains_id(s, id) by {
                lemma_contains_push(rest, s.last(), id);
                if contains_id(rest, id) {
                    let k = choose|k: int| 0 <= k < d.len() && d[k].id@ == id;
                    assert(s[k].id@ == id);
                } else {
                    assert(s.last().id@ == id);
                    assert(s[s.len() - 1].id@ == id);
                }
            }
            assert forall|p: int, q: int| 0 <= p < q < surv.len() implies surv[p].id@
                != surv[q].id@ by {
                if q == surv.len() - 1 {
                    let el = surv[p];
                    assert(exists|j: int| 0 <= j < d.len() && rest[p] == d[j]);
                    let j = choose|j: int| 0 <= j < d.len() && rest[p] == d[j];
                    assert(s[j].id@ != s[s.len() - 1].id@);
                }
            }
            assert forall|k: int| 0 <= k < surv.len() implies exists|j: int|
                0 <= j < s.len() && #[trigger] surv[k] == s[j] by {
                if k < rest.len() {
                    let j = choose|j: int| 0 <= j < d.len() && rest[k] == d[j];
                    assert(surv[k] == s[j]);
                } else {
                    assert(surv[k] == s[s.len() - 1]);
                }
            }
        } else {
            assert forall|id: Seq<char>| contains_id(rest, id) implies contains_id(s, id) by {
                let k = choose|k: int| 0 <= k < d.len() && d[k].id@ == id;
                assert(s[k].id@ == id);
            }
            assert forall|k: int| 0 <= k < rest.len() implies exists|j: int|
                0 <= j < s.len() && #[trigger] rest[k] == s[j] by {
                let j = choose|j: int| 0 <= j < d.len() && rest[k] == d[j];
                assert(rest[k] == s[j]);
            }
        }
    }
}

/// The reaper is exact: under distinct ids, a terminal that is
/// disconnected and idle past the timeout does not survive the reap, and
/// its id stands in the list of reaped ids handed back for the backend
/// kill. A terminal not ripe for reaping survives.
pub proof fn lemma_reaper_collects(s: Seq<TerminalRecord>, now: u64, timeout: u64, i: int)
    requires
        distinct_ids(s),
        0 <= i < s.len(),
    ensures
        is_expired(s[i], now, timeout) ==> !contains_id(spec_survivors(s, now, timeout), s[i].id@)
            && spec_reaped_ids(s, now, timeout).contains(s[i].id@),
        !is_expired(s[i], now, timeout) ==> contains_id(spec_survivors(s, now, timeout), s[i].id@),
    decreases s.len(),
{
    let d = s.drop_last();
    assert(distinct_ids(d)) by {
        assert(forall|p: int, q: int| 0 <= p < q < d.len() ==> d[p] == s[p] && d[q] == s[q]);
    }
    let rest = spec_survivors(d, now, timeout);
    let reaped_rest = spec_reaped_ids(d, now, timeout);
    lemma_survivors_wf(d, now, timeout);
    if i == s.len() - 1 {
        if is_expired(s[i], now, timeout) {
            assert(!contains_id(rest, s[i].id@)) by {
                if contains_id(rest, s[i].id@) {
                    let k = choose|k: int| 0 <= k < d.len() && d[k].id@ == s[i].id@;
                    assert(s[k].id@ != s[i].id@);
                }
            }
            assert(spec_reaped_ids(s, now, timeout) == reaped_rest.push(s[i].id@));
            assert(reaped_rest.push(s[i].id@)[reaped_rest.len() as int] == s[i].id@);
        } else {
            lemma_contains_push(rest, s.last(), s[i].id@);
        }
    } else {
        lemma_reaper_collects(d, now, timeout, i);
        assert(d[i] == s[i]);
        if is_expired(s[i], now, timeout) {
            if !is_expired(s.last(), now, timeout) {
                lemma_contains_push(rest, s.last(), s[i].id@);
                assert(s[i].id@ != s[s.len() - 1].id@);
            } else {
                assert(reaped_rest.contains(s[i].id@));
                let k = choose|k: int| 0 <= k < reaped_rest.len() && reaped_rest[k] == s[i].id@;
                assert(reaped_rest.push(s.last().id@)[k] == s[i].id@);
            }
        } else {
            if !is_expired(s.last(), now, timeout) {
                lemma_contains_push(rest, s.last(), s[i].id@);
            }
        }
    }
}

fn clone_record(r: &TerminalRecord) -> (c: TerminalRecord)
    ensures
        c == *r,
{
    TerminalRecord {
        id: r.id.clone(),
        cols: r.cols,
        rows: r.rows,
        kind: r.kind,
        created_at: r.created_at,
        last_activity: r.last_activity,
        connected: r.connected,
        input_open: r.input_open,
        input_log: Ghost(r.input_log@),
    }
}

impl SessionManager {
    /// One reaper pass at time `now`: every disconnected terminal idle
    /// past the timeout leaves the registry, and its id is handed back so
    /// the caller can signal and wait for the backend child. Nothing else
    /// changes.
    pub fn reap(&mut self, now: u64) -> (removed: Vec<String>)
        requires
            old(self).wf(),
        ensures
            final(self).wf(),
            final(self).same_config(old(self)),
            final(self).records() == spec_survivors(
                old(self).records(),
                now,
                old(self).spec_idle_timeout(),
            ),
            removed@.map_values(|t: String| t@) == spec_reaped_ids(
                old(self).records(),
                now,
                old(self).spec_idle_timeout(),
            ),
    {
        let n = self.terminals.len();
        let mut kept: Vec<TerminalRecord> = Vec::new();
        let mut removed: Vec<String> = Vec::new();
        let mut i: usize = 0;
        proof {
            assert(self.terminals@.take(0) =~= Seq::<TerminalRecord>::empty());
            assert(removed@.map_values(|t: String| t@) =~= Seq::<Seq<char>>::empty());
        }
        while i < n
            invariant
                *self == *old(self),
                n == self.terminals@.len(),
                i <= n,
                kept@ == spec_survivors(self.terminals@.take(i as int), now, self.idle_timeout),
                removed@.map_values(|t: String| t@) == spec_reaped_ids(
                    self.terminals@.take(i as int),
                    now,
                    self.idle_timeout,
                ),
            decreases n - i,
        {
            let ghost prefix = self.terminals@.take(i as int);
            let ghost removed_pre = removed@;
            let r = &self.terminals[i];
            let expired = !r.connected && now > r.last_activity && now - r.last_activity
                > self.idle_timeout;
            proof {
                assert(self.terminals@.take(i + 1).drop_last() =~= prefix);
                assert(self.terminals@.take(i + 1).last() == self.terminals@[i as int]);
            }
            if expired {
                removed.push(r.id.clone());
                proof {
                    assert(removed@.map_values(|t: String| t@) =~= removed_pre.map_values(
                        |t: String| t@,
                    ).push(self.terminals@[i as int].id@));
                }
            } else {
                kept.push(clone_record(r));
            }
            i += 1;
        }
        proof {
            assert(self.terminals@.take(n as int) =~= self.terminals@);
            lemma_survivors_wf(self.terminals@, now, self.idle_timeout);
        }
        self.terminals = kept;
        removed
    }
}

/// At any instant the registry holds at most the configured maximum of
/// live terminals: the quota check in `create` maintains it.
pub proof fn lemma_quota_invariant(m: &SessionManager)
    requires
        m.wf(),
    ensures
        m.records().len() <= m.spec_max_terminals(),
{
}

/// At any instant the ids in the registry are pairwise distinct; of two
/// creates with the same id the second fails with `AlreadyExists`.
pub proof fn lemma_id_uniqueness(m: &SessionManager)
    requires
        m.wf(),
    ensures
        distinct_ids(m.records()),
{
}

/// The input log after a run of chunks is accepted one by one, as
/// `send_input` appends them.
pub open spec fn spec_log_after(log: Seq<Seq<u8>>, chunks: Seq<Seq<u8>>) -> Seq<Seq<u8>>
    decreases chunks.len(),
{
    if chunks.len() == 0 {
        log
    } else {
        spec_log_after(log.push(chunks.first()), chunks.drop_first())
    }
}

/// Input ordering: accepting a run of chunks one by one — the way
/// `send_input` extends the input log — appends exactly those chunks in
/// the order given, so the byte stream the backend writer consumes is
/// their concatenation after what was already logged.
pub proof fn lemma_input_ordering(log: Seq<Seq<u8>>, chunks: Seq<Seq<u8>>)
    ensures
        spec_log_after(log, chunks) == log + chunks,
        spec_log_after(log, chunks).flatten() == log.flatten() + chunks.flatten(),
    decreases chunks.len(),
{
    if chunks.len() == 0 {
        assert(log + chunks =~= log);
    } else {
        lemma_input_ordering(log.push(chunks.first()), chunks.drop_first());
        assert(log.push(chunks.first()) + chunks.drop_first() =~= log + chunks);
        vstd::seq_lib::lemma_flatten_concat(log, chunks);
    }
}

/// Under distinct ids, the record found at any position carrying the id
/// is the record `idx_of` points at.
proof fn lemma_idx_of_unique(s: Seq<TerminalRecord>, id: Seq<char>, i: int)
    requires
        distinct_ids(s),
        0 <= i < s.len(),
        s[i].id@ == id,
    ensures
        idx_of(s, id) == i,
{
    let j = idx_of(s, id);
    assert(0 <= j < s.len() && s[j].id@ == id);
    if i < j {
        assert(s[i].id@ != s[j].id@);
    } else if j < i {
        assert(s[j].id@ != s[i].id@);
    }
}

/// Removing a record keeps the remaining ids pairwise distinct.
proof fn lemma_distinct_remove(s: Seq<TerminalRecord>, i: int)
    requires
        distinct_ids(s),
        0 <= i < s.len(),
    ensures
        distinct_ids(s.remove(i)),
{
    let t = s.remove(i);
    assert forall|p: int, q: int| 0 <= p < q < t.len() implies t[p].id@ != t[q].id@ by {
        let p0 = if p < i {
            p
        } else {
            p + 1
        };
        let q0 = if q < i {
            q
        } else {
            q + 1
        };
        assert(t[p] == s[p0]);
        assert(t[q] == s[q0]);
        assert(s[p0].id@ != s[q0].id@);
    }
}

/// Closing a terminal removes exactly that terminal: its id is gone, and
/// every other id is registered afterwards exactly when it was before. In
/// particular a second `close` of the same id finds nothing.
pub proof fn lemma_close_removes_only(s: Seq<TerminalRecord>, id: Seq<char>)
    requires
        distinct_ids(s),
        contains_id(s, id),
    ensures
        !contains_id(s.remove(idx_of(s, id)), id),
        forall|o: Seq<char>|
            o != id ==> contains_id(s.remove(idx_of(s, id)), o) == contains_id(s, o),
{
    let i = idx_of(s, id);
    assert(0 <= i < s.len() && s[i].id@ == id);
    let t = s.remove(i);
    assert forall|k: int| 0 <= k < t.len() implies t[k].id@ != id by {
        let k0 = if k < i {
            k
        } else {
            k + 1
        };
        assert(t[k] == s[k0]);
        if k0 < i {
            assert(s[k0].id@ != s[i].id@);
        } else {
            assert(s[i].id@ != s[k0].id@);
        }
    }
    assert forall|o: Seq<char>| o != id implies contains_id(t, o) == contains_id(s, o) by {
        if contains_id(t, o) {
            let k = choose|k: int| 0 <= k < t.len() && t[k].id@ == o;
            let k0 = if k < i {
                k
            } else {
                k + 1
            };
            assert(s[k0].id@ == o);
        }
        if contains_id(s, o) {
            let k = choose|k: int| 0 <= k < s.len() && s[k].id@ == o;
            let k1 = if k < i {
                k
            } else {
                k - 1
            };
            assert(k != i);
            assert(t[k1] == s[k]);
            assert(contains_id(t, o));
        }
    }
}

} // verus!
