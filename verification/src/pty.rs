//! The local pseudo-terminal side: the registry of spawned terminals and
//! the plan for the child command.
//!
//! Allocating the pseudo-terminal pair, spawning the child, and moving
//! bytes are process I/O and happen outside the library; the library
//! keeps the table of ids and fixes exactly what is spawned.

use vstd::prelude::*;

use crate::error::TerminalError;
use crate::text::str_eq;

verus! {

/// Some id in `s` equals `id`.
pub open spec fn contains_name(s: Seq<String>, id: Seq<char>) -> bool {
    exists|i: int| 0 <= i < s.len() && s[i]@ == id
}

/// The position of `id` in `s`; meaningful only under `contains_name`
/// and `distinct_names`.
pub open spec fn name_idx_of(s: Seq<String>, id: Seq<char>) -> int {
    choose|i: int| 0 <= i < s.len() && s[i]@ == id
}

/// No id occurs twice.
pub open spec fn distinct_names(s: Seq<String>) -> bool {
    forall|i: int, j: int| 0 <= i < j < s.len() ==> s[i]@ != s[j]@
}

/// The table of spawned local terminals, by id. The pseudo-terminal
/// handles themselves live with the caller under the same ids.
pub struct PtyManager {
    ids: Vec<String>,
}

impl Default for PtyManager {
    /// An empty table.
    fn default() -> (m: Self)
        ensures
            m.wf(),
            m.ids() == Seq::<String>::empty(),
    {
        PtyManager::new()
    }
}

impl PtyManager {
    /// The registered ids, in spawn order.
    pub closed spec fn ids(&self) -> Seq<String> {
        self.ids@
    }

    /// The table invariant: ids are pairwise distinct.
    pub open spec fn wf(&self) -> bool {
        distinct_names(self.ids())
    }

    /// An empty table.
    pub fn new() -> (m: Self)
        ensures
            m.wf(),
            m.ids() == Seq::<String>::empty(),
    {
        let m = PtyManager { ids: Vec::new() };
        proof {
            assert(m.ids() =~= Seq::<String>::empty());
        }
        m
    }

    fn find(&self, id: &str) -> (r: Option<usize>)
        ensures
            match r {
                Option::Some(i) => i < self.ids().len() && self.ids()[i as int]@ == id@,
                Option::None => !contains_name(self.ids(), id@),
            },
    {
        let n = self.ids.len();
        let mut i: usize = 0;
        while i < n
            invariant
                n == self.ids().len(),
                i <= n,
                forall|j: int| 0 <= j < i ==> self.ids()[j]@ != id@,
            decreases n - i,
        {
            if str_eq(self.ids[i].as_str(), id) {
                return Option::Some(i);
            }
            i += 1;
        }
        Option::None
    }

    /// Register a terminal about to be spawned. Fails with
    /// `AlreadyExists` when the id is taken; the caller then spawns
    /// nothing. On success the caller allocates the pseudo-terminal and
    /// spawns the child under this id.
    pub fn spawn(&mut self, terminal_id: &str) -> (r: Result<(), TerminalError>)
        requires
            old(self).wf(),
        ensures
            final(self).wf(),
            contains_name(old(self).ids(), terminal_id@) ==> (r matches Err(
                TerminalError::AlreadyExists(e),
            ) && e@ == terminal_id@ && final(self).ids() == old(self).ids()),
            !contains_name(old(self).ids(), terminal_id@) ==> (r is Ok && final(self).ids().len()
                == old(self).ids().len() + 1 && final(self).ids().drop_last() == old(self).ids()
                && final(self).ids().last()@ == terminal_id@),
    {
        match self.find(terminal_id) {
            Option::Some(_) => Result::Err(TerminalError::AlreadyExists(terminal_id.to_owned())),
            Option::None => {
                let ghost pre = self.ids@;
                self.ids.push(terminal_id.to_owned());
                proof {
                    assert(self.ids@.drop_last() =~= pre);
                    assert forall|i: int, j: int| 0 <= i < j < self.ids@.len() implies self.ids@[i]@
                        != self.ids@[j]@ by {
                        if j == pre.len() {
                            assert(pre[i]@ != terminal_id@);
                        }
                    }
                }
                Result::Ok(())
            },
        }
    }

    /// Decide a resize request: `Ok` exactly when the id is registered;
    /// the caller then sets the window size on the pseudo-terminal.
    pub fn resize(&self, terminal_id: &str) -> (r: Result<(), TerminalError>)
        ensures
            contains_name(self.ids(), terminal_id@) ==> r is Ok,
            !contains_name(self.ids(), terminal_id@) ==> (r matches Err(TerminalError::NotFound(e))
                && e@ == terminal_id@),
    {
        match self.find(terminal_id) {
            Option::Some(_) => Result::Ok(()),
            Option::None => Result::Err(TerminalError::NotFound(terminal_id.to_owned())),
        }
    }

    /// Drop a terminal from the table. The caller kills the child and
    /// waits for it. Fails with `NotFound` when the id is not registered.
    pub fn close(&mut self, terminal_id: &str) -> (r: Result<(), TerminalError>)
        requires
            old(self).wf(),
        ensures
            final(self).wf(),
            !contains_name(old(self).ids(), terminal_id@) ==> (r matches Err(
                TerminalError::NotFound(e),
            ) && e@ == terminal_id@ && final(self).ids() == old(self).ids()),
            contains_name(old(self).ids(), terminal_id@) ==> (r is Ok && final(self).ids() == old(
                self,
            ).ids().remove(name_idx_of(old(self).ids(), terminal_id@))),
    {
        match self.find(terminal_id) {
            Option::None => Result::Err(TerminalError::NotFound(terminal_id.to_owned())),
            Option::Some(i) => {
                let ghost pre = self.ids@;
                self.ids.remove(i);
                proof {
                    let j = name_idx_of(pre, terminal_id@);
                    assert(0 <= j < pre.len() && pre[j]@ == terminal_id@);
                    if (i as int) < j {
                        assert(pre[i as int]@ != pre[j]@);
                    } else if j < i as int {
                        assert(pre[j]@ != pre[i as int]@);
                    }
                    let t = pre.remove(i as int);
                    assert forall|p: int, q: int| 0 <= p < q < t.len() implies t[p]@ != t[q]@ by {
                        let p0 = if p < i as int {
                            p
                        } else {
                            p + 1
                        };
                        let q0 = if q < i as int {
                            q
                        } else {
                            q + 1
                        };
                        assert(t[p] == pre[p0]);
                        assert(t[q] == pre[q0]);
                    }
                }
                Result::Ok(())
            },
        }
    }
}

/// What the child process is started with.
pub struct CommandPlan {
    /// The shell to run.
    pub program: String,
    /// Its arguments.
    pub args: Vec<String>,
    /// The working directory, created first if absent.
    pub cwd: Option<String>,
    /// The child's environment entries.
    pub env: Vec<(String, String)>,
}

/// The shell to use: the `SHELL` environment value when one is set, and
/// `/bin/bash` otherwise.
pub fn default_shell_for(shell_env: Option<String>) -> (r: String)
    ensures
        match shell_env {
            Option::Some(s) => r == s,
            Option::None => r@ == "/bin/bash"@,
        },
{
    match shell_env {
        Option::Some(s) => s,
        Option::None => "/bin/bash".to_owned(),
    }
}

/// Fix the command a new terminal runs: the given shell invoked as a
/// login shell, in the given directory, with the given environment plus
/// `TERM=xterm-256color` appended last so it wins.
pub fn spawn_command_plan(shell: String, cwd: Option<String>, env: Vec<(String, String)>) -> (p:
    CommandPlan)
    ensures
        p.program == shell,
        p.args@.len() == 1,
        p.args@[0]@ == "--login"@,
        p.cwd == cwd,
        p.env@.len() == env@.len() + 1,
        p.env@.drop_last() == env@,
        p.env@.last().0@ == "TERM"@,
        p.env@.last().1@ == "xterm-256color"@,
{
    let ghost pre = env@;
    let mut full_env = env;
    full_env.push(("TERM".to_owned(), "xterm-256color".to_owned()));
    let mut args: Vec<String> = Vec::new();
    args.push("--login".to_owned());
    proof {
        assert(full_env@.drop_last() =~= pre);
    }
    CommandPlan { program: shell, args, cwd, env: full_env }
}

} // verus!
