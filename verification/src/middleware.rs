//! The Command Log Store boundary: every query and update the lifecycle
//! controller makes against the store, with its exact contract. The
//! store here is the in-process one; a driver in front of a remote store
//! reports its failures as `CommandMiddlewareError::DatabaseError`, which
//! the controller classifies separately from a lock conflict.

use vstd::prelude::*;

use crate::args::opt_view;
use crate::command_log::{CommandLog, CommandStatus};
use crate::strutil::str_eq;

verus! {

/// The store-level error taxonomy: a lock conflict is recognizably
/// distinct from a store failure.
pub enum CommandMiddlewareError {
    /// A RUNNING record with this command name and canonical arguments
    /// already exists.
    AlreadyRunning(String, String),
    /// The store itself failed; never retried, always fatal to the
    /// invocation.
    DatabaseError(String),
}

/// The text of the lock-conflict report.
pub open spec fn already_running_text(name: Seq<char>, args: Seq<char>) -> Seq<char> {
    "command "@ + name + " ("@ + args + ") is already running."@
}

/// The text of a store-failure report.
pub open spec fn database_error_text(detail: Seq<char>) -> Seq<char> {
    "database error: "@ + detail
}

impl CommandMiddlewareError {
    /// The human-readable description of the error.
    pub fn message(&self) -> (r: String)
        ensures
            match self {
                CommandMiddlewareError::AlreadyRunning(n, a) => r@ == already_running_text(
                    n@,
                    a@,
                ),
                CommandMiddlewareError::DatabaseError(d) => r@ == database_error_text(d@),
            },
    {
        match self {
            CommandMiddlewareError::AlreadyRunning(n, a) => {
                let mut out = String::from_str("command ");
                out.append(n.as_str());
                out.append(" (");
                out.append(a.as_str());
                out.append(") is already running.");
                proof {
                    assert(out@ =~= already_running_text(n@, a@));
                }
                out
            },
            CommandMiddlewareError::DatabaseError(d) => {
                let mut out = String::from_str("database error: ");
                out.append(d.as_str());
                proof {
                    assert(out@ =~= database_error_text(d@));
                }
                out
            },
        }
    }
}

/// A record that would hold the advisory lock for `name` + `args`.
pub open spec fn matches_running(l: CommandLog, name: Seq<char>, args: Seq<char>) -> bool {
    &&& l.command_name@ == name
    &&& l.command_args@ == args
    &&& l.status == CommandStatus::RUNNING
}

/// Some record in `s` holds the advisory lock for `name` + `args`.
pub open spec fn has_running(s: Seq<CommandLog>, name: Seq<char>, args: Seq<char>) -> bool {
    exists|i: int| 0 <= i < s.len() && matches_running(s[i], name, args)
}

/// The indices of the lock-holding records, in store order.
pub open spec fn running_indices(s: Seq<CommandLog>, name: Seq<char>, args: Seq<char>) -> Seq<
    int,
>
    decreases s.len(),
{
    if s.len() == 0 {
        Seq::empty()
    } else {
        let pre = running_indices(s.drop_last(), name, args);
        if matches_running(s.last(), name, args) {
            pre.push(s.len() - 1)
        } else {
            pre
        }
    }
}

/// The query finds an index exactly when a matching record exists, and
/// every index it finds points at a matching record.
pub proof fn lemma_running_indices(s: Seq<CommandLog>, name: Seq<char>, args: Seq<char>)
    ensures
        running_indices(s, name, args).len() > 0 <==> has_running(s, name, args),
        forall|k: int|
            0 <= k < running_indices(s, name, args).len() ==> {
                &&& 0 <= #[trigger] running_indices(s, name, args)[k] < s.len()
                &&& matches_running(s[running_indices(s, name, args)[k]], name, args)
            },
    decreases s.len(),
{
    if s.len() > 0 {
        lemma_running_indices(s.drop_last(), name, args);
        assert(forall|i: int| 0 <= i < s.len() - 1 ==> s.drop_last()[i] == s[i]);
        if has_running(s, name, args) && !matches_running(s.last(), name, args) {
            let i = choose|i: int| 0 <= i < s.len() && matches_running(s[i], name, args);
            assert(i < s.len() - 1);
            assert(matches_running(s.drop_last()[i], name, args));
        }
    }
}

/// A store transition that appends one new record and touches nothing
/// else — what persisting a fresh log does.
pub open spec fn appends_record(pre: Seq<CommandLog>, post: Seq<CommandLog>) -> bool {
    exists|l: CommandLog| post == pre.push(l)
}

/// A store transition that closes one RUNNING record in place and
/// touches nothing else — what the terminal update does.
pub open spec fn closes_running(pre: Seq<CommandLog>, post: Seq<CommandLog>) -> bool {
    exists|id: int|
        {
            &&& 0 <= id < pre.len()
            &&& (#[trigger] pre[id]).status == CommandStatus::RUNNING
            &&& post.len() == pre.len()
            &&& forall|j: int| 0 <= j < pre.len() && j != id ==> post[j] == pre[j]
        }
}

/// Terminal monotonicity: a Command Log that has reached SUCCESS, ERROR
/// or SKIPPED is never updated again. The framework changes the store
/// only by appending a record or by closing a RUNNING record, and under
/// either transition every terminal record stays exactly as it was.
pub proof fn lemma_terminal_monotone(pre: Seq<CommandLog>, post: Seq<CommandLog>, i: int)
    requires
        0 <= i < pre.len(),
        pre[i].status.is_terminal(),
        appends_record(pre, post) || closes_running(pre, post),
    ensures
        i < post.len(),
        post[i] == pre[i],
{
    if closes_running(pre, post) {
        let id = choose|id: int|
            {
                &&& 0 <= id < pre.len()
                &&& (#[trigger] pre[id]).status == CommandStatus::RUNNING
                &&& post.len() == pre.len()
                &&& forall|j: int| 0 <= j < pre.len() && j != id ==> post[j] == pre[j]
            };
        assert(id != i);
    } else {
        let l = choose|l: CommandLog| post == pre.push(l);
        assert(pre.push(l)[i] == pre[i]);
    }
}

/// Elapsed non-negativity across the store: under the store invariant,
/// every terminal record carries its closing time and its elapsed
/// time, the elapsed time is exactly `closed_at - created_at` in
/// milliseconds, and it is never negative.
pub proof fn lemma_store_terminal_elapsed(mw: CommandMiddleware, i: int)
    requires
        mw.inv(),
        0 <= i < mw@.len(),
        mw@[i].status.is_terminal(),
    ensures
        mw@[i].closed_at is Some,
        mw@[i].elapsed is Some,
        mw@[i].elapsed->0 == mw@[i].closed_at->0 - mw@[i].created_at,
        mw@[i].elapsed->0 >= 0,
{
    crate::command_log::lemma_elapsed_non_negative(mw@[i]);
}

/// The Command Log Store together with the command-related logic over
/// it. This store keeps its records in process; record identity is the
/// position at which a record was inserted, and records are never
/// deleted, so identities are stable.
pub struct CommandMiddleware {
    records: Vec<CommandLog>,
}

impl View for CommandMiddleware {
    type V = Seq<CommandLog>;

    closed spec fn view(&self) -> Seq<CommandLog> {
        self.records@
    }
}

impl CommandMiddleware {
    /// Every stored record is well-formed, carries the identity of its
    /// position, and was created at a non-negative time.
    pub open spec fn inv(self) -> bool {
        forall|i: int|
            0 <= i < self@.len() ==> {
                &&& (#[trigger] self@[i]).wf()
                &&& self@[i].id == Some(i as u64)
                &&& self@[i].created_at >= 0
            }
    }

    /// A fresh, empty store.
    pub fn new() -> (r: CommandMiddleware)
        ensures
            r.inv(),
            r@ == Seq::<CommandLog>::empty(),
    {
        let r = CommandMiddleware { records: Vec::new() };
        proof {
            assert(r@ =~= Seq::<CommandLog>::empty());
        }
        r
    }

    /// How many records the store holds.
    pub fn log_count(&self) -> (n: usize)
        ensures
            n == self@.len(),
    {
        self.records.len()
    }

    /// Read one record back by its identity.
    pub fn get_log(&self, id: usize) -> (r: &CommandLog)
        requires
            id < self@.len(),
        ensures
            *r == self@[id as int],
    {
        &self.records[id]
    }

    /// The store query behind the lock check: the identities of every
    /// record with this name, these canonical arguments, and RUNNING
    /// status.
    pub fn find_running(&self, command_name: &str, command_args: &str) -> (r: Vec<usize>)
        ensures
            r@.map_values(|x: usize| x as int) == running_indices(
                self@,
                command_name@,
                command_args@,
            ),
    {
        let n = self.records.len();
        let mut out: Vec<usize> = Vec::new();
        let mut i: usize = 0;
        proof {
            assert(out@.map_values(|x: usize| x as int) =~= running_indices(
                self@.take(0),
                command_name@,
                command_args@,
            ));
        }
        while i < n
            invariant
                n == self@.len(),
                i <= n,
                out@.map_values(|x: usize| x as int) == running_indices(
                    self@.take(i as int),
                    command_name@,
                    command_args@,
                ),
            decreases n - i,
        {
            let rec = &self.records[i];
            let hit = rec.status == CommandStatus::RUNNING && str_eq(
                rec.command_name.as_str(),
                command_name,
            ) && str_eq(rec.command_args.as_str(), command_args);
            if hit {
                out.push(i);
            }
            proof {
                let t = self@.take(i + 1);
                assert(t.drop_last() =~= self@.take(i as int));
                assert(t.last() == self@[i as int]);
                if hit {
                    assert(out@.map_values(|x: usize| x as int) =~= running_indices(
                        self@.take(i as int),
                        command_name@,
                        command_args@,
                    ).push(i as int));
                }
            }
            i += 1;
        }
        proof {
            assert(self@.take(n as int) =~= self@);
        }
        out
    }

    /// The lock check: succeeds exactly when no RUNNING record matches
    /// the name and canonical arguments; reports the conflict otherwise.
    pub fn try_aquire_lock(&self, command_name: &str, command_args: &str) -> (r: Result<
        (),
        CommandMiddlewareError,
    >)
        ensures
            r is Ok <==> !has_running(self@, command_name@, command_args@),
            r matches Err(e) ==> e matches CommandMiddlewareError::AlreadyRunning(n, a)
                && n@ == command_name@ && a@ == command_args@,
    {
        let found = self.find_running(command_name, command_args);
        proof {
            lemma_running_indices(self@, command_name@, command_args@);
            assert(found@.len() == found@.map_values(|x: usize| x as int).len());
        }
        if found.len() > 0 {
            Err(
                CommandMiddlewareError::AlreadyRunning(
                    String::from_str(command_name),
                    String::from_str(command_args),
                ),
            )
        } else {
            Ok(())
        }
    }

    /// Persist a new RUNNING record created at `now`; the store assigns
    /// it the next identity and returns that. Every existing record is
    /// untouched.
    pub fn create_log(&mut self, command_name: &str, command_args: &str, now: i64) -> (id:
        usize)
        requires
            old(self).inv(),
            0 <= now,
        ensures
            final(self).inv(),
            id == old(self)@.len(),
            final(self)@.len() == old(self)@.len() + 1,
            forall|i: int| 0 <= i < old(self)@.len() ==> final(self)@[i] == old(self)@[i],
            final(self)@[id as int].is_fresh_running(command_name@, command_args@, now),
            final(self)@[id as int].wf(),
            final(self)@[id as int].id == Some(id as u64),
            appends_record(old(self)@, final(self)@),
    {
        let id = self.records.len();
        let rec = CommandLog {
            id: Some(id as u64),
            command_name: String::from_str(command_name),
            command_args: String::from_str(command_args),
            status: CommandStatus::RUNNING,
            message: None,
            created_at: now,
            closed_at: None,
            elapsed: None,
        };
        self.records.push(rec);
        id
    }

    /// Close record `id` out: the single terminal update. The record
    /// must still be RUNNING — a terminal record is never updated again —
    /// and the result status, message and closing fields are computed
    /// from `command_result`, `message` and `now`. No other record is
    /// touched.
    pub fn update_log(
        &mut self,
        id: usize,
        status: CommandStatus,
        message: Option<String>,
        now: i64,
    )
        requires
            old(self).inv(),
            id < old(self)@.len(),
            old(self)@[id as int].status == CommandStatus::RUNNING,
            old(self)@[id as int].created_at <= now,
            status.is_terminal(),
            status == CommandStatus::SUCCESS ==> message is None,
            status == CommandStatus::ERROR || status == CommandStatus::SKIPPED ==> message
                is Some,
        ensures
            final(self).inv(),
            final(self)@.len() == old(self)@.len(),
            forall|i: int|
                0 <= i < old(self)@.len() && i != id ==> final(self)@[i] == old(self)@[i],
            final(self)@[id as int].is_closed_from(
                old(self)@[id as int],
                status,
                opt_view(message),
                now,
            ),
            final(self)@[id as int].wf(),
            final(self)@[id as int].status.is_terminal(),
            closes_running(old(self)@, final(self)@),
    {
        let ghost s = self@;
        let rec = self.records.remove(id);
        let closed = rec.close(status, message, now);
        self.records.insert(id, closed);
        proof {
            assert(self@ =~= s.update(id as int, self@[id as int]));
        }
    }

    /// Persist a new RUNNING record created now, on the store's own
    /// clock, as a driver without an explicit timestamp does. The
    /// reading is defensively clamped into the non-negative range the
    /// audit invariant keeps.
    pub fn create_log_now(&mut self, command_name: &str, command_args: &str) -> (id: usize)
        requires
            old(self).inv(),
        ensures
            final(self).inv(),
            id == old(self)@.len(),
            final(self)@.len() == old(self)@.len() + 1,
            forall|i: int| 0 <= i < old(self)@.len() ==> final(self)@[i] == old(self)@[i],
            matches_running(final(self)@[id as int], command_name@, command_args@),
            final(self)@[id as int].message is None,
            final(self)@[id as int].closed_at is None,
            final(self)@[id as int].elapsed is None,
            final(self)@[id as int].created_at >= 0,
            appends_record(old(self)@, final(self)@),
    {
        let mut now = now_millis();
        if now < 0 {
            now = 0;
        }
        self.create_log(command_name, command_args, now)
    }

    /// Close record `id` out now, on the store's own clock. A clock
    /// that moved backwards since the record was created is clamped to
    /// the creation time, so the elapsed time is never negative.
    pub fn update_log_now(&mut self, id: usize, status: CommandStatus, message: Option<String>)
        requires
            old(self).inv(),
            id < old(self)@.len(),
            old(self)@[id as int].status == CommandStatus::RUNNING,
            status.is_terminal(),
            status == CommandStatus::SUCCESS ==> message is None,
            status == CommandStatus::ERROR || status == CommandStatus::SKIPPED ==> message
                is Some,
        ensures
            final(self).inv(),
            final(self)@.len() == old(self)@.len(),
            forall|i: int|
                0 <= i < old(self)@.len() && i != id ==> final(self)@[i] == old(self)@[i],
            final(self)@[id as int].closed_at is Some,
            final(self)@[id as int].closed_at->0 >= old(self)@[id as int].created_at,
            final(self)@[id as int].is_closed_from(
                old(self)@[id as int],
                status,
                opt_view(message),
                final(self)@[id as int].closed_at->0,
            ),
            final(self)@[id as int].wf(),
            final(self)@[id as int].status.is_terminal(),
            closes_running(old(self)@, final(self)@),
    {
        let created = self.get_log(id).created_at;
        let mut now = now_millis();
        if now < created {
            now = created;
        }
        self.update_log(id, status, message, now)
    }
}

/// Relies on chrono::Utc::now: the current wall-clock time in
/// milliseconds since the epoch. Nothing is promised of a clock
/// reading.
#[verifier::external_body]
fn now_millis() -> (t: i64) {
    chrono::Utc::now().timestamp_millis()
}

} // verus!
