//! The Command Lifecycle Controller: begin → execute → end around one
//! invocation. `begin` owns the locking decision and the log creation,
//! `end` owns the single terminal update, and `run` drives the whole
//! state machine for a descriptor whose body the library can execute
//! itself. A host executes an `External` body between `begin` and `end`.

use vstd::prelude::*;

use crate::args::{opt_view, canon_of, CommandArgs};
use crate::command_log::CommandStatus;
use crate::middleware::{
    already_running_text, database_error_text, has_running, CommandMiddleware,
    CommandMiddlewareError,
};
use crate::registry::{CommandBehavior, CommandDescriptor};

verus! {

/// Final status of a command invocation, as reported to the caller.
#[derive(Clone, Copy, PartialEq, Eq, Structural, Debug)]
pub enum CommandResult {
    /// The command successfully terminated.
    SUCCESS,
    /// The command terminated with an error.
    ERROR,
    /// The command was skipped, most often because of a lock conflict.
    SKIPPED,
}

/// The terminal log status that a reported result maps to.
pub open spec fn status_of(r: CommandResult) -> CommandStatus {
    match r {
        CommandResult::SUCCESS => CommandStatus::SUCCESS,
        CommandResult::ERROR => CommandStatus::ERROR,
        CommandResult::SKIPPED => CommandStatus::SKIPPED,
    }
}

/// The controller-level error taxonomy: a lock conflict is reported
/// distinctly from a store failure, so callers can tell "someone else is
/// already doing this" from "this failed".
pub enum CommandError {
    /// The command with these arguments already holds the advisory lock.
    AlreadyRunning(String, String),
    /// The Log Store failed; fatal to the invocation, never retried.
    DatabaseError(String),
}

impl CommandError {
    /// The human-readable description of the error.
    pub fn message(&self) -> (r: String)
        ensures
            match self {
                CommandError::AlreadyRunning(n, a) => r@ == already_running_text(n@, a@),
                CommandError::DatabaseError(d) => r@ == database_error_text(d@),
            },
    {
        match self {
            CommandError::AlreadyRunning(n, a) => {
                let mut out = String::from_str("command ");
                out.append(n.as_str());
                out.append(" (");
                out.append(a.as_str());
                out.append(") is already running.");
                proof {
                    assert(out@ =~= already_running_text(n@, a@));
                }
                out
            },
            CommandError::DatabaseError(d) => {
                let mut out = String::from_str("database error: ");
                out.append(d.as_str());
                proof {
                    assert(out@ =~= database_error_text(d@));
                }
                out
            },
        }
    }
}

/// Translate a store-level failure into the controller's taxonomy: the
/// kinds are carried over one for one, never conflated.
pub fn classify_store_error(e: CommandMiddlewareError) -> (r: CommandError)
    ensures
        match e {
            CommandMiddlewareError::AlreadyRunning(n, a) => r matches CommandError::AlreadyRunning(
                rn,
                ra,
            ) && rn == n && ra == a,
            CommandMiddlewareError::DatabaseError(d) => r matches CommandError::DatabaseError(rd)
                && rd == d,
        },
{
    match e {
        CommandMiddlewareError::AlreadyRunning(n, a) => CommandError::AlreadyRunning(n, a),
        CommandMiddlewareError::DatabaseError(d) => CommandError::DatabaseError(d),
    }
}

/// The failure description one invocation reports upward: closing the
/// log takes priority over propagating the body's own error, so a
/// store failure at the terminal update is surfaced instead of the
/// body's description — the two are distinguishable failure causes,
/// and the audit record already carries the body's.
pub fn surface_failure(body_error: Option<String>, close_error: Option<String>) -> (r: Option<
    String,
>)
    ensures
        match close_error {
            Some(detail) => r matches Some(m) && m@ == database_error_text(detail@),
            None => r == body_error,
        },
{
    match close_error {
        Some(detail) => Some(CommandError::DatabaseError(detail).message()),
        None => body_error,
    }
}

/// The canonical string of an Argument Set: the lock-matching key that
/// the lifecycle records alongside the command name.
pub fn get_args_as_str(args: &CommandArgs) -> (r: String)
    ensures
        r@ == canon_of(args.kvs()),
{
    args.canonical_string()
}

/// Starting phase of an invocation: compute the locking decision and
/// open the Command Log.
///
/// The lock check and the record insert are two separate store
/// operations, not one transaction: two near-simultaneous non-parallel
/// invocations can both pass the check before either writes its
/// RUNNING record. The guarantee is best-effort, not linearizable.
///
/// Two of this module's laws live in the contract below.
///
/// Mutual exclusion (best effort): if some RUNNING record for this name
/// and canonical argument string is in the store, a non-parallel `begin`
/// does not open a RUNNING record — it writes one SKIPPED record, closed
/// on the spot with the conflict description, and reports the conflict,
/// so the caller never executes the body.
///
/// Parallel bypass: a parallel descriptor never consults the lock
/// check — whatever RUNNING records the store holds, `begin` opens a
/// fresh RUNNING record and succeeds.
pub fn begin(
    mw: &mut CommandMiddleware,
    name: &str,
    parallel: bool,
    args_str: &str,
    now: i64,
) -> (r: Result<usize, CommandError>)
    requires
        old(mw).inv(),
        0 <= now,
    ensures
        final(mw).inv(),
        final(mw)@.len() == old(mw)@.len() + 1,
        forall|i: int| 0 <= i < old(mw)@.len() ==> final(mw)@[i] == old(mw)@[i],
        ({
            let l = final(mw)@[old(mw)@.len() as int];
            if parallel || !has_running(old(mw)@, name@, args_str@) {
                &&& r matches Ok(id) && id == old(mw)@.len()
                &&& l.is_fresh_running(name@, args_str@, now)
            } else {
                &&& r matches Err(CommandError::AlreadyRunning(n, a)) && n@ == name@ && a@
                    == args_str@
                &&& l.status == CommandStatus::SKIPPED
                &&& l.command_name@ == name@
                &&& l.command_args@ == args_str@
                &&& opt_view(l.message) == Some(already_running_text(name@, args_str@))
                &&& l.created_at == now
                &&& l.closed_at == Some(now)
                &&& l.elapsed == Some(0i64)
            }
        }),
{
    if !parallel {
        let lock = mw.try_aquire_lock(name, args_str);
        if let Err(conflict) = lock {
            let msg = conflict.message();
            let id = mw.create_log(name, args_str, now);
            mw.update_log(id, CommandStatus::SKIPPED, Some(msg), now);
            match conflict {
                CommandMiddlewareError::AlreadyRunning(n, a) => {
                    return Err(CommandError::AlreadyRunning(n, a));
                },
                CommandMiddlewareError::DatabaseError(d) => {
                    proof {
                        assert(false);
                    }
                    return Err(CommandError::DatabaseError(d));
                },
            }
        }
    }
    let id = mw.create_log(name, args_str, now);
    Ok(id)
}

/// Ending phase of an invocation: the single terminal update of the
/// Command Log opened by `begin`. The record must still be RUNNING —
/// closing a log is done exactly once.
pub fn end(
    mw: &mut CommandMiddleware,
    id: usize,
    command_result: CommandResult,
    message: Option<String>,
    now: i64,
)
    requires
        old(mw).inv(),
        id < old(mw)@.len(),
        old(mw)@[id as int].status == CommandStatus::RUNNING,
        old(mw)@[id as int].created_at <= now,
        command_result == CommandResult::SUCCESS ==> message is None,
        command_result == CommandResult::ERROR || command_result == CommandResult::SKIPPED
            ==> message is Some,
    ensures
        final(mw).inv(),
        final(mw)@.len() == old(mw)@.len(),
        forall|i: int| 0 <= i < old(mw)@.len() && i != id ==> final(mw)@[i] == old(mw)@[i],
        final(mw)@[id as int].is_closed_from(
            old(mw)@[id as int],
            status_of(command_result),
            opt_view(message),
            now,
        ),
        final(mw)@[id as int].wf(),
        final(mw)@[id as int].status.is_terminal(),
{
    let status = match command_result {
        CommandResult::SUCCESS => CommandStatus::SUCCESS,
        CommandResult::ERROR => CommandStatus::ERROR,
        CommandResult::SKIPPED => CommandStatus::SKIPPED,
    };
    mw.update_log(id, status, message, now);
}

/// What one full invocation came to.
pub enum RunOutcome {
    /// The body ran and succeeded; log `id` closed SUCCESS.
    Success { id: usize },
    /// The body ran and failed with `message`; log `id` closed ERROR.
    Failed { id: usize, message: String },
    /// A lock conflict: the body never ran; log `id` closed SKIPPED.
    Skipped { id: usize, message: String },
}

/// Run one invocation of a descriptor whose body this library can
/// execute itself (`Succeed` or `Fail`): canonicalize the arguments,
/// begin, execute, end. `start` and `finish` are the clock readings
/// around the body. A descriptor with an `External` body is driven by
/// the host through `begin` and `end` instead.
pub fn run(
    mw: &mut CommandMiddleware,
    descriptor: &CommandDescriptor,
    args: &CommandArgs,
    start: i64,
    finish: i64,
) -> (r: RunOutcome)
    requires
        old(mw).inv(),
        args.wf(),
        !(descriptor.behavior is External),
        0 <= start <= finish,
    ensures
        final(mw).inv(),
        final(mw)@.len() == old(mw)@.len() + 1,
        forall|i: int| 0 <= i < old(mw)@.len() ==> final(mw)@[i] == old(mw)@[i],
        ({
            let l = final(mw)@[old(mw)@.len() as int];
            let name = descriptor.name@;
            let key = canon_of(args.kvs());
            &&& l.command_name@ == name
            &&& l.command_args@ == key
            &&& l.wf()
            &&& l.status.is_terminal()
            &&& if !descriptor.parallel && has_running(old(mw)@, name, key) {
                &&& r matches RunOutcome::Skipped { id, message } && id == old(mw)@.len()
                    && message@ == already_running_text(name, key)
                &&& l.status == CommandStatus::SKIPPED
                &&& l.created_at == start
                &&& l.closed_at == Some(start)
                &&& l.elapsed == Some(0i64)
            } else if descriptor.behavior is Succeed {
                &&& r matches RunOutcome::Success { id } && id == old(mw)@.len()
                &&& l.status == CommandStatus::SUCCESS
                &&& l.message is None
                &&& l.created_at == start
                &&& l.closed_at == Some(finish)
                &&& l.elapsed == Some((finish - start) as i64)
            } else {
                &&& descriptor.behavior matches CommandBehavior::Fail(m)
                    && (r matches RunOutcome::Failed { id, message } && id == old(mw)@.len()
                    && message == m)
                &&& l.status == CommandStatus::ERROR
                &&& opt_view(l.message) == Some(
                    descriptor.behavior->Fail_0@,
                )
                &&& l.created_at == start
                &&& l.closed_at == Some(finish)
                &&& l.elapsed == Some((finish - start) as i64)
            }
        }),
{
    let key = get_args_as_str(args);
    let opened = begin(mw, descriptor.name.as_str(), descriptor.parallel, key.as_str(), start);
    match opened {
        Err(conflict) => {
            let message = conflict.message();
            let id = mw.log_count() - 1;
            RunOutcome::Skipped { id, message }
        },
        Ok(id) => {
            match &descriptor.behavior {
                CommandBehavior::Succeed => {
                    end(mw, id, CommandResult::SUCCESS, None, finish);
                    RunOutcome::Success { id }
                },
                CommandBehavior::Fail(m) => {
                    let message = m.clone();
                    end(mw, id, CommandResult::ERROR, Some(m.clone()), finish);
                    RunOutcome::Failed { id, message }
                },
                CommandBehavior::External => {
                    proof {
                        assert(false);
                    }
                    RunOutcome::Success { id }
                },
            }
        },
    }
}

} // verus!
