//! The console entry flow: resolve a command name through the Registry,
//! drive the Lifecycle Controller, and map the outcome to a process exit
//! code. Each failure condition gets its own code; the exact integers
//! are a local contract whose only promise is distinctness.

use vstd::prelude::*;

use crate::args::{canon_of, CommandArgs};
use crate::command_log::CommandStatus;
use crate::lifecycle::{run, RunOutcome};
use crate::middleware::{already_running_text, has_running, CommandMiddleware};
use crate::registry::{CommandBehavior, CommandRegistry};

verus! {

/// Exit code of a successful invocation.
pub const EXIT_SUCCESS: i32 = 0;

/// Any failure that none of the specific conditions covers.
pub const ERR_UNKNOWN_RUNTIME_ERROR: i32 = 1;

/// The environment could not be loaded before the framework ran.
pub const ERR_ENV_NOT_LOADED: i32 = 3;

/// The application context could not be built.
pub const ERR_APP_NOT_BUILT: i32 = 4;

/// The server could not be prepared for launch.
pub const ERR_SERVER_IGNITION_FAILED: i32 = 5;

/// The server failed while launching.
pub const ERR_SERVER_LAUNCH_FAILED: i32 = 6;

/// No Command Registry was present in the application context.
pub const ERR_COMMAND_REGISTRY_NOT_FOUND: i32 = 7;

/// The requested command name is not registered.
pub const ERR_COMMAND_NOT_FOUND: i32 = 8;

/// The command executed and its body failed.
pub const ERR_COMMAND_FAILED: i32 = 9;

/// The command was skipped because of a lock conflict.
pub const ERR_COMMAND_SKIPPED: i32 = 10;

/// Pre-runtime errors: everything that can go wrong between process
/// start and a successful command run.
pub enum PreRuntimeErrors {
    /// The server instance could not be prepared for launch.
    FailedToIgniteRocketInstance(String),
    /// The server instance failed while launching.
    FailedToLaunchRocketInstance(String),
    /// No Command Registry in the application context.
    FailedToGetCommandRegistry,
    /// The requested name resolves to no descriptor.
    FailedToGetCommand(String),
    /// The command ran and failed: name and failure description.
    FailedToRunCommand(String, String),
    /// The command was skipped: the lock-conflict description.
    CommandSkipped(String),
}

/// The exit code of each pre-runtime error; all distinct, all non-zero.
pub open spec fn exit_code_spec(e: PreRuntimeErrors) -> i32 {
    match e {
        PreRuntimeErrors::FailedToIgniteRocketInstance(_) => ERR_SERVER_IGNITION_FAILED,
        PreRuntimeErrors::FailedToLaunchRocketInstance(_) => ERR_SERVER_LAUNCH_FAILED,
        PreRuntimeErrors::FailedToGetCommandRegistry => ERR_COMMAND_REGISTRY_NOT_FOUND,
        PreRuntimeErrors::FailedToGetCommand(_) => ERR_COMMAND_NOT_FOUND,
        PreRuntimeErrors::FailedToRunCommand(_, _) => ERR_COMMAND_FAILED,
        PreRuntimeErrors::CommandSkipped(_) => ERR_COMMAND_SKIPPED,
    }
}

/// The failure conditions are distinguishable by code alone: two
/// pre-runtime errors share an exit code only when they are the same
/// condition, and no failure shares the success code.
pub proof fn lemma_exit_codes_distinct(a: PreRuntimeErrors, b: PreRuntimeErrors)
    ensures
        exit_code_spec(a) != EXIT_SUCCESS,
        exit_code_spec(a) == exit_code_spec(b) ==> same_condition(a, b),
{
}

/// Whether two pre-runtime errors report the same failure condition.
pub open spec fn same_condition(a: PreRuntimeErrors, b: PreRuntimeErrors) -> bool {
    match (a, b) {
        (
            PreRuntimeErrors::FailedToIgniteRocketInstance(_),
            PreRuntimeErrors::FailedToIgniteRocketInstance(_),
        ) => true,
        (
            PreRuntimeErrors::FailedToLaunchRocketInstance(_),
            PreRuntimeErrors::FailedToLaunchRocketInstance(_),
        ) => true,
        (
            PreRuntimeErrors::FailedToGetCommandRegistry,
            PreRuntimeErrors::FailedToGetCommandRegistry,
        ) => true,
        (PreRuntimeErrors::FailedToGetCommand(_), PreRuntimeErrors::FailedToGetCommand(_)) => true,
        (
            PreRuntimeErrors::FailedToRunCommand(_, _),
            PreRuntimeErrors::FailedToRunCommand(_, _),
        ) => true,
        (PreRuntimeErrors::CommandSkipped(_), PreRuntimeErrors::CommandSkipped(_)) => true,
        _ => false,
    }
}

/// Map a pre-runtime error to its process exit code.
pub fn exit_code_for(e: &PreRuntimeErrors) -> (code: i32)
    ensures
        code == exit_code_spec(*e),
        code != EXIT_SUCCESS,
{
    match e {
        PreRuntimeErrors::FailedToIgniteRocketInstance(_) => ERR_SERVER_IGNITION_FAILED,
        PreRuntimeErrors::FailedToLaunchRocketInstance(_) => ERR_SERVER_LAUNCH_FAILED,
        PreRuntimeErrors::FailedToGetCommandRegistry => ERR_COMMAND_REGISTRY_NOT_FOUND,
        PreRuntimeErrors::FailedToGetCommand(_) => ERR_COMMAND_NOT_FOUND,
        PreRuntimeErrors::FailedToRunCommand(_, _) => ERR_COMMAND_FAILED,
        PreRuntimeErrors::CommandSkipped(_) => ERR_COMMAND_SKIPPED,
    }
}

/// Map a whole console outcome to its process exit code.
pub fn console_exit_code(r: &Result<i32, PreRuntimeErrors>) -> (code: i32)
    ensures
        match r {
            Ok(c) => code == c,
            Err(e) => code == exit_code_spec(*e),
        },
{
    match r {
        Ok(c) => *c,
        Err(e) => exit_code_for(e),
    }
}

/// Launch the console interface: resolve `command` in the Registry and
/// run it with `args` against the Log Store.
///
/// An unknown name is a distinct error from a failed command, and it
/// writes no log — there is nothing to lock or audit for an unknown
/// command. A lock conflict surfaces as `CommandSkipped`, a body failure
/// as `FailedToRunCommand` with the body's description, and success as
/// exit code 0; the Log Store gains exactly one terminal record in each
/// of those three cases.
pub fn launch_console(
    registry: &CommandRegistry,
    mw: &mut CommandMiddleware,
    command: &str,
    args: &CommandArgs,
    start: i64,
    finish: i64,
) -> (r: Result<i32, PreRuntimeErrors>)
    requires
        registry.inv(),
        old(mw).inv(),
        args.wf(),
        0 <= start <= finish,
        registry.lookup(command@) matches Some(d) ==> !(d.behavior is External),
    ensures
        final(mw).inv(),
        ({
            match registry.lookup(command@) {
                None => {
                    &&& r matches Err(PreRuntimeErrors::FailedToGetCommand(c)) && c@ == command@
                    &&& final(mw)@ == old(mw)@
                },
                Some(d) => {
                    let l = final(mw)@[old(mw)@.len() as int];
                    let key = canon_of(args.kvs());
                    &&& final(mw)@.len() == old(mw)@.len() + 1
                    &&& forall|i: int| 0 <= i < old(mw)@.len() ==> final(mw)@[i] == old(mw)@[i]
                    &&& l.command_name@ == command@
                    &&& l.command_args@ == key
                    &&& l.wf()
                    &&& l.status.is_terminal()
                    &&& if !d.parallel && has_running(old(mw)@, command@, key) {
                        &&& r matches Err(PreRuntimeErrors::CommandSkipped(m)) && m@
                            == already_running_text(command@, key)
                        &&& l.status == CommandStatus::SKIPPED
                    } else if d.behavior is Succeed {
                        &&& r matches Ok(code) && code == EXIT_SUCCESS
                        &&& l.status == CommandStatus::SUCCESS
                    } else {
                        &&& d.behavior matches CommandBehavior::Fail(m) && (r matches Err(
                            PreRuntimeErrors::FailedToRunCommand(n, fm),
                        ) && n@ == command@ && fm == m)
                        &&& l.status == CommandStatus::ERROR
                    }
                },
            }
        }),
{
    let resolved = registry.get(command);
    match resolved {
        None => Err(PreRuntimeErrors::FailedToGetCommand(String::from_str(command))),
        Some(descriptor) => {
            proof {
                crate::registry::lemma_find_name_bounds(registry.entries(), command@);
            }
            let outcome = run(mw, descriptor, args, start, finish);
            match outcome {
                RunOutcome::Success { id: _ } => Ok(EXIT_SUCCESS),
                RunOutcome::Skipped { id: _, message } => Err(
                    PreRuntimeErrors::CommandSkipped(message),
                ),
                RunOutcome::Failed { id: _, message } => Err(
                    PreRuntimeErrors::FailedToRunCommand(descriptor.name.clone(), message),
                ),
            }
        },
    }
}

} // verus!
