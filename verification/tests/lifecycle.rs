use cmdcore::args::CommandArgs;
use cmdcore::bootstrap::{
    console_exit_code, launch_console, PreRuntimeErrors, ERR_COMMAND_FAILED,
    ERR_COMMAND_NOT_FOUND, ERR_COMMAND_SKIPPED, EXIT_SUCCESS,
};
use cmdcore::command_log::CommandStatus;
use cmdcore::lifecycle::{begin, end, run, CommandError, CommandResult, RunOutcome};
use cmdcore::middleware::CommandMiddleware;
use cmdcore::registry::{CommandBehavior, CommandDescriptor, CommandRegistry};

fn noop_descriptor() -> CommandDescriptor {
    CommandDescriptor::new(
        "noop".to_string(),
        "does nothing".to_string(),
        false,
        CommandBehavior::Succeed,
    )
}

fn fail_descriptor() -> CommandDescriptor {
    CommandDescriptor::new(
        "fail".to_string(),
        "always fails".to_string(),
        false,
        CommandBehavior::Fail("boom".to_string()),
    )
}

#[test]
fn scenario_noop_succeeds_with_one_success_log_and_exit_code_zero() {
    let mut registry = CommandRegistry::new();
    registry.register(noop_descriptor());
    let mut mw = CommandMiddleware::new();
    let args = CommandArgs::new();

    let outcome = launch_console(&registry, &mut mw, "noop", &args, 100, 350);
    assert_eq!(console_exit_code(&outcome), EXIT_SUCCESS);
    assert!(matches!(outcome, Ok(0)));

    assert_eq!(mw.log_count(), 1);
    let log = mw.get_log(0);
    assert_eq!(log.command_name, "noop");
    assert_eq!(log.command_args, "{}");
    assert_eq!(log.status, CommandStatus::SUCCESS);
    assert_eq!(log.message, None);
    assert_eq!(log.created_at, 100);
    assert_eq!(log.closed_at, Some(350));
    assert_eq!(log.elapsed, Some(250));
}

#[test]
fn scenario_fail_reports_the_body_error_with_its_own_exit_code() {
    let mut registry = CommandRegistry::new();
    registry.register(fail_descriptor());
    let mut mw = CommandMiddleware::new();
    let args = CommandArgs::new();

    let outcome = launch_console(&registry, &mut mw, "fail", &args, 10, 20);
    match &outcome {
        Err(PreRuntimeErrors::FailedToRunCommand(name, message)) => {
            assert_eq!(name, "fail");
            assert_eq!(message, "boom");
        },
        _ => panic!("expected FailedToRunCommand"),
    }
    let code = console_exit_code(&outcome);
    assert_eq!(code, ERR_COMMAND_FAILED);
    assert_ne!(code, ERR_COMMAND_NOT_FOUND);
    assert_ne!(code, ERR_COMMAND_SKIPPED);
    assert_ne!(code, EXIT_SUCCESS);

    let log = mw.get_log(0);
    assert_eq!(log.status, CommandStatus::ERROR);
    assert_eq!(log.message, Some("boom".to_string()));
    assert_eq!(log.elapsed, Some(10));
}

#[test]
fn scenario_running_record_makes_the_second_invocation_skip() {
    let mut registry = CommandRegistry::new();
    registry.register(noop_descriptor());
    let mut mw = CommandMiddleware::new();
    let args = CommandArgs::new();

    // Seed the store with a RUNNING record for the same name and the
    // same canonical arguments.
    let seeded = mw.create_log("noop", &args.canonical_string(), 50);
    assert_eq!(mw.get_log(seeded).status, CommandStatus::RUNNING);

    let outcome = launch_console(&registry, &mut mw, "noop", &args, 100, 200);
    match &outcome {
        Err(PreRuntimeErrors::CommandSkipped(message)) => {
            assert_eq!(message, "command noop ({}) is already running.");
        },
        _ => panic!("expected CommandSkipped"),
    }
    assert_eq!(console_exit_code(&outcome), ERR_COMMAND_SKIPPED);

    // The body never ran: no SUCCESS log exists, only the seeded
    // RUNNING record and this attempt's SKIPPED record.
    assert_eq!(mw.log_count(), 2);
    assert_eq!(mw.get_log(0).status, CommandStatus::RUNNING);
    let skipped = mw.get_log(1);
    assert_eq!(skipped.status, CommandStatus::SKIPPED);
    assert_eq!(
        skipped.message,
        Some("command noop ({}) is already running.".to_string())
    );
    assert_eq!(skipped.created_at, 100);
    assert_eq!(skipped.closed_at, Some(100));
    assert_eq!(skipped.elapsed, Some(0));
}

#[test]
fn scenario_unknown_command_writes_no_log() {
    let mut registry = CommandRegistry::new();
    registry.register(noop_descriptor());
    let mut mw = CommandMiddleware::new();
    let args = CommandArgs::new();

    let outcome = launch_console(&registry, &mut mw, "does-not-exist", &args, 0, 0);
    match &outcome {
        Err(PreRuntimeErrors::FailedToGetCommand(name)) => {
            assert_eq!(name, "does-not-exist");
        },
        _ => panic!("expected FailedToGetCommand"),
    }
    assert_eq!(console_exit_code(&outcome), ERR_COMMAND_NOT_FOUND);
    assert_eq!(mw.log_count(), 0);
}

#[test]
fn parallel_descriptor_bypasses_the_lock_check() {
    let mut mw = CommandMiddleware::new();
    let parallel = CommandDescriptor::new(
        "par".to_string(),
        "runs in parallel".to_string(),
        true,
        CommandBehavior::Succeed,
    );
    let args = CommandArgs::new();
    let key = args.canonical_string();

    // An identical invocation is already RUNNING.
    mw.create_log("par", &key, 5);

    let outcome = run(&mut mw, &parallel, &args, 10, 30);
    assert!(matches!(outcome, RunOutcome::Success { id: 1 }));
    assert_eq!(mw.log_count(), 2);
    assert_eq!(mw.get_log(0).status, CommandStatus::RUNNING);
    assert_eq!(mw.get_log(1).status, CommandStatus::SUCCESS);

    // Another identical parallel invocation also runs to its own
    // terminal log, conflict or no conflict.
    let again = run(&mut mw, &parallel, &args, 40, 45);
    assert!(matches!(again, RunOutcome::Success { id: 2 }));
    assert_eq!(mw.log_count(), 3);
    assert_eq!(mw.get_log(2).status, CommandStatus::SUCCESS);
}

#[test]
fn begin_reports_a_conflict_and_writes_the_skipped_record() {
    let mut mw = CommandMiddleware::new();
    mw.create_log("job", "{}", 10);

    let second = begin(&mut mw, "job", false, "{}", 40);
    match second {
        Err(CommandError::AlreadyRunning(name, args)) => {
            assert_eq!(name, "job");
            assert_eq!(args, "{}");
        },
        _ => panic!("expected AlreadyRunning"),
    }
    assert_eq!(mw.log_count(), 2);
    assert_eq!(mw.get_log(1).status, CommandStatus::SKIPPED);
}

#[test]
fn begin_with_different_arguments_is_no_conflict() {
    let mut mw = CommandMiddleware::new();
    mw.create_log("job", "{\"a\":\"1\"}", 10);

    let second = begin(&mut mw, "job", false, "{\"a\":\"2\"}", 40);
    assert!(matches!(second, Ok(1)));
    assert_eq!(mw.get_log(1).status, CommandStatus::RUNNING);
}

#[test]
fn end_closes_the_log_exactly_once_with_the_mapped_status() {
    let mut mw = CommandMiddleware::new();
    let opened = begin(&mut mw, "job", false, "{}", 100);
    let id = opened.ok().unwrap();

    end(&mut mw, id, CommandResult::ERROR, Some("went wrong".to_string()), 400);
    let log = mw.get_log(id);
    assert_eq!(log.status, CommandStatus::ERROR);
    assert_eq!(log.message, Some("went wrong".to_string()));
    assert_eq!(log.closed_at, Some(400));
    assert_eq!(log.elapsed, Some(300));
}

#[test]
fn elapsed_is_the_closing_distance_and_never_negative() {
    let mut mw = CommandMiddleware::new();
    let noop = noop_descriptor();
    let args = CommandArgs::new();

    let outcome = run(&mut mw, &noop, &args, 1000, 1000);
    assert!(matches!(outcome, RunOutcome::Success { id: 0 }));
    let log = mw.get_log(0);
    assert_eq!(log.elapsed, Some(0));

    let fail = fail_descriptor();
    run(&mut mw, &fail, &args, 2000, 2750);
    let log = mw.get_log(1);
    assert_eq!(log.elapsed, Some(log.closed_at.unwrap() - log.created_at));
    assert!(log.elapsed.unwrap() >= 0);
}

#[test]
fn store_clocked_lifecycle_keeps_the_audit_invariants() {
    let mut mw = CommandMiddleware::new();
    let id = mw.create_log_now("job", "{}");
    assert_eq!(mw.get_log(id).status, CommandStatus::RUNNING);
    assert!(mw.get_log(id).created_at >= 0);

    mw.update_log_now(id, CommandStatus::SUCCESS, None);
    let log = mw.get_log(id);
    assert_eq!(log.status, CommandStatus::SUCCESS);
    let closed = log.closed_at.unwrap();
    assert!(closed >= log.created_at);
    assert_eq!(log.elapsed, Some(closed - log.created_at));
}
