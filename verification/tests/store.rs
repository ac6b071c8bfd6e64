use cmdcore::command_log::CommandStatus;
use cmdcore::lifecycle::{classify_store_error, surface_failure, CommandError};
use cmdcore::middleware::{CommandMiddleware, CommandMiddlewareError};

#[test]
fn find_running_matches_on_name_arguments_and_status() {
    let mut mw = CommandMiddleware::new();
    let a = mw.create_log("alpha", "{}", 1);
    let b = mw.create_log("alpha", "{\"x\":\"1\"}", 2);
    let c = mw.create_log("beta", "{}", 3);
    let d = mw.create_log("alpha", "{}", 4);

    assert_eq!(mw.find_running("alpha", "{}"), vec![a, d]);
    assert_eq!(mw.find_running("alpha", "{\"x\":\"1\"}"), vec![b]);
    assert_eq!(mw.find_running("beta", "{}"), vec![c]);
    assert_eq!(mw.find_running("gamma", "{}"), Vec::<usize>::new());

    // A closed record no longer holds the lock.
    mw.update_log(a, CommandStatus::SUCCESS, None, 10);
    assert_eq!(mw.find_running("alpha", "{}"), vec![d]);
}

#[test]
fn try_aquire_lock_reports_the_conflicting_invocation() {
    let mut mw = CommandMiddleware::new();
    assert!(mw.try_aquire_lock("job", "{}").is_ok());

    mw.create_log("job", "{}", 5);
    match mw.try_aquire_lock("job", "{}") {
        Err(CommandMiddlewareError::AlreadyRunning(name, args)) => {
            assert_eq!(name, "job");
            assert_eq!(args, "{}");
        },
        _ => panic!("expected AlreadyRunning"),
    }
    assert!(mw.try_aquire_lock("job", "{\"k\":null}").is_ok());
    assert!(mw.try_aquire_lock("other", "{}").is_ok());
}

#[test]
fn error_messages_carry_the_conflict_and_store_details() {
    let conflict =
        CommandMiddlewareError::AlreadyRunning("scan".to_string(), "{\"a\":\"1\"}".to_string());
    assert_eq!(
        conflict.message(),
        "command scan ({\"a\":\"1\"}) is already running."
    );

    let store = CommandMiddlewareError::DatabaseError("connection refused".to_string());
    assert_eq!(store.message(), "database error: connection refused");
}

#[test]
fn store_errors_keep_their_kind_through_classification() {
    let conflict =
        CommandMiddlewareError::AlreadyRunning("scan".to_string(), "{}".to_string());
    match classify_store_error(conflict) {
        CommandError::AlreadyRunning(name, args) => {
            assert_eq!(name, "scan");
            assert_eq!(args, "{}");
        },
        _ => panic!("conflict became a different kind"),
    }

    let failure = CommandMiddlewareError::DatabaseError("timeout".to_string());
    match classify_store_error(failure) {
        CommandError::DatabaseError(detail) => assert_eq!(detail, "timeout"),
        _ => panic!("store failure became a different kind"),
    }
}

#[test]
fn controller_error_messages_match_the_taxonomy() {
    let conflict = CommandError::AlreadyRunning("noop".to_string(), "{}".to_string());
    assert_eq!(conflict.message(), "command noop ({}) is already running.");
    let failure = CommandError::DatabaseError("down".to_string());
    assert_eq!(failure.message(), "database error: down");
}

#[test]
fn closing_failures_outrank_the_body_error() {
    assert_eq!(
        surface_failure(Some("boom".to_string()), Some("timeout".to_string())),
        Some("database error: timeout".to_string())
    );
    assert_eq!(
        surface_failure(None, Some("timeout".to_string())),
        Some("database error: timeout".to_string())
    );
    assert_eq!(
        surface_failure(Some("boom".to_string()), None),
        Some("boom".to_string())
    );
    assert_eq!(surface_failure(None, None), None);
}

#[test]
fn records_keep_stable_identities() {
    let mut mw = CommandMiddleware::new();
    let first = mw.create_log("one", "{}", 1);
    let second = mw.create_log("two", "{}", 2);
    assert_eq!(first, 0);
    assert_eq!(second, 1);
    assert_eq!(mw.get_log(first).id, Some(0));
    assert_eq!(mw.get_log(second).id, Some(1));
    assert_eq!(mw.log_count(), 2);

    mw.update_log(first, CommandStatus::ERROR, Some("x".to_string()), 9);
    // The other record is untouched by the terminal update.
    assert_eq!(mw.get_log(second).status, CommandStatus::RUNNING);
    assert_eq!(mw.get_log(second).command_name, "two");
}
