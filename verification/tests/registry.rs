use cmdcore::args::CommandArgs;
use cmdcore::commands::{
    AddApiUserCommand, DumpCacheCommand, RemoveApiUserCommand, ScanSitesCommand, TestCommand,
};
use cmdcore::registry::{CommandBehavior, CommandDescriptor, CommandRegistry};

#[test]
fn resolving_an_absent_name_is_a_normal_outcome() {
    let registry = CommandRegistry::new();
    assert!(registry.get("anything").is_none());
}

#[test]
fn a_registered_descriptor_resolves_under_its_name() {
    let mut registry = CommandRegistry::new();
    registry.register(CommandDescriptor::new(
        "first".to_string(),
        "the first".to_string(),
        false,
        CommandBehavior::Succeed,
    ));
    registry.register(CommandDescriptor::new(
        "second".to_string(),
        "the second".to_string(),
        true,
        CommandBehavior::Succeed,
    ));
    assert_eq!(registry.len(), 2);

    let first = registry.get("first").unwrap();
    assert_eq!(first.description, "the first");
    assert!(!first.parallel);

    let second = registry.get("second").unwrap();
    assert_eq!(second.description, "the second");
    assert!(second.parallel);
}

#[test]
fn the_last_registration_for_a_name_wins() {
    let mut registry = CommandRegistry::new();
    registry.register(CommandDescriptor::new(
        "job".to_string(),
        "old".to_string(),
        false,
        CommandBehavior::Succeed,
    ));
    registry.register(CommandDescriptor::new(
        "job".to_string(),
        "new".to_string(),
        true,
        CommandBehavior::Fail("nope".to_string()),
    ));
    assert_eq!(registry.len(), 1);
    let resolved = registry.get("job").unwrap();
    assert_eq!(resolved.description, "new");
    assert!(resolved.parallel);
    assert!(matches!(resolved.behavior, CommandBehavior::Fail(ref m) if m == "nope"));
}

#[test]
fn the_builtin_commands_describe_themselves() {
    let test = TestCommand;
    assert_eq!(test.name(), "test");
    assert_eq!(test.description(), "A simple test command.");
    assert!(!test.is_parallel());

    let dump = DumpCacheCommand;
    assert_eq!(dump.name(), "dump:cache");
    assert_eq!(dump.description(), "Dump the cache.");
    assert!(!dump.is_parallel());

    let add = AddApiUserCommand;
    assert_eq!(add.name(), "add_api_user");
    assert_eq!(add.description(), "Adds an API user to the database");
    assert!(!add.is_parallel());

    let remove = RemoveApiUserCommand;
    assert_eq!(remove.name(), "remove_api_user");
    assert_eq!(remove.description(), "Removes an API user to the database");
    assert!(!remove.is_parallel());

    let scan = ScanSitesCommand;
    assert_eq!(scan.name(), "scan_sites");
    assert_eq!(
        scan.description(),
        "Scans all sites in the site directory and syncs them with the database"
    );
    assert!(!scan.is_parallel());
}

#[test]
fn the_builtin_descriptors_are_external_and_registrable() {
    let mut registry = CommandRegistry::new();
    registry.register(TestCommand.descriptor());
    registry.register(DumpCacheCommand.descriptor());
    registry.register(AddApiUserCommand.descriptor());
    registry.register(RemoveApiUserCommand.descriptor());
    registry.register(ScanSitesCommand.descriptor());
    assert_eq!(registry.len(), 5);

    let resolved = registry.get("scan_sites").unwrap();
    assert!(matches!(resolved.behavior, CommandBehavior::External));
    assert!(!resolved.parallel);
    assert_eq!(resolved.name, "scan_sites");
}

#[test]
fn the_scan_reconciliation_plan_creates_the_new_and_deletes_the_gone() {
    let scan = ScanSitesCommand;
    let found = vec!["alpha".to_string(), "beta".to_string(), "gamma".to_string()];
    let existing = vec!["beta".to_string(), "delta".to_string()];
    let (to_create, to_delete) = scan.sync_plan(&found, &existing);
    assert_eq!(to_create, vec!["alpha".to_string(), "gamma".to_string()]);
    assert_eq!(to_delete, vec!["delta".to_string()]);

    let (none_new, none_gone) = scan.sync_plan(&existing, &existing);
    assert_eq!(none_new, Vec::<String>::new());
    assert_eq!(none_gone, Vec::<String>::new());
}

#[test]
fn test_command_body_fails_exactly_on_the_error_flag() {
    let test = TestCommand;

    let plain = CommandArgs::new();
    assert_eq!(test.outcome(&plain), None);

    let mut with_error = CommandArgs::new();
    with_error.insert("error".to_string(), None);
    assert_eq!(test.outcome(&with_error), Some("Oops !".to_string()));

    let mut with_value = CommandArgs::new();
    with_value.insert("error".to_string(), Some("yes".to_string()));
    assert_eq!(test.outcome(&with_value), Some("Oops !".to_string()));
}
