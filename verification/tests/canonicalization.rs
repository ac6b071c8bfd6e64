use cmdcore::args::CommandArgs;
use cmdcore::cli::parse_subcommand_args;
use cmdcore::lifecycle::get_args_as_str;

#[test]
fn empty_argument_set_serializes_to_empty_object() {
    let args = CommandArgs::new();
    assert_eq!(args.canonical_string(), "{}");
}

#[test]
fn single_pair_and_flag_have_exact_canonical_forms() {
    let mut args = CommandArgs::new();
    args.insert("a".to_string(), Some("1".to_string()));
    assert_eq!(args.canonical_string(), "{\"a\":\"1\"}");

    let mut flags = CommandArgs::new();
    flags.insert("verbose".to_string(), None);
    assert_eq!(flags.canonical_string(), "{\"verbose\":null}");
}

#[test]
fn keys_are_serialized_in_sorted_order_whatever_the_insertion_order() {
    let mut forward = CommandArgs::new();
    forward.insert("a".to_string(), Some("1".to_string()));
    forward.insert("b".to_string(), Some("2".to_string()));

    let mut backward = CommandArgs::new();
    backward.insert("b".to_string(), Some("2".to_string()));
    backward.insert("a".to_string(), Some("1".to_string()));

    let canonical = forward.canonical_string();
    assert_eq!(canonical, backward.canonical_string());
    assert_eq!(canonical, "{\"a\":\"1\",\"b\":\"2\"}");
}

#[test]
fn inserting_a_key_again_replaces_its_value() {
    let mut args = CommandArgs::new();
    args.insert("key".to_string(), Some("old".to_string()));
    args.insert("key".to_string(), Some("new".to_string()));
    assert_eq!(args.len(), 1);
    assert_eq!(args.canonical_string(), "{\"key\":\"new\"}");
}

#[test]
fn quotes_and_backslashes_are_escaped() {
    let mut args = CommandArgs::new();
    args.insert("pa\"th".to_string(), Some("C:\\tmp".to_string()));
    assert_eq!(args.canonical_string(), "{\"pa\\\"th\":\"C:\\\\tmp\"}");
}

#[test]
fn get_distinguishes_absent_from_flag_without_value() {
    let mut args = CommandArgs::new();
    args.insert("flag".to_string(), None);
    args.insert("pair".to_string(), Some("v".to_string()));
    assert_eq!(args.get("flag"), Some(&None));
    assert_eq!(args.get("pair"), Some(&Some("v".to_string())));
    assert_eq!(args.get("missing"), None);
}

#[test]
fn token_order_does_not_change_the_lock_key() {
    let first = parse_subcommand_args("b=2;a=1");
    let second = parse_subcommand_args("a=1;b=2");
    assert_eq!(first.canonical_string(), second.canonical_string());
    assert_eq!(first.canonical_string(), "{\"a\":\"1\",\"b\":\"2\"}");
    assert_eq!(get_args_as_str(&first), get_args_as_str(&second));
    assert_eq!(get_args_as_str(&first), first.canonical_string());
}

#[test]
fn parser_decodes_pairs_and_flags() {
    let args = parse_subcommand_args("name=alice;force;depth=3");
    assert_eq!(args.get("name"), Some(&Some("alice".to_string())));
    assert_eq!(args.get("force"), Some(&None));
    assert_eq!(args.get("depth"), Some(&Some("3".to_string())));
    assert_eq!(args.len(), 3);
}

#[test]
fn parser_keeps_only_the_part_between_first_and_second_equals() {
    let args = parse_subcommand_args("a=b=c=d");
    assert_eq!(args.get("a"), Some(&Some("b".to_string())));
    assert_eq!(args.len(), 1);
}

#[test]
fn parser_treats_the_empty_string_as_one_empty_flag() {
    let args = parse_subcommand_args("");
    assert_eq!(args.get(""), Some(&None));
    assert_eq!(args.len(), 1);
}

#[test]
fn parser_lets_a_later_token_win() {
    let args = parse_subcommand_args("k=1;k=2");
    assert_eq!(args.get("k"), Some(&Some("2".to_string())));
    assert_eq!(args.len(), 1);
}

#[test]
fn parser_keeps_empty_segments_as_empty_flags() {
    let args = parse_subcommand_args("a=1;;b");
    assert_eq!(args.get("a"), Some(&Some("1".to_string())));
    assert_eq!(args.get(""), Some(&None));
    assert_eq!(args.get("b"), Some(&None));
    assert_eq!(args.len(), 3);
}
