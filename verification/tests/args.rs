use cargo_pgo::args::parse_cargo_args;

#[test]
fn test_parse_cargo_args_filter_release() {
    let args = parse_cargo_args(vec![
        "foo".to_string(),
        "--release".to_string(),
        "--bar".to_string(),
    ]);
    assert_eq!(args.filtered, vec!["foo".to_string(), "--bar".to_string()]);
}

#[test]
fn test_parse_cargo_args_filter_message_format() {
    let args = parse_cargo_args(vec![
        "foo".to_string(),
        "--message-format".to_string(),
        "json".to_string(),
        "bar".to_string(),
    ]);
    assert_eq!(args.filtered, vec!["foo".to_string(), "bar".to_string()]);
}

#[test]
fn test_parse_cargo_args_find_target() {
    let args = parse_cargo_args(vec![
        "--target".to_string(),
        "x64".to_string(),
        "bar".to_string(),
    ]);
    assert_eq!(
        args.filtered,
        vec!["--target".to_string(), "x64".to_string(), "bar".to_string()]
    );
    assert!(args.contains_target);
}

#[test]
fn release_flag_dropped_with_warning() {
    let args = parse_cargo_args(vec!["--release".to_string()]);
    assert!(args.filtered.is_empty());
    assert_eq!(args.warnings.len(), 1);
    assert!(args.warnings[0].contains("--release"));
}

#[test]
fn message_format_value_removed_together_not_position_blind() {
    // The value after the flag is dropped; a later token that happens to
    // match a typical value is kept.
    let args = parse_cargo_args(vec![
        "--message-format".to_string(),
        "json".to_string(),
        "json".to_string(),
    ]);
    assert_eq!(args.filtered, vec!["json".to_string()]);
    assert_eq!(args.warnings.len(), 1);
}

#[test]
fn target_flag_and_value_preserved_verbatim() {
    let input = vec![
        "--target".to_string(),
        "x86_64-unknown-linux-gnu".to_string(),
        "bar".to_string(),
    ];
    let args = parse_cargo_args(input.clone());
    assert_eq!(args.filtered, input);
    assert!(args.contains_target);
    assert!(args.warnings.is_empty());
}

#[test]
fn no_target_flag_reported_when_absent() {
    let args = parse_cargo_args(vec!["foo".to_string(), "bar".to_string()]);
    assert!(!args.contains_target);
    assert!(args.warnings.is_empty());
    assert_eq!(args.filtered, vec!["foo".to_string(), "bar".to_string()]);
}

#[test]
fn message_format_at_end_dropped_without_value() {
    let args = parse_cargo_args(vec!["foo".to_string(), "--message-format".to_string()]);
    assert_eq!(args.filtered, vec!["foo".to_string()]);
    assert_eq!(args.warnings.len(), 1);
}

#[test]
fn target_as_message_format_value_not_counted() {
    // The token after a message-format flag is consumed as its value,
    // even when it looks like the target flag.
    let args = parse_cargo_args(vec![
        "--message-format".to_string(),
        "--target".to_string(),
    ]);
    assert!(args.filtered.is_empty());
    assert!(!args.contains_target);
}
