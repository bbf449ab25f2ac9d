use website_checker::config::{parse_args, parse_number, run_addresses, same_text, looks_like_flag, UsageError};

fn args(v: &[&str]) -> Vec<String> {
    v.iter().map(|s| s.to_string()).collect()
}

#[test]
fn defaults_apply_without_flags() {
    let c = parse_args(&args(&["http://a.test", "http://b.test"]), 8).unwrap();
    assert_eq!(c.addresses, args(&["http://a.test", "http://b.test"]));
    assert_eq!(c.file, None);
    assert_eq!(c.workers, 8);
    assert_eq!(c.timeout_secs, 5);
    assert_eq!(c.retries, 0);
}

#[test]
fn flags_set_their_values() {
    let c = parse_args(
        &args(&["--file", "sites.txt", "x", "--workers", "3", "--timeout", "+10", "--retries", "2", "y"]),
        8,
    )
    .unwrap();
    assert_eq!(c.addresses, args(&["x", "y"]));
    assert_eq!(c.file, Some("sites.txt".to_string()));
    assert_eq!(c.workers, 3);
    assert_eq!(c.timeout_secs, 10);
    assert_eq!(c.retries, 2);
}

#[test]
fn later_flag_overrides_earlier() {
    let c = parse_args(&args(&["--retries", "1", "--retries", "4"]), 1).unwrap();
    assert_eq!(c.retries, 4);
    assert!(c.addresses.is_empty());
}

#[test]
fn missing_value_is_refused() {
    assert!(matches!(parse_args(&args(&["a", "--workers"]), 2), Err(UsageError::MissingValue)));
    assert!(matches!(parse_args(&args(&["--file"]), 2), Err(UsageError::MissingValue)));
}

#[test]
fn malformed_numbers_are_refused() {
    assert!(matches!(parse_args(&args(&["--workers", "x"]), 2), Err(UsageError::InvalidNumber)));
    assert!(matches!(parse_args(&args(&["--timeout", "-1"]), 2), Err(UsageError::InvalidNumber)));
    assert!(matches!(parse_args(&args(&["--retries", "4294967296"]), 2), Err(UsageError::InvalidNumber)));
    assert!(matches!(parse_args(&args(&["--retries", ""]), 2), Err(UsageError::InvalidNumber)));
}

#[test]
fn unknown_flag_is_refused() {
    assert!(matches!(parse_args(&args(&["--verbose", "a"]), 2), Err(UsageError::UnknownFlag)));
}

#[test]
fn zero_workers_is_refused() {
    assert!(matches!(parse_args(&args(&["--workers", "0", "a"]), 2), Err(UsageError::ZeroWorkers)));
    assert!(matches!(parse_args(&args(&["a"]), 0), Err(UsageError::ZeroWorkers)));
}

#[test]
fn numbers_are_read_like_std() {
    assert_eq!(parse_number("0", 10), Some(0));
    assert_eq!(parse_number("+7", 10), Some(7));
    assert_eq!(parse_number("010", 10), Some(10));
    assert_eq!(parse_number("11", 10), None);
    assert_eq!(parse_number("+", 10), None);
    assert_eq!(parse_number("", 10), None);
    assert_eq!(parse_number("1a", 10), None);
    assert_eq!(parse_number("18446744073709551615", u64::MAX), Some(u64::MAX));
    assert_eq!(parse_number("18446744073709551616", u64::MAX), None);
    assert_eq!(parse_number("99999999999999999999999x", u64::MAX), None);
}

#[test]
fn text_comparison_and_flag_shape() {
    assert!(same_text("--file", "--file"));
    assert!(!same_text("--file", "--files"));
    assert!(!same_text("--fila", "--file"));
    assert!(looks_like_flag("--x"));
    assert!(looks_like_flag("--"));
    assert!(!looks_like_flag("-x"));
}

#[test]
fn run_addresses_puts_direct_ones_first() {
    let direct = args(&["http://a.test"]);
    let lines = args(&["# list", "  http://b.test", "", "http://a.test"]);
    assert_eq!(
        run_addresses(&direct, &lines).unwrap(),
        args(&["http://a.test", "http://b.test", "http://a.test"])
    );
}

#[test]
fn empty_address_set_is_refused() {
    let lines = args(&["", "# nothing"]);
    assert!(matches!(run_addresses(&Vec::new(), &lines), Err(UsageError::NoAddresses)));
}
