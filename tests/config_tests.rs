use xpub_balance::config::{is_positive_num, parse_num, parse_u32, Args, ConfigError};

#[test]
fn parse_plain_number() {
    assert_eq!(parse_num(Some("42")), Ok(42));
    assert_eq!(parse_num(Some("0")), Ok(0));
    assert_eq!(parse_num(Some("007")), Ok(7));
}

#[test]
fn parse_plus_sign() {
    assert_eq!(parse_num(Some("+7")), Ok(7));
    assert_eq!(parse_num(Some("+")), Err(ConfigError::InvalidNumber));
    assert_eq!(parse_num(Some("++7")), Err(ConfigError::InvalidNumber));
}

#[test]
fn parse_limits() {
    assert_eq!(parse_num(Some("4294967295")), Ok(u32::MAX));
    assert_eq!(parse_num(Some("4294967296")), Err(ConfigError::InvalidNumber));
    assert_eq!(parse_num(Some("99999999999999999999999")), Err(ConfigError::InvalidNumber));
}

#[test]
fn parse_rejects_other_text() {
    assert_eq!(parse_num(Some("")), Err(ConfigError::InvalidNumber));
    assert_eq!(parse_num(Some("-1")), Err(ConfigError::InvalidNumber));
    assert_eq!(parse_num(Some("12a")), Err(ConfigError::InvalidNumber));
    assert_eq!(parse_num(Some(" 1")), Err(ConfigError::InvalidNumber));
    assert_eq!(parse_num(Some("1 ")), Err(ConfigError::InvalidNumber));
}

#[test]
fn parse_missing() {
    assert_eq!(parse_num(None), Err(ConfigError::MissingArgument));
}

#[test]
fn parse_agrees_with_std() {
    for s in ["0", "1", "+1", "65536", "4294967295", "4294967296", "", "+", "x", "1x", "00", "+00"] {
        assert_eq!(parse_u32(s), s.parse::<u32>().ok(), "{}", s);
    }
}

#[test]
fn positive_num_check() {
    assert_eq!(is_positive_num("20".to_string()), Ok(()));
    assert_eq!(is_positive_num("twenty".to_string()), Err(ConfigError::InvalidNumber));
    assert_eq!(is_positive_num("-20".to_string()), Err(ConfigError::InvalidNumber));
}

#[test]
fn args_end_clamped_to_start() {
    let a = Args::new(Some("key"), Some("url"), Some("20"), Some("10"), Some("5"), false, false)
        .unwrap();
    assert_eq!(a.start, 10);
    assert_eq!(a.end, 10);
}

#[test]
fn args_keeps_values() {
    let a = Args::new(Some("key"), Some("url"), Some("20"), Some("3"), Some("8"), true, true)
        .unwrap();
    assert_eq!(a.xpub, "key");
    assert_eq!(a.esplora, "url");
    assert_eq!(a.n, 20);
    assert_eq!(a.start, 3);
    assert_eq!(a.end, 8);
    assert!(a.is_change);
    assert!(a.is_offline);
}

#[test]
fn args_errors_in_order() {
    let e = Args::new(None, None, Some("x"), Some("y"), None, false, false).err();
    assert_eq!(e, Some(ConfigError::InvalidNumber));
    let e = Args::new(None, None, Some("x"), Some("1"), None, false, false).err();
    assert_eq!(e, Some(ConfigError::MissingArgument));
    let e = Args::new(None, Some("url"), Some("x"), Some("1"), Some("2"), false, false).err();
    assert_eq!(e, Some(ConfigError::MissingArgument));
    let e = Args::new(Some("key"), None, Some("x"), Some("1"), Some("2"), false, false).err();
    assert_eq!(e, Some(ConfigError::MissingArgument));
    let e = Args::new(Some("key"), Some("url"), Some("x"), Some("1"), Some("2"), false, false).err();
    assert_eq!(e, Some(ConfigError::InvalidNumber));
    let e = Args::new(Some("key"), Some("url"), None, Some("1"), Some("2"), false, false).err();
    assert_eq!(e, Some(ConfigError::MissingArgument));
}
