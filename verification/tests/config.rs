use foobar::config::{CliArgs, Config, ConfigError, FileConfig};

fn no_args() -> CliArgs {
    CliArgs { dsn: None, log_directory: None, loki_url: None, prometheus_export: None }
}

#[test]
fn default_dsn_when_nothing_is_set() {
    let c = Config::parse(no_args(), None).unwrap();
    assert_eq!(c.dsn, "postgresql://foobar@localhost/foobar");
    assert_eq!(c.log_directory, None);
    assert_eq!(c.loki_url, None);
    assert_eq!(c.prometheus_export, None);
}

#[test]
fn cli_value_overrides_file_value() {
    let mut args = no_args();
    args.dsn = Some(String::from("postgresql://b@remote/b"));
    let text = "dsn = \"postgresql://a@local/a\"\nlog_directory = \"/var/log/foobar\"\n";
    let c = Config::parse(args, Some(text)).unwrap();
    assert_eq!(c.dsn, "postgresql://b@remote/b");
    assert_eq!(c.log_directory.as_deref(), Some("/var/log/foobar"));
}

#[test]
fn cli_override_is_independent_of_other_file_fields() {
    let mut args = no_args();
    args.dsn = Some(String::from("postgresql://b@remote/b"));
    let with_other = "dsn = \"postgresql://a@local/a\"\nloki_url = \"http://loki:3100\"\n";
    let without_other = "dsn = \"postgresql://a@local/a\"\n";
    let c1 = Config::parse(
        CliArgs { dsn: args.dsn.clone(), ..no_args() },
        Some(with_other),
    )
    .unwrap();
    let c2 = Config::parse(args, Some(without_other)).unwrap();
    assert_eq!(c1.dsn, "postgresql://b@remote/b");
    assert_eq!(c1.dsn, c2.dsn);
}

#[test]
fn file_value_used_when_cli_is_silent() {
    let text = "dsn = \"postgresql://a@local/a\"\n";
    let c = Config::parse(no_args(), Some(text)).unwrap();
    assert_eq!(c.dsn, "postgresql://a@local/a");
}

#[test]
fn full_file_parses() {
    let text = "# daemon settings\ndsn = \"postgresql://a@local/a\"\nlog_directory = \"/var/log/foobar\"\nloki_url = \"http://loki:3100/\"\nprometheus_export = \"127.0.0.1:9091\"\n";
    let f = FileConfig::parse(text).unwrap();
    assert_eq!(f.dsn.as_deref(), Some("postgresql://a@local/a"));
    assert_eq!(f.log_directory.as_deref(), Some("/var/log/foobar"));
    assert_eq!(f.loki_url.as_deref(), Some("http://loki:3100/"));
    assert_eq!(f.prometheus_export.as_deref(), Some("127.0.0.1:9091"));
}

#[test]
fn unknown_field_fails_even_with_valid_fields() {
    let text = "dsn = \"postgresql://a@local/a\"\nmystery = \"x\"\n";
    let err = FileConfig::parse(text).unwrap_err();
    match err {
        ConfigError::UnknownKey { key } => assert_eq!(key, "mystery"),
        other => panic!("expected an unknown-key failure, got {:?}", other),
    }
    assert!(Config::parse(no_args(), Some(text)).is_err());
}

#[test]
fn duplicate_key_fails() {
    let text = "dsn = \"a\"\ndsn = \"b\"\n";
    let err = FileConfig::parse(text).unwrap_err();
    match err {
        ConfigError::DuplicateKey { key } => assert_eq!(key, "dsn"),
        other => panic!("expected a duplicate-key failure, got {:?}", other),
    }
}

#[test]
fn malformed_line_fails() {
    let text = "dsn = unquoted\n";
    let err = FileConfig::parse(text).unwrap_err();
    assert!(matches!(err, ConfigError::Malformed { .. }));
    let text2 = "dsn = \"no closing quote\n";
    assert!(matches!(FileConfig::parse(text2).unwrap_err(), ConfigError::Malformed { .. }));
    let text3 = "= \"missing key\"\n";
    assert!(matches!(FileConfig::parse(text3).unwrap_err(), ConfigError::Malformed { .. }));
}

#[test]
fn comments_blanks_and_spacing_are_tolerated() {
    let text = "\n  # a comment\n\n  dsn  =  \"a\"  # trailing note\n\n";
    let f = FileConfig::parse(text).unwrap();
    assert_eq!(f.dsn.as_deref(), Some("a"));
    assert_eq!(f.log_directory, None);
}

#[test]
fn carriage_returns_are_tolerated() {
    let text = "dsn = \"a\"\r\nlog_directory = \"/l\"\r\n";
    let f = FileConfig::parse(text).unwrap();
    assert_eq!(f.dsn.as_deref(), Some("a"));
    assert_eq!(f.log_directory.as_deref(), Some("/l"));
}

#[test]
fn empty_file_sets_nothing() {
    let f = FileConfig::parse("").unwrap();
    assert_eq!(f.dsn, None);
    assert_eq!(f.log_directory, None);
    assert_eq!(f.loki_url, None);
    assert_eq!(f.prometheus_export, None);
}

#[test]
fn missing_final_newline_is_tolerated() {
    let f = FileConfig::parse("dsn = \"a\"").unwrap();
    assert_eq!(f.dsn.as_deref(), Some("a"));
}
