use range_fetch::{parse_config, ConfigError};

fn args(list: &[&str]) -> Vec<String> {
    list.iter().map(|s| s.to_string()).collect()
}

#[test]
fn all_options_are_read() {
    let c = parse_config(&args(&[
        "client",
        "--host=example.org",
        "--port=9000",
        "--hash=abc123",
        "--connect-timeout=7",
        "--read-write-timeout=+30",
        "--unknown=1",
    ]))
    .unwrap();
    assert_eq!(c.host, "example.org");
    assert_eq!(c.port, 9000);
    assert_eq!(c.expected_hash, "abc123");
    assert_eq!(c.connect_timeout_secs, 7);
    assert_eq!(c.read_write_timeout_secs, 30);
}

#[test]
fn defaults_stay_when_options_are_absent() {
    let c = parse_config(&args(&["client", "--hash=ff"])).unwrap();
    assert_eq!(c.host, "127.0.0.1");
    assert_eq!(c.port, 8080);
    assert_eq!(c.connect_timeout_secs, 5);
    assert_eq!(c.read_write_timeout_secs, 15);
}

#[test]
fn later_options_win() {
    let c = parse_config(&args(&["--hash=aa", "--host=a", "--host=b", "--hash=bb"])).unwrap();
    assert_eq!(c.host, "b");
    assert_eq!(c.expected_hash, "bb");
}

#[test]
fn missing_or_empty_hash_is_an_error() {
    assert_eq!(parse_config(&args(&["client"])).err(), Some(ConfigError::MissingHash));
    assert_eq!(parse_config(&args(&["--hash="])).err(), Some(ConfigError::MissingHash));
    assert_eq!(parse_config(&Vec::new()).err(), Some(ConfigError::MissingHash));
}

#[test]
fn bad_numbers_are_errors() {
    assert_eq!(parse_config(&args(&["--hash=a", "--port=65536"])).err(), Some(ConfigError::InvalidPort));
    assert_eq!(parse_config(&args(&["--hash=a", "--port=http"])).err(), Some(ConfigError::InvalidPort));
    assert_eq!(parse_config(&args(&["--hash=a", "--port="])).err(), Some(ConfigError::InvalidPort));
    assert_eq!(
        parse_config(&args(&["--hash=a", "--connect-timeout=-1"])).err(),
        Some(ConfigError::InvalidTimeout)
    );
    assert_eq!(
        parse_config(&args(&["--read-write-timeout=18446744073709551616", "--hash=a"])).err(),
        Some(ConfigError::InvalidTimeout)
    );
    let c = parse_config(&args(&["--hash=a", "--read-write-timeout=18446744073709551615", "--port=0"])).unwrap();
    assert_eq!(c.read_write_timeout_secs, u64::MAX);
    assert_eq!(c.port, 0);
}

#[test]
fn non_ascii_values_are_kept() {
    let c = parse_config(&args(&["--hash=é", "--host=häst"])).unwrap();
    assert_eq!(c.host, "häst");
    assert_eq!(c.expected_hash, "é");
}
