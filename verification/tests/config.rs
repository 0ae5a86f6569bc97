use dev_browser::config::{
    config_path_in, effective_idle_timeout_ms, effective_idle_timeout_ms_in,
    parse_idle_timeout, resolve_idle_timeout,
    ConfigContents, ConfigFile, IdleTimeoutValue, UserConfig, MAX_SAFE_TIMEOUT_MS,
};
use dev_browser::paths::FilePath;

fn config_file(contents: &str) -> ConfigFile {
    let value: serde_json::Value = serde_json::from_str(contents).unwrap();
    let idle_timeout = match value.get("idleTimeout") {
        Some(setting) => match setting.as_str() {
            Some(text) => Some(IdleTimeoutValue::Text(text.to_string())),
            None => setting.as_u64().map(IdleTimeoutValue::Milliseconds),
        },
        None => None,
    };
    ConfigFile {
        path: FilePath::new("/home/user/.dev-browser/config.json"),
        contents: ConfigContents::Parsed(UserConfig { idle_timeout }),
    }
}

fn broken_file(contents: ConfigContents) -> ConfigFile {
    ConfigFile { path: FilePath::new("/etc/config.json"), contents }
}

#[test]
fn parses_human_friendly_and_raw_timeouts() {
    assert_eq!(parse_idle_timeout("30s").unwrap(), 30_000);
    assert_eq!(parse_idle_timeout("5m").unwrap(), 300_000);
    assert_eq!(parse_idle_timeout("1h").unwrap(), 3_600_000);
    assert_eq!(parse_idle_timeout("2500").unwrap(), 2_500);
    assert_eq!(parse_idle_timeout("0").unwrap(), 0);
}

#[test]
fn rejects_invalid_timeouts() {
    assert!(parse_idle_timeout("").is_err());
    assert!(parse_idle_timeout("1d").is_err());
    assert!(parse_idle_timeout("1.5m").is_err());
    assert!(parse_idle_timeout("-1").is_err());
}

#[test]
fn resolves_cli_then_environment_then_config_then_disabled() {
    let config = config_file(r#"{"idleTimeout":"1h"}"#);

    assert_eq!(
        resolve_idle_timeout(Some(30_000), Some("5m"), Some(&config)).unwrap(),
        30_000
    );
    assert_eq!(
        resolve_idle_timeout(Some(0), Some("5m"), Some(&config)).unwrap(),
        0
    );
    assert_eq!(
        resolve_idle_timeout(None, Some("5m"), Some(&config)).unwrap(),
        300_000
    );
    assert_eq!(
        resolve_idle_timeout(None, None, Some(&config)).unwrap(),
        3_600_000
    );
    assert_eq!(resolve_idle_timeout(None, None, None).unwrap(), 0);
}

#[test]
fn accepts_numeric_config_and_zero_disables_cleanup() {
    let numeric = config_file(r#"{"idleTimeout":45000}"#);
    assert_eq!(
        resolve_idle_timeout(None, None, Some(&numeric)).unwrap(),
        45_000
    );

    let zero = config_file(r#"{"idleTimeout":"0s"}"#);
    assert_eq!(resolve_idle_timeout(None, None, Some(&zero)).unwrap(), 0);
}

#[test]
fn every_refused_timeout_says_why() {
    assert_eq!(parse_idle_timeout(" \t ").unwrap_err(), "idle timeout cannot be empty");
    assert_eq!(parse_idle_timeout("s").unwrap_err(), "idle timeout is missing a number");
    assert_eq!(
        parse_idle_timeout("5d").unwrap_err(),
        "invalid unit (use s, m, h, or raw milliseconds)"
    );
    assert_eq!(
        parse_idle_timeout("5S").unwrap_err(),
        "invalid unit (use s, m, h, or raw milliseconds)"
    );
    assert_eq!(
        parse_idle_timeout("1 m").unwrap_err(),
        "idle timeout must be a non-negative integer"
    );
    assert_eq!(
        parse_idle_timeout("5\u{e9}").unwrap_err(),
        "idle timeout must be a non-negative integer"
    );
    assert_eq!(
        parse_idle_timeout("18446744073709551616").unwrap_err(),
        "idle timeout must be a non-negative integer"
    );
    assert_eq!(
        parse_idle_timeout("18446744073709551615h").unwrap_err(),
        "idle timeout is too large"
    );
    assert_eq!(
        parse_idle_timeout("9007199254740992").unwrap_err(),
        "idle timeout is too large"
    );
}

#[test]
fn the_limits_of_a_timeout_are_accepted() {
    assert_eq!(parse_idle_timeout("9007199254740991"), Ok(MAX_SAFE_TIMEOUT_MS));
    assert_eq!(parse_idle_timeout("9007199254740s"), Ok(9_007_199_254_740_000));
    assert!(parse_idle_timeout("9007199254741s").is_err());
    assert_eq!(parse_idle_timeout("+7m"), Ok(420_000));
    assert_eq!(parse_idle_timeout("007"), Ok(7));
    assert_eq!(parse_idle_timeout("\u{2003}12h\n"), Ok(43_200_000));
    assert!(parse_idle_timeout("+").is_err());
    assert!(parse_idle_timeout("++1").is_err());
}

#[test]
fn timeouts_agree_with_the_standard_parser() {
    for text in ["", "+", "-", "0", "00", "+0", "-0", "1_0", "0x1", "18446744073709551615"] {
        let expected = match text.parse::<u64>() {
            Ok(amount) => amount <= MAX_SAFE_TIMEOUT_MS,
            Err(_) => false,
        };
        assert_eq!(parse_idle_timeout(text).is_ok(), expected, "{text}");
    }
}

#[test]
fn settings_are_only_read_when_they_count() {
    let broken = broken_file(ConfigContents::Unreadable("denied".to_string()));
    assert_eq!(resolve_idle_timeout(Some(5), Some("bad"), Some(&broken)), Ok(5));
    assert_eq!(resolve_idle_timeout(None, Some("1s"), Some(&broken)), Ok(1_000));
    let unread = |_: &FilePath| -> ConfigContents { panic!("the file has no say") };
    assert_eq!(effective_idle_timeout_ms(Some(5), None, unread), Ok(5));
    assert_eq!(effective_idle_timeout_ms(None, Some("1s"), unread), Ok(1_000));
}

#[test]
fn bad_settings_name_their_source() {
    assert_eq!(
        resolve_idle_timeout(None, Some("x"), None).unwrap_err(),
        "Invalid DEV_BROWSER_IDLE_TIMEOUT_MS: invalid unit (use s, m, h, or raw milliseconds)"
    );
    let missing = broken_file(ConfigContents::Missing);
    assert_eq!(resolve_idle_timeout(None, None, Some(&missing)), Ok(0));
    let unreadable = broken_file(ConfigContents::Unreadable("denied".to_string()));
    assert_eq!(resolve_idle_timeout(None, None, Some(&unreadable)).unwrap_err(), "denied");
    let invalid = broken_file(ConfigContents::Invalid("expected value".to_string()));
    assert_eq!(
        resolve_idle_timeout(None, None, Some(&invalid)).unwrap_err(),
        "Invalid user config at /etc/config.json: expected value"
    );
    let text = broken_file(ConfigContents::Parsed(UserConfig {
        idle_timeout: Some(IdleTimeoutValue::Text("".to_string())),
    }));
    assert_eq!(
        resolve_idle_timeout(None, None, Some(&text)).unwrap_err(),
        "Invalid idleTimeout in /etc/config.json: idle timeout cannot be empty"
    );
    let number = broken_file(ConfigContents::Parsed(UserConfig {
        idle_timeout: Some(IdleTimeoutValue::Milliseconds(MAX_SAFE_TIMEOUT_MS + 1)),
    }));
    assert_eq!(
        resolve_idle_timeout(None, None, Some(&number)).unwrap_err(),
        "Invalid idleTimeout in /etc/config.json: idle timeout is too large"
    );
    let silent = broken_file(ConfigContents::Parsed(UserConfig { idle_timeout: None }));
    assert_eq!(resolve_idle_timeout(None, None, Some(&silent)), Ok(0));
}

#[test]
fn the_configuration_is_in_the_home_directory() {
    let path = config_path_in(Some(FilePath::new("/home/user"))).unwrap();
    assert_eq!(path.display(), "/home/user/.dev-browser/config.json");
    assert!(config_path_in(None).is_none());
    let read = |path: &FilePath| {
        assert!(path.display().ends_with("/.dev-browser/config.json"));
        ConfigContents::Parsed(UserConfig {
            idle_timeout: Some(IdleTimeoutValue::Milliseconds(7)),
        })
    };
    let home = Some(FilePath::new("/home/user"));
    assert_eq!(effective_idle_timeout_ms_in(None, None, home, read), Ok(7));
    assert_eq!(effective_idle_timeout_ms_in(None, None, None, read), Ok(0));
    assert_eq!(effective_idle_timeout_ms_in(None, Some("2s"), None, read), Ok(2_000));
    let expected = if dirs::home_dir().is_some() { 7 } else { 0 };
    assert_eq!(effective_idle_timeout_ms(None, None, read), Ok(expected));
}
