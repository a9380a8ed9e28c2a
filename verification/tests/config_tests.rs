use tgstore::config::{parse_i64, Config, ConfigError};
use tgstore::sweeper::{is_stale, select_stale, SweepFile, STALE_AGE_SECS};

#[test]
fn parse_i64_plain_values() {
    assert_eq!(parse_i64("0"), Some(0));
    assert_eq!(parse_i64("123"), Some(123));
    assert_eq!(parse_i64("-42"), Some(-42));
    assert_eq!(parse_i64("00042"), Some(42));
    assert_eq!(parse_i64("-001001234567890"), Some(-1001234567890));
}

#[test]
fn parse_i64_extremes() {
    assert_eq!(parse_i64("9223372036854775807"), Some(i64::MAX));
    assert_eq!(parse_i64("-9223372036854775808"), Some(i64::MIN));
    assert_eq!(parse_i64("9223372036854775808"), None);
    assert_eq!(parse_i64("-9223372036854775809"), None);
    assert_eq!(parse_i64("99999999999999999999999999999999"), None);
}

#[test]
fn parse_i64_rejects_non_literals() {
    assert_eq!(parse_i64(""), None);
    assert_eq!(parse_i64("-"), None);
    assert_eq!(parse_i64("12a"), None);
    assert_eq!(parse_i64("a12"), None);
    assert_eq!(parse_i64("1 2"), None);
    assert_eq!(parse_i64("--5"), None);
    assert_eq!(parse_i64("4.2"), None);
}

fn build(chat: &str, temp: &str, tokens: &str) -> Result<Config, ConfigError> {
    Config::build(
        "api-key".to_string(),
        "https://bots.example.org".to_string(),
        chat,
        temp,
        tokens,
        "https://sentry.example.org/1".to_string(),
    )
}

#[test]
fn config_build_accepts_good_values() {
    let c = build("-1001234", "-1005678", "[\"111:aa\", \"222:bb\"]").unwrap();
    assert_eq!(c.api_key, "api-key");
    assert_eq!(c.telegram_api_url, "https://bots.example.org");
    assert_eq!(c.telegram_chat_id, -1001234);
    assert_eq!(c.telegram_temp_chat_id, -1005678);
    assert_eq!(c.bot_tokens, vec!["111:aa".to_string(), "222:bb".to_string()]);
    assert_eq!(c.sentry_dsn, "https://sentry.example.org/1");
}

#[test]
fn config_build_reports_first_bad_value() {
    assert_eq!(build("nope", "-1", "[\"t\"]").unwrap_err(), ConfigError::BadChatId);
    assert_eq!(build("-1", "nope", "[\"t\"]").unwrap_err(), ConfigError::BadTempChatId);
    assert_eq!(build("-1", "-2", "not json").unwrap_err(), ConfigError::BadTokenList);
    assert_eq!(build("-1", "-2", "[1, 2]").unwrap_err(), ConfigError::BadTokenList);
    assert_eq!(build("-1", "-2", "[]").unwrap_err(), ConfigError::EmptyTokenList);
}

#[test]
fn staleness_is_a_strict_threshold() {
    assert!(!is_stale(STALE_AGE_SECS, STALE_AGE_SECS));
    assert!(is_stale(STALE_AGE_SECS + 1, STALE_AGE_SECS));
    assert!(!is_stale(0, STALE_AGE_SECS));
}

#[test]
fn sweep_selects_exactly_the_old_regular_files() {
    let files = vec![
        SweepFile { is_regular_file: true, age_secs: Some(4000) },
        SweepFile { is_regular_file: true, age_secs: Some(100) },
        SweepFile { is_regular_file: true, age_secs: None },
        SweepFile { is_regular_file: false, age_secs: Some(90000) },
        SweepFile { is_regular_file: true, age_secs: Some(3601) },
    ];
    assert_eq!(select_stale(&files, STALE_AGE_SECS), vec![0, 4]);
}

#[test]
fn sweep_decision_is_per_file() {
    let files = vec![
        SweepFile { is_regular_file: true, age_secs: Some(5000) },
        SweepFile { is_regular_file: true, age_secs: None },
        SweepFile { is_regular_file: true, age_secs: Some(7000) },
    ];
    assert_eq!(select_stale(&files, STALE_AGE_SECS), vec![0, 2]);
}

#[test]
fn sweep_of_young_tree_selects_nothing() {
    let files = vec![
        SweepFile { is_regular_file: true, age_secs: Some(10) },
        SweepFile { is_regular_file: false, age_secs: Some(10) },
    ];
    assert!(select_stale(&files, STALE_AGE_SECS).is_empty());
}
