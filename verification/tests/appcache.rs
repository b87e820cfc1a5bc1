//! The assistant's own usage record.

use usage_tray::appcache::{app_cache_path_from, parse_app_cache, read_app_usage};
use usage_tray::assistant::Assistant;
use usage_tray::files::FileRead;
use usage_tray::percent::Percent;
use usage_tray::time::Timestamp;

fn acme() -> Assistant {
    Assistant {
        name: "acme".to_string(),
        title: "Acme".to_string(),
    }
}

fn ts(secs: i64) -> Timestamp {
    Timestamp::from_second(secs).expect("valid timestamp")
}

fn percent(value: f64) -> Percent {
    Percent::from_bits(value.to_bits()).expect("finite")
}

/// Earlier than every reset in the full document.
const NOW: i64 = 1786841760;

const VALID_FULL: &str = r#"{
  "numStartups": 42,
  "cachedUsageUtilization": {
    "fetchedAtMs": 1786841753450,
    "utilization": {
      "five_hour": {"utilization": 11, "resets_at": "2026-08-16T05:00:00.123456+00:00"},
      "seven_day": {"utilization": 47, "resets_at": "2026-08-20T12:00:00+00:00"},
      "limits": [
        {"kind": "session", "percent": 11, "resets_at": "2026-08-16T05:00:00+00:00", "scope": null},
        {"kind": "weekly_all", "percent": 47, "resets_at": "2026-08-20T12:00:00+00:00", "scope": null},
        {"kind": "weekly_scoped", "percent": 71, "resets_at": "2026-08-20T12:00:00+00:00",
         "scope": {"model": {"display_name": "Fable"}}}
      ]
    }
  }
}"#;

#[test]
fn parses_the_full_fixture() {
    let usage = parse_app_cache(VALID_FULL, ts(NOW)).expect("parses");

    let session = usage.session.expect("session present");
    assert_eq!(session.percent, Some(percent(11.0)));
    assert_eq!(
        session.resets_at.map(|at| at.as_second()),
        Some(1786856400)
    );

    let weekly = usage.weekly.expect("weekly present");
    assert_eq!(weekly.percent, Some(percent(47.0)));

    assert_eq!(usage.scoped.len(), 1);
    assert_eq!(usage.scoped[0].name, "Fable");
    assert_eq!(usage.scoped[0].metric.percent, Some(percent(71.0)));
    assert!(usage.scoped[0].metric.resets_at.is_some());

    assert_eq!(
        usage
            .fetched_at
            .map(|at| at.as_second() * 1000 + i64::from(at.subsec_nanosecond()) / 1_000_000),
        Some(1786841753450)
    );
}

#[test]
fn session_and_weekly_limits_entries_do_not_become_scoped_rows() {
    let usage = parse_app_cache(VALID_FULL, ts(NOW)).expect("parses");
    assert!(
        usage.scoped.iter().all(|scoped| scoped.name == "Fable"),
        "only weekly_scoped entries with a model name belong here: {:?}",
        usage.scoped
    );
}

#[test]
fn missing_cached_usage_key_is_none() {
    assert_eq!(parse_app_cache(r#"{"numStartups": 3}"#, ts(NOW)), None);
}

#[test]
fn null_cached_usage_key_is_none() {
    assert_eq!(
        parse_app_cache(r#"{"cachedUsageUtilization": null}"#, ts(NOW)),
        None
    );
}

#[test]
fn garbage_is_none() {
    assert_eq!(parse_app_cache("not json at all", ts(NOW)), None);
}

#[test]
fn empty_utilization_is_a_valid_but_empty_reading() {
    let body = r#"{"cachedUsageUtilization": {"fetchedAtMs": 1786841753450, "utilization": {}}}"#;
    let usage = parse_app_cache(body, ts(NOW)).expect("the key exists, so this parses");
    assert_eq!(usage.session, None);
    assert_eq!(usage.weekly, None);
    assert!(usage.scoped.is_empty());
    assert!(usage.fetched_at.is_some());
}

#[test]
fn a_past_reset_zeroes_the_percent_like_the_statusline_parser() {
    let body = r#"{"cachedUsageUtilization": {"utilization": {
        "five_hour": {"utilization": 80, "resets_at": "2026-08-15T00:00:00+00:00"}
    }}}"#;
    let usage = parse_app_cache(body, ts(NOW)).expect("parses");
    assert_eq!(
        usage.session.expect("session").percent,
        Some(percent(0.0))
    );
}

#[test]
fn scoped_entries_without_a_model_name_are_skipped() {
    let body = r#"{"cachedUsageUtilization": {"utilization": {"limits": [
        {"kind": "weekly_scoped", "percent": 12, "scope": {"model": null}},
        {"kind": "weekly_scoped", "percent": 34, "scope": null},
        {"kind": "weekly_scoped", "percent": 56,
         "scope": {"model": {"display_name": "Fable"}}}
    ]}}}"#;
    let usage = parse_app_cache(body, ts(NOW)).expect("parses");
    assert_eq!(usage.scoped.len(), 1);
    assert_eq!(usage.scoped[0].name, "Fable");
    assert_eq!(usage.scoped[0].metric.percent, Some(percent(56.0)));
}

#[test]
fn wrong_types_degrade_to_absent_fields_not_errors() {
    let body = r#"{"cachedUsageUtilization": {"fetchedAtMs": "soon", "utilization": {
        "five_hour": {"utilization": "lots", "resets_at": 12345},
        "limits": "nope"
    }}}"#;
    let usage = parse_app_cache(body, ts(NOW)).expect("parses");
    assert_eq!(usage.fetched_at, None);
    let session = usage.session.expect("the window object exists");
    assert_eq!(session.percent, None);
    assert_eq!(session.resets_at, None);
    assert!(usage.scoped.is_empty());
}

#[test]
fn read_app_usage_missing_file_is_none() {
    assert_eq!(read_app_usage(&FileRead::NotFound, ts(NOW)), None);
    assert_eq!(
        read_app_usage(&FileRead::Failed("denied".to_string()), ts(NOW)),
        None
    );
}

#[test]
fn read_app_usage_reads_a_real_file() {
    let file = FileRead::Text(VALID_FULL.to_string());
    let usage = read_app_usage(&file, ts(NOW)).expect("parses");
    assert_eq!(usage.scoped[0].name, "Fable");
}

#[test]
fn app_cache_path_respects_claude_config_dir() {
    assert_eq!(
        app_cache_path_from(Some("/tmp/custom-acme-dir"), None, &acme()),
        "/tmp/custom-acme-dir/.acme.json"
    );
}

#[test]
fn app_cache_path_defaults_to_home_not_dot_claude() {
    let path = app_cache_path_from(None, Some("/home/someone"), &acme());
    assert_eq!(path, "/home/someone/.acme.json");
    assert!(
        !path.starts_with("/home/someone/.acme/"),
        "beside the config directory, not inside it"
    );
}

#[test]
fn an_empty_override_counts_as_none_and_no_home_is_here() {
    assert_eq!(app_cache_path_from(Some(""), Some("/h"), &acme()), "/h/.acme.json");
    assert_eq!(app_cache_path_from(None, None, &acme()), "./.acme.json");
}
