//! Reading usage from the statusline cache, the staged file and the record.

use usage_tray::appcache::{AppUsage, ScopedMetric};
use usage_tray::assistant::Assistant;
use usage_tray::files::FileRead;
use usage_tray::percent::Percent;
use usage_tray::source::{
    cache_mtime, cache_path_in, claude_config_dir, default_cache_path, default_kayfabe_path,
    fake_snapshot, has_rate_limits, merge_snapshot, parse_statusline_json, read_merged_or_kayfabe,
    read_snapshot, should_write_cache, snapshot_from, Metric, RateLimits, SnapshotState,
    UsageSnapshot, CACHE_FILE_NAME,
};
use usage_tray::time::Timestamp;

fn acme() -> Assistant {
    Assistant {
        name: "acme".to_string(),
        title: "Acme".to_string(),
    }
}

fn ts(secs: i64) -> Timestamp {
    Timestamp::from_second(secs).expect("valid timestamp")
}

fn percent(value: f64) -> Percent {
    Percent::from_bits(value.to_bits()).expect("finite")
}

fn text(body: &str) -> FileRead {
    FileRead::Text(body.to_string())
}

const VALID_FULL: &str = r#"{
  "session_id": "abc",
  "model": {"id": "opus", "display_name": "Opus"},
  "workspace": {"current_dir": "/home/me"},
  "cost": {"total_cost_usd": 0.12},
  "output_style": {"name": "default"},
  "rate_limits": {
    "five_hour": {"used_percentage": 42, "resets_at": 1700018000},
    "seven_day": {"used_percentage": 61.5, "resets_at": 1700600000}
  }
}"#;

const MISSING_RATE_LIMITS: &str = r#"{"model": {"id": "opus"}, "workspace": {}}"#;

const FLOAT_PERCENTAGE: &str =
    r#"{"rate_limits": {"five_hour": {"used_percentage": 42.75, "resets_at": 1700018000}}}"#;

const MISSING_RESETS_AT: &str = r#"{"rate_limits": {"five_hour": {"used_percentage": 42}}}"#;

const PAST_RESETS_AT: &str =
    r#"{"rate_limits": {"five_hour": {"used_percentage": 42, "resets_at": 1699990000}}}"#;

fn metric(value: f64) -> Metric {
    Metric {
        percent: Some(percent(value)),
        resets_at: None,
    }
}

fn hook_snapshot(written_at: i64, session: f64, weekly: f64) -> UsageSnapshot {
    UsageSnapshot {
        session: Some(metric(session)),
        weekly: Some(metric(weekly)),
        written_at: Some(ts(written_at)),
        state: SnapshotState::Fresh,
        ..UsageSnapshot::default()
    }
}

fn app_usage(fetched_at: i64, session: f64, weekly: f64) -> AppUsage {
    AppUsage {
        session: Some(metric(session)),
        weekly: Some(metric(weekly)),
        scoped: vec![ScopedMetric {
            name: "Fable".to_string(),
            metric: metric(71.0),
        }],
        fetched_at: Some(ts(fetched_at)),
    }
}

#[test]
fn valid_full_statusline_json_yields_both_metrics() {
    let body = VALID_FULL.to_string();
    let now = ts(1700000000 + 100);
    let snap = snapshot_from(&body, Some(ts(1700000000)), now);

    assert_eq!(snap.state, SnapshotState::Fresh);
    assert_eq!(snap.written_at, Some(ts(1700000000)));

    let session = snap.session.expect("session metric present");
    assert_eq!(session.percent, Some(percent(42.0)));
    assert_eq!(session.resets_at, Some(ts(1700018000)));

    let weekly = snap.weekly.expect("weekly metric present");
    assert_eq!(weekly.percent, Some(percent(61.5)));
    assert_eq!(weekly.resets_at, Some(ts(1700600000)));
}

#[test]
fn the_other_statusline_keys_are_ignored() {
        let body = VALID_FULL.to_string();
    assert!(body.contains("\"model\""), "fixture must be realistic");
    assert!(body.contains("\"workspace\""), "fixture must be realistic");
    let snap = snapshot_from(&body, Some(ts(1700000000)), ts(1700000000));
    assert_eq!(snap.state, SnapshotState::Fresh);
    assert!(snap.session.is_some());
}

#[test]
fn mtime_older_than_600s_is_stale() {
    let body = VALID_FULL.to_string();
    let snap = snapshot_from(&body, Some(ts(1700000000)), ts(1700000000 + 601));
    assert_eq!(snap.state, SnapshotState::Stale);
}

#[test]
fn mtime_exactly_600s_old_is_still_fresh() {
    let body = VALID_FULL.to_string();
    let snap = snapshot_from(&body, Some(ts(1700000000)), ts(1700000000 + 600));
    assert_eq!(snap.state, SnapshotState::Fresh);
}

#[test]
fn an_unknown_mtime_is_treated_as_fresh_rather_than_missing() {
    let body = VALID_FULL.to_string();
    let snap = snapshot_from(&body, None, ts(1700000000));
    assert_eq!(snap.state, SnapshotState::Fresh);
    assert_eq!(snap.written_at, None);
    assert!(snap.session.is_some());
}

const MERGE_NOW: i64 = 1_700_000_000;

#[test]
fn merge_prefers_the_app_cache_when_it_is_newer() {
    let hook = hook_snapshot(MERGE_NOW - 300, 10.0, 40.0);
    let app = app_usage(MERGE_NOW - 60, 11.0, 47.0);
    let merged = merge_snapshot(hook, Some(app), ts(MERGE_NOW));
    assert_eq!(merged.session.as_ref().and_then(|m| m.percent), Some(percent(11.0)));
    assert_eq!(merged.weekly.as_ref().and_then(|m| m.percent), Some(percent(47.0)));
    assert_eq!(merged.written_at, Some(ts(MERGE_NOW - 60)));
    assert_eq!(merged.state, SnapshotState::Fresh);
    assert!(!merged.hook_missing);
}

#[test]
fn merge_prefers_the_hook_when_it_is_newer() {
    let hook = hook_snapshot(MERGE_NOW - 60, 10.0, 40.0);
    let app = app_usage(MERGE_NOW - 300, 11.0, 47.0);
    let merged = merge_snapshot(hook, Some(app), ts(MERGE_NOW));
    assert_eq!(merged.session.as_ref().and_then(|m| m.percent), Some(percent(10.0)));
    assert_eq!(merged.weekly.as_ref().and_then(|m| m.percent), Some(percent(40.0)));
    assert_eq!(merged.written_at, Some(ts(MERGE_NOW - 60)));
}

#[test]
fn merge_keeps_the_scoped_rows_even_when_the_hook_wins() {
    let hook = hook_snapshot(MERGE_NOW - 60, 10.0, 40.0);
    let app = app_usage(MERGE_NOW - 300, 11.0, 47.0);
    let merged = merge_snapshot(hook, Some(app), ts(MERGE_NOW));
    assert_eq!(merged.scoped.len(), 1);
    assert_eq!(merged.scoped[0].name, "Fable");
    assert_eq!(merged.scoped_fetched_at, Some(ts(MERGE_NOW - 300)));
}

#[test]
fn merge_falls_back_per_metric_when_the_winner_lacks_one() {
    // The winning (newer) hook has no weekly window at all; the app
    // cache's weekly must survive rather than vanish.
    let mut hook = hook_snapshot(MERGE_NOW - 60, 10.0, 0.0);
    hook.weekly = None;
    let app = app_usage(MERGE_NOW - 300, 11.0, 47.0);
    let merged = merge_snapshot(hook, Some(app), ts(MERGE_NOW));
    assert_eq!(merged.session.as_ref().and_then(|m| m.percent), Some(percent(10.0)));
    assert_eq!(merged.weekly.as_ref().and_then(|m| m.percent), Some(percent(47.0)));
}

#[test]
fn merge_with_a_missing_hook_uses_the_app_cache_and_flags_the_hook() {
    let hook = UsageSnapshot::missing();
    let app = app_usage(MERGE_NOW - 60, 11.0, 47.0);
    let merged = merge_snapshot(hook, Some(app), ts(MERGE_NOW));
    assert_eq!(merged.session.as_ref().and_then(|m| m.percent), Some(percent(11.0)));
    assert_eq!(merged.state, SnapshotState::Fresh);
    assert!(merged.hook_missing);
}

#[test]
fn merge_with_no_app_cache_is_the_hook_snapshot() {
    let hook = hook_snapshot(MERGE_NOW - 60, 10.0, 40.0);
    let merged = merge_snapshot(hook, None, ts(MERGE_NOW));
    assert_eq!(merged.session.as_ref().and_then(|m| m.percent), Some(percent(10.0)));
    assert_eq!(merged.weekly.as_ref().and_then(|m| m.percent), Some(percent(40.0)));
    assert!(merged.scoped.is_empty());
    assert!(!merged.hook_missing);
}

#[test]
fn merge_with_neither_source_is_missing() {
    let merged = merge_snapshot(UsageSnapshot::missing(), None, ts(MERGE_NOW));
    assert_eq!(merged.state, SnapshotState::Missing);
    assert!(merged.hook_missing);
}

#[test]
fn merge_treats_an_undated_app_cache_as_older_than_any_hook() {
    let hook = hook_snapshot(MERGE_NOW - 60, 10.0, 40.0);
    let mut app = app_usage(MERGE_NOW - 300, 11.0, 47.0);
    app.fetched_at = None;
    let merged = merge_snapshot(hook, Some(app), ts(MERGE_NOW));
    assert_eq!(merged.session.as_ref().and_then(|m| m.percent), Some(percent(10.0)));
    assert_eq!(merged.written_at, Some(ts(MERGE_NOW - 60)));
    // The scoped rows still come along; they have no other source.
    assert_eq!(merged.scoped.len(), 1);
}

#[test]
fn merge_classifies_staleness_from_the_winning_timestamp() {
    // Both sources are old; the fresher of the two is still past the
    // staleness threshold, so the merged snapshot is Stale, not Fresh.
    let hook = hook_snapshot(MERGE_NOW - 5000, 10.0, 40.0);
    let mut hook = hook;
    hook.state = SnapshotState::Stale;
    let app = app_usage(MERGE_NOW - 3000, 11.0, 47.0);
    let merged = merge_snapshot(hook, Some(app), ts(MERGE_NOW));
    assert_eq!(merged.written_at, Some(ts(MERGE_NOW - 3000)));
    assert_eq!(merged.state, SnapshotState::Stale);
}

#[test]
fn kayfabe_can_stage_a_fable_row() {
    let body = r#"{"session": 10, "weekly": 20, "fable": 71}"#;
    let snap = fake_snapshot(body, Some(ts(MERGE_NOW)), ts(MERGE_NOW));
    assert_eq!(snap.scoped.len(), 1);
    assert_eq!(snap.scoped[0].name, "Fable");
    assert_eq!(snap.scoped[0].metric.percent, Some(percent(71.0)));
    // Anchored to `written_at` so a staged snapshot never grows the
    // "as of" age suffix while the demo is being looked at.
    assert_eq!(snap.scoped_fetched_at, snap.written_at);
}

#[test]
fn kayfabe_without_a_fable_key_stages_no_scoped_rows() {
    let snap = fake_snapshot(r#"{"session": 10}"#, Some(ts(MERGE_NOW)), ts(MERGE_NOW));
    assert!(snap.scoped.is_empty());
}

#[test]
fn missing_rate_limits_gives_none_metrics_but_a_real_state() {
    let body = MISSING_RATE_LIMITS.to_string();
    let snap = snapshot_from(&body, Some(ts(1700000000)), ts(1700000000 + 5));

    assert_eq!(snap.state, SnapshotState::Fresh);
    assert!(snap.session.is_none());
    assert!(snap.weekly.is_none());
}

#[test]
fn float_used_percentage_is_parsed() {
    let body = FLOAT_PERCENTAGE.to_string();
    let snap = snapshot_from(&body, Some(ts(1700000000)), ts(1700000000 + 5));
    let session = snap.session.expect("session metric present");
    assert_eq!(session.percent, Some(percent(42.75)));
}

#[test]
fn missing_resets_at_gives_none_resets_but_keeps_percent() {
    let body = MISSING_RESETS_AT.to_string();
    let snap = snapshot_from(&body, Some(ts(1700000000)), ts(1700000000 + 5));
    let session = snap.session.expect("session metric present");
    assert_eq!(session.percent, Some(percent(42.0)));
    assert_eq!(session.resets_at, None);
}

#[test]
fn past_resets_at_with_nonzero_percent_forces_percent_to_zero() {
    let body = PAST_RESETS_AT.to_string();
    let snap = snapshot_from(&body, Some(ts(1700000000)), ts(1700000000 + 5));
    let session = snap.session.expect("session metric present");
    assert_eq!(session.percent, Some(percent(0.0)));
}

#[test]
fn garbage_json_is_missing() {
    let body = "{ this is not json".to_string();
    let snap = snapshot_from(&body, Some(ts(1700000000)), ts(1700000000));
    assert_eq!(snap.state, SnapshotState::Missing);
    assert!(snap.session.is_none());
    assert!(snap.weekly.is_none());
    assert!(snap.written_at.is_none());
}

#[test]
fn empty_body_is_missing() {
    let snap = snapshot_from("", Some(ts(1700000000)), ts(1700000000));
    assert_eq!(snap.state, SnapshotState::Missing);
}

#[test]
fn parse_statusline_json_reports_non_json_as_none() {
    assert!(parse_statusline_json("not json", ts(1700000000)).is_none());
    assert_eq!(
        parse_statusline_json("{}", ts(1700000000)),
        Some(RateLimits {
            session: None,
            weekly: None,
        })
    );
}

#[test]
fn should_write_cache_writes_when_no_existing_cache() {
    assert!(should_write_cache(b"{}", None));
}

#[test]
fn should_write_cache_writes_when_incoming_has_rate_limits() {
    let incoming = br#"{"rate_limits":{"five_hour":{"used_percentage":3}}}"#;
    let existing = br#"{"rate_limits":{"five_hour":{"used_percentage":1}}}"#;
    assert!(should_write_cache(incoming, Some(existing)));
}

#[test]
fn should_write_cache_skips_when_incoming_lacks_it_but_existing_has_it() {
    let incoming = br#"{"model":"opus"}"#;
    let existing = br#"{"rate_limits":{"five_hour":{"used_percentage":1}}}"#;
    assert!(!should_write_cache(incoming, Some(existing)));
}

#[test]
fn should_write_cache_writes_when_both_lack_it() {
    let incoming = br#"{"model":"opus"}"#;
    let existing = br#"{"model":"sonnet"}"#;
    assert!(should_write_cache(incoming, Some(existing)));
}

#[test]
fn should_write_cache_skips_when_incoming_malformed_and_existing_good() {
    let incoming = b"not json";
    let existing = br#"{"rate_limits":{"five_hour":{"used_percentage":1}}}"#;
    assert!(!should_write_cache(incoming, Some(existing)));
}

#[test]
fn should_write_cache_writes_when_existing_malformed_and_incoming_good() {
    let incoming = br#"{"rate_limits":{"five_hour":{"used_percentage":3}}}"#;
    let existing = b"not json";
    assert!(should_write_cache(incoming, Some(existing)));
}

#[test]
fn should_write_cache_treats_null_rate_limits_as_absent() {
    let incoming = br#"{"rate_limits":null}"#;
    let existing = br#"{"rate_limits":{"five_hour":{"used_percentage":1}}}"#;
    assert!(!should_write_cache(incoming, Some(existing)));
    assert!(should_write_cache(incoming, None));
}

#[test]
fn fake_snapshot_full_file_sets_every_field() {
    let now = ts(1_700_000_000);
    let body = r#"{"session": 82, "weekly": 45, "age_minutes": 10,
                    "session_resets_in_minutes": 30, "weekly_resets_in_days": 2}"#;
    let snap = fake_snapshot(body, Some(now), now);

    assert_eq!(snap.state, SnapshotState::Fresh);
    assert_eq!(snap.written_at, Some(ts(1_700_000_000 - 600)));

    let session = snap.session.expect("session present");
    assert_eq!(session.percent, Some(percent(82.0)));
    assert_eq!(session.resets_at, Some(ts(1_700_000_000 + 30 * 60)));

    let weekly = snap.weekly.expect("weekly present");
    assert_eq!(weekly.percent, Some(percent(45.0)));
    assert_eq!(weekly.resets_at, Some(ts(1_700_000_000 + 2 * 86_400)));
}

#[test]
fn fake_snapshot_empty_object_uses_every_default() {
    let now = ts(1_700_000_000);
    let snap = fake_snapshot("{}", Some(now), now);

    assert_eq!(snap.state, SnapshotState::Fresh);
    assert_eq!(snap.written_at, Some(now)); // age_minutes defaults to 0

    let session = snap.session.expect("session present, percent unknown");
    assert_eq!(session.percent, None);
    assert_eq!(session.resets_at, Some(ts(1_700_000_000 + 180 * 60)));

    let weekly = snap.weekly.expect("weekly present, percent unknown");
    assert_eq!(weekly.percent, None);
    assert_eq!(weekly.resets_at, Some(ts(1_700_000_000 + 4 * 86_400)));
}

#[test]
fn fake_snapshot_session_omitted_is_none_percent_but_weekly_still_set() {
    let now = ts(1_700_000_000);
    let snap = fake_snapshot(r#"{"weekly": 45}"#, Some(now), now);
    assert_eq!(snap.session.expect("session present").percent, None);
    assert_eq!(snap.weekly.expect("weekly present").percent, Some(percent(45.0)));
}

#[test]
fn fake_snapshot_weekly_omitted_is_none_percent_but_session_still_set() {
    let now = ts(1_700_000_000);
    let snap = fake_snapshot(r#"{"session": 82}"#, Some(now), now);
    assert_eq!(snap.session.expect("session present").percent, Some(percent(82.0)));
    assert_eq!(snap.weekly.expect("weekly present").percent, None);
}

#[test]
fn fake_snapshot_age_crossing_stale_boundary() {
    let now = ts(1_700_000_000);
    let fresh = fake_snapshot(r#"{"age_minutes": 9}"#, Some(now), now); // 540s < 600s
    assert_eq!(fresh.state, SnapshotState::Fresh);

    let stale = fake_snapshot(r#"{"age_minutes": 12}"#, Some(now), now); // 720s > 600s
    assert_eq!(stale.state, SnapshotState::Stale);
    assert_eq!(stale.written_at, Some(ts(1_700_000_000 - 12 * 60)));
}

#[test]
fn fake_snapshot_negative_resets_in_are_kept_as_past_timestamps() {
    let now = ts(1_700_000_000);
    let snap = fake_snapshot(
        r#"{"session": 0, "session_resets_in_minutes": -5, "weekly_resets_in_days": -1}"#,
        Some(now),
        now,
    );
    // The fake file is authoritative: percent is NOT re-zeroed by the
    // real cache's past-resets-at rule, it's simply whatever was set.
    let session = snap.session.expect("session present");
    assert_eq!(session.percent, Some(percent(0.0)));
    assert_eq!(session.resets_at, Some(ts(1_700_000_000 - 5 * 60)));
    let weekly = snap.weekly.expect("weekly present");
    assert_eq!(weekly.resets_at, Some(ts(1_700_000_000 - 86_400)));
}

#[test]
fn fake_snapshot_resets_are_anchored_to_the_mtime_not_to_now() {
    let mtime = ts(1_700_000_000);
    let now = ts(1_700_000_000 + 3_600); // an hour of polling later
    let snap = fake_snapshot(
        r#"{"session": 82, "session_resets_in_minutes": 30, "weekly_resets_in_days": 2}"#,
        Some(mtime),
        now,
    );
    assert_eq!(
        snap.session.expect("session").resets_at,
        Some(ts(1_700_000_000 + 30 * 60))
    );
    assert_eq!(
        snap.weekly.expect("weekly").resets_at,
        Some(ts(1_700_000_000 + 2 * 86_400))
    );
}

#[test]
fn fake_snapshot_resets_do_not_move_between_polls_of_an_unedited_file() {
    // A `now`-anchored reset time would drift forward on
    // every poll, and look like a new window to the threshold notifier.
    let mtime = ts(1_700_000_000);
    let body = r#"{"session": 82}"#;
    let first = fake_snapshot(body, Some(mtime), ts(1_700_000_100));
    for tick in [1, 5, 60, 3_600] {
        let later = fake_snapshot(body, Some(mtime), ts(1_700_000_100 + tick));
        assert_eq!(
            first.session.as_ref().expect("session").resets_at,
            later.session.as_ref().expect("session").resets_at,
            "session reset moved after {tick}s"
        );
        assert_eq!(
            first.weekly.as_ref().expect("weekly").resets_at,
            later.weekly.as_ref().expect("weekly").resets_at,
            "weekly reset moved after {tick}s"
        );
    }
}

#[test]
fn fake_snapshot_without_an_mtime_falls_back_to_now() {
    let now = ts(1_700_000_000);
    let snap = fake_snapshot(r#"{"session_resets_in_minutes": 30}"#, None, now);
    assert_eq!(
        snap.session.expect("session").resets_at,
        Some(ts(1_700_000_000 + 30 * 60))
    );
}

#[test]
fn fake_snapshot_garbage_json_is_missing() {
    let now = ts(1_700_000_000);
    let snap = fake_snapshot("not json", Some(now), now);
    assert_eq!(snap.state, SnapshotState::Missing);
    assert!(snap.session.is_none());
    assert!(snap.weekly.is_none());
    assert!(snap.written_at.is_none());
}

#[test]
fn write_cache_then_read_snapshot_round_trips() {
    // A document is kept byte for byte, so what is read is what came in.
    assert!(should_write_cache(VALID_FULL.as_bytes(), None));
    let file = FileRead::Text(VALID_FULL.to_string());
    let now = ts(1_700_000_000);
    let snap = read_snapshot(&file, Some(now), now);
    assert_eq!(snap.state, SnapshotState::Fresh);
    assert_eq!(snap.session.expect("session").percent, Some(percent(42.0)));
}

#[test]
fn nonexistent_path_gives_missing_via_read_snapshot() {
    let now = ts(1700000000);
    let snap = read_snapshot(&FileRead::NotFound, None, now);
    assert_eq!(snap.state, SnapshotState::Missing);
    assert!(snap.session.is_none());
    assert!(snap.weekly.is_none());
    assert!(snap.written_at.is_none());
}

#[test]
fn read_snapshot_takes_its_freshness_from_the_file_mtime() {
    let file = text(VALID_FULL);
    let mtime = Some(ts(1_700_000_000));

    let fresh = read_snapshot(&file, mtime, ts(1_700_000_000 + 60));
    assert_eq!(fresh.state, SnapshotState::Fresh);
    assert_eq!(fresh.written_at, Some(ts(1_700_000_000)));
    assert_eq!(
        fresh.session.expect("session").percent,
        Some(percent(42.0))
    );

    let stale = read_snapshot(&file, mtime, ts(1_700_000_000 + 3_600));
    assert_eq!(stale.state, SnapshotState::Stale);
    assert_eq!(stale.written_at, Some(ts(1_700_000_000)));
}

#[test]
fn default_cache_path_respects_claude_config_dir_env_var() {
    assert_eq!(
        default_cache_path(Some("/tmp/custom-acme-dir"), Some("/home/me"), &acme()),
        "/tmp/custom-acme-dir/usage-tray-statusline.json"
    );
}

#[test]
fn default_cache_path_falls_back_to_home_dot_claude() {
    let path = default_cache_path(None, Some("/home/me"), &acme());
    assert!(path.ends_with(CACHE_FILE_NAME));
    assert!(path.contains(".acme"));
    assert_eq!(path, cache_path_in("/home/me/.acme"));
    assert_eq!(claude_config_dir(Some(""), None, &acme()), "./.acme");
}

#[test]
fn default_kayfabe_path_sits_next_to_config_toml() {
    let path = default_kayfabe_path(Some("/home/me/.config"), &acme());
    assert!(path.ends_with("acme-usage-tray/kayfabe.json"));
}

const SCOPED_RECORD: &str = r#"{"cachedUsageUtilization": {"fetchedAtMs": 1, "utilization": {"limits": [
    {"kind": "weekly_scoped", "percent": 71,
     "scope": {"model": {"display_name": "Fable"}}}
]}}}"#;

#[test]
fn read_merged_or_kayfabe_merges_the_two_real_files() {
    let now = ts(1_700_000_000);
    let snap = read_merged_or_kayfabe(
        &FileRead::NotFound,
        None,
        &text(r#"{"rate_limits":{"five_hour":{"used_percentage":10}}}"#),
        Some(now),
        &text(SCOPED_RECORD),
        now,
    );
    assert_eq!(
        snap.session.as_ref().and_then(|m| m.percent),
        Some(percent(10.0))
    );
    assert_eq!(snap.scoped.len(), 1);
    assert!(!snap.hook_missing);
}

#[test]
fn read_merged_or_kayfabe_still_prefers_the_kayfabe_file() {
    let now = ts(1_700_000_000);
    let snap = read_merged_or_kayfabe(
        &text(r#"{"session": 55, "fable": 71}"#),
        Some(now),
        &FileRead::NotFound,
        None,
        &FileRead::NotFound,
        now,
    );
    assert_eq!(
        snap.session.as_ref().and_then(|m| m.percent),
        Some(percent(55.0))
    );
    assert_eq!(snap.scoped.len(), 1);
}

#[test]
fn read_merged_or_kayfabe_takes_the_reset_anchor_from_the_file_on_disk() {
    let staged = text(r#"{"session": 82, "session_resets_in_minutes": 30}"#);
    for now in [1_700_000_005, 1_700_000_305] {
        let snap = read_merged_or_kayfabe(
            &staged,
            Some(ts(1_700_000_000)),
            &FileRead::NotFound,
            None,
            &FileRead::NotFound,
            ts(now),
        );
        assert_eq!(
            snap.session.expect("session").resets_at,
            Some(ts(1_700_000_000 + 30 * 60))
        );
    }
}

#[test]
fn read_merged_or_kayfabe_falls_through_to_real_cache_when_kayfabe_absent() {
    let snap = read_merged_or_kayfabe(
        &FileRead::NotFound,
        None,
        &text(VALID_FULL),
        Some(ts(1_700_000_000)),
        &FileRead::NotFound,
        ts(1_700_000_000 + 5),
    );
    assert_eq!(snap.state, SnapshotState::Fresh);
    assert_eq!(snap.session.expect("session").percent, Some(percent(42.0)));
}

#[test]
fn read_merged_or_kayfabe_uses_kayfabe_when_present() {
    let snap = read_merged_or_kayfabe(
        &text(r#"{"session": 82}"#),
        Some(ts(1_700_000_000)),
        &text(VALID_FULL),
        Some(ts(1_700_000_000)),
        &FileRead::NotFound,
        ts(1_700_000_000 + 5),
    );
    assert_eq!(snap.session.expect("session").percent, Some(percent(82.0)));
}

#[test]
fn read_merged_or_kayfabe_missing_file_content_yields_missing_state() {
    let snap = read_merged_or_kayfabe(
        &text("not json"),
        Some(ts(1_700_000_000)),
        &text(VALID_FULL),
        Some(ts(1_700_000_000)),
        &FileRead::NotFound,
        ts(1_700_000_000 + 5),
    );
    assert_eq!(snap.state, SnapshotState::Missing);
}

#[test]
fn a_file_time_before_the_epoch_is_kept_and_one_beyond_the_calendar_is_unknown() {
    assert_eq!(cache_mtime(1_700_000_000, false), Some(ts(1_700_000_000)));
    assert_eq!(cache_mtime(5, true), Some(ts(-5)));
    assert_eq!(cache_mtime(u64::MAX, false), None);
}

#[test]
fn usage_data_is_told_from_its_key() {
    assert!(has_rate_limits(br#"{"rate_limits":{}}"#));
    assert!(!has_rate_limits(br#"{"rate_limits":null}"#));
    assert!(!has_rate_limits(b"\xff"));
}

#[test]
fn a_staged_reading_is_written_as_long_ago_as_it_says() {
    let body = r#"{"session": 10, "age_minutes": 7}"#;
    for now in [1_700_000_000, 1_700_000_123] {
        let snapshot = fake_snapshot(body, Some(ts(1_600_000_000)), ts(now));
        assert_eq!(snapshot.written_at, Some(ts(now - 420)));
    }
}
