//! The plain tray: its texts and its alerts.

use jiff::tz::TimeZone;
use usage_tray::assistant::Assistant;
use usage_tray::percent::Percent;
use usage_tray::source::{Metric, SnapshotState, UsageSnapshot};
use usage_tray::time::Timestamp;
use usage_tray::tray::{
    humanize_reset, session_line, snapshot_changed, status_line, tooltip_text, weekly_line, Notifier,
    Row, UsageAlert, UsageTray, Wake,
};

// 2023-11-14 22:13:20 UTC (a Tuesday)
const BASE: i64 = 1_700_000_000;

fn ts(secs: i64) -> Timestamp {
    Timestamp::from_second(secs).expect("valid timestamp")
}

fn acme() -> Assistant {
    Assistant {
        name: "acme".to_string(),
        title: "Acme".to_string(),
    }
}

fn utc() -> TimeZone {
    TimeZone::UTC
}

fn percent(value: f64) -> Percent {
    Percent::from_bits(value.to_bits()).expect("finite")
}

fn metric(value: Option<f64>, resets_at: Option<i64>) -> Metric {
    Metric {
        percent: value.map(percent),
        resets_at: resets_at.map(ts),
    }
}

fn snapshot(state: SnapshotState, written_at: Option<i64>) -> UsageSnapshot {
    UsageSnapshot {
        written_at: written_at.map(ts),
        state,
        ..UsageSnapshot::default()
    }
}

#[test]
fn tray_humanize_reset_same_day_is_time_only() {
    // BASE is 22:13:20 UTC; +1000s -> 22:30 same day
    assert_eq!(humanize_reset(ts(BASE + 1000), ts(BASE), &utc()), "22:30");
}

#[test]
fn tray_humanize_reset_other_day_includes_weekday() {
    // BASE + 12h crosses midnight into Wednesday 10:13
    assert_eq!(
        humanize_reset(ts(BASE + 12 * 3600), ts(BASE), &utc()),
        "Wed 10:13"
    );
}

#[test]
fn tray_humanize_reset_six_days_out_still_uses_weekday_form() {
    // BASE is Tue 2023-11-14; +6 days is Mon 2023-11-20 — still "this
    // week enough" to read unambiguously as a weekday.
    assert_eq!(
        humanize_reset(ts(BASE + 6 * 86_400), ts(BASE), &utc()),
        "Mon 22:13"
    );
}

#[test]
fn tray_humanize_reset_more_than_six_days_out_uses_month_day_form() {
    // BASE is Tue 2023-11-14; +7 days is Tue 2023-11-21 — a bare "Tue"
    // would misleadingly read as "this week", so fall back to Mon DD.
    assert_eq!(
        humanize_reset(ts(BASE + 7 * 86_400), ts(BASE), &utc()),
        "Nov 21 22:13"
    );
}

#[test]
fn tray_humanize_reset_far_future_uses_month_day_form() {
    // BASE + 8 days -> Wed 2023-11-22.
    assert_eq!(
        humanize_reset(ts(BASE + 8 * 86_400), ts(BASE), &utc()),
        "Nov 22 22:13"
    );
}

#[test]
fn tray_session_line_with_percent_and_reset() {
    let m = metric(Some(42.0), Some(BASE + 1000));
    assert_eq!(
        session_line(Some(&m), ts(BASE), &utc()),
        "Session: 42% · resets 22:30"
    );
}

#[test]
fn tray_session_line_rounds_fractional_percent() {
    let m = metric(Some(61.5), Some(BASE + 1000));
    assert_eq!(
        session_line(Some(&m), ts(BASE), &utc()),
        "Session: 62% · resets 22:30"
    );
}

#[test]
fn tray_session_line_without_reset_omits_reset_clause() {
    let m = metric(Some(42.0), None);
    assert_eq!(session_line(Some(&m), ts(BASE), &utc()), "Session: 42%");
}

#[test]
fn tray_session_line_without_percent_uses_dash() {
    let m = metric(None, Some(BASE + 1000));
    assert_eq!(
        session_line(Some(&m), ts(BASE), &utc()),
        "Session: — · resets 22:30"
    );
}

#[test]
fn tray_session_line_absent_metric_is_no_data() {
    assert_eq!(session_line(None, ts(BASE), &utc()), "Session: no data");
}

#[test]
fn tray_weekly_line_uses_weekly_label() {
    let m = metric(Some(61.0), Some(BASE + 12 * 3600));
    assert_eq!(
        weekly_line(Some(&m), ts(BASE), &utc()),
        "Weekly: 61% · resets Wed 10:13"
    );
}

#[test]
fn status_line_missing_tells_user_to_install_hook() {
    let s = snapshot(SnapshotState::Missing, None);
    assert_eq!(
        status_line(&s, ts(BASE), &utc()),
        "⚠ No data — install statusline hook"
    );
}

#[test]
fn status_line_stale_shows_since_time() {
    let s = snapshot(SnapshotState::Stale, Some(BASE - 3600));
    assert_eq!(status_line(&s, ts(BASE), &utc()), "⚠ Stale since 21:13");
}

#[test]
fn tray_status_line_fresh_under_a_minute_is_just_now() {
    let s = snapshot(SnapshotState::Fresh, Some(BASE - 30));
    assert_eq!(status_line(&s, ts(BASE), &utc()), "Updated just now");
}

#[test]
fn tray_status_line_fresh_one_minute_is_singular() {
    let s = snapshot(SnapshotState::Fresh, Some(BASE - 60));
    assert_eq!(status_line(&s, ts(BASE), &utc()), "Updated 1 min ago");
}

#[test]
fn tray_status_line_fresh_minutes_ago() {
    let s = snapshot(SnapshotState::Fresh, Some(BASE - 185));
    assert_eq!(status_line(&s, ts(BASE), &utc()), "Updated 3 min ago");
}

#[test]
fn tray_status_line_fresh_with_clock_skew_is_just_now() {
    let s = snapshot(SnapshotState::Fresh, Some(BASE + 30));
    assert_eq!(status_line(&s, ts(BASE), &utc()), "Updated just now");
}

#[test]
fn tray_tooltip_text_has_all_three_lines() {
    let mut s = snapshot(SnapshotState::Fresh, Some(BASE - 30));
    s.session = Some(metric(Some(42.0), Some(BASE + 1000)));
    s.weekly = Some(metric(Some(61.0), Some(BASE + 1000)));
    assert_eq!(
        tooltip_text(&s, ts(BASE), &utc()),
        "Session: 42% · resets 22:30\nWeekly: 61% · resets 22:30\nUpdated just now"
    );
}

#[test]
fn tray_snapshot_changed_detects_percent_and_state_changes() {
    let mut a = snapshot(SnapshotState::Fresh, Some(BASE));
    a.session = Some(metric(Some(42.0), Some(BASE + 100)));
    let mut b = a.clone();
    assert!(!snapshot_changed(&a, &b));

    b.session = Some(metric(Some(43.0), Some(BASE + 100)));
    assert!(snapshot_changed(&a, &b));

    let mut c = a.clone();
    c.state = SnapshotState::Stale;
    assert!(snapshot_changed(&a, &c));

    let mut d = a.clone();
    d.written_at = Some(ts(BASE + 5));
    assert!(snapshot_changed(&a, &d));

    let mut e = a.clone();
    e.weekly = Some(metric(Some(1.0), None));
    assert!(snapshot_changed(&a, &e));
}

#[test]
fn notifier_fires_once_at_eighty() {
    let mut n = Notifier::new();
    assert_eq!(n.evaluate(Some(&metric(Some(50.0), Some(BASE)))), None);
    let alert = n
        .evaluate(Some(&metric(Some(81.0), Some(BASE))))
        .expect("crossing 80 fires");
    assert_eq!(alert.threshold, 80);
    assert!(!alert.critical);
    // Still above 80 but not 95: no repeat.
    assert_eq!(n.evaluate(Some(&metric(Some(85.0), Some(BASE)))), None);
}

#[test]
fn notifier_fires_critical_at_ninety_five() {
    let mut n = Notifier::new();
    n.evaluate(Some(&metric(Some(81.0), Some(BASE))));
    let alert = n
        .evaluate(Some(&metric(Some(96.0), Some(BASE))))
        .expect("crossing 95 fires");
    assert_eq!(alert.threshold, 95);
    assert!(alert.critical);
    assert_eq!(n.evaluate(Some(&metric(Some(99.0), Some(BASE)))), None);
}

#[test]
fn notifier_jumping_past_both_thresholds_fires_only_critical() {
    let mut n = Notifier::new();
    n.evaluate(Some(&metric(Some(10.0), Some(BASE))));
    let alert = n
        .evaluate(Some(&metric(Some(97.0), Some(BASE))))
        .expect("fires");
    assert_eq!(alert.threshold, 95);
    // 80 must not fire afterwards while still high.
    assert_eq!(n.evaluate(Some(&metric(Some(90.0), Some(BASE)))), None);
}

#[test]
fn tray_notifier_rearms_when_percent_drops_below_threshold() {
    let mut n = Notifier::new();
    n.evaluate(Some(&metric(Some(10.0), Some(BASE))));
    assert!(n.evaluate(Some(&metric(Some(81.0), Some(BASE)))).is_some());
    assert_eq!(n.evaluate(Some(&metric(Some(70.0), Some(BASE)))), None);
    assert!(n.evaluate(Some(&metric(Some(82.0), Some(BASE)))).is_some());
}

#[test]
fn tray_notifier_rearms_when_window_resets_at_changes() {
    let mut n = Notifier::new();
    n.evaluate(Some(&metric(Some(10.0), Some(BASE))));
    assert!(n.evaluate(Some(&metric(Some(81.0), Some(BASE)))).is_some());
    // New window, still high -> fires again.
    let alert = n
        .evaluate(Some(&metric(Some(81.0), Some(BASE + 18_000))))
        .expect("new window re-arms");
    assert_eq!(alert.threshold, 80);
}

#[test]
fn notifier_first_ever_reading_above_threshold_fires() {
    let mut n = Notifier::new();
    let alert = n
        .evaluate(Some(&metric(Some(85.0), Some(BASE))))
        .expect("first reading above 80 fires");
    assert_eq!(alert.threshold, 80);
}

#[test]
fn tray_notifier_ignores_missing_data_without_rearming() {
    let mut n = Notifier::new();
    assert!(n.evaluate(Some(&metric(Some(81.0), Some(BASE)))).is_some());
    assert_eq!(n.evaluate(None), None);
    assert_eq!(n.evaluate(Some(&metric(None, Some(BASE)))), None);
    // Data comes back unchanged: must not re-fire.
    assert_eq!(n.evaluate(Some(&metric(Some(81.0), Some(BASE)))), None);
}

#[test]
fn tray_alert_text_differs_by_urgency() {
    let warn = UsageAlert {
        threshold: 80,
        percent: percent(81.0),
        critical: false,
    };
    assert_eq!(warn.summary(&acme()), "Acme session usage 81%");
    assert!(warn.body().contains("80%"));

    let crit = UsageAlert {
        threshold: 95,
        percent: percent(96.0),
        critical: true,
    };
    assert_eq!(crit.summary(&acme()), "Acme session usage 96%");
    assert!(crit.body().contains("95%"));
}

#[test]
fn the_plain_menu_shows_three_rows_and_two_items() {
    let mut s = snapshot(SnapshotState::Fresh, Some(BASE - 30));
    s.session = Some(metric(Some(42.0), Some(BASE + 1000)));
    let tray = UsageTray::new(s, utc());
    assert_eq!(
        tray.menu(ts(BASE)),
        vec![
            Row::Info("Session: 42% · resets 22:30".to_string()),
            Row::Info("Weekly: no data".to_string()),
            Row::Info("Updated just now".to_string()),
            Row::Separator,
            Row::Item("Refresh now", Wake::Refresh),
            Row::Item("Quit", Wake::Quit),
        ]
    );
    assert_eq!(tray.activate(), Wake::Refresh);
}

#[test]
fn the_plain_status_line_covers_a_stale_cache_without_a_time_and_an_old_one() {
    let s = snapshot(SnapshotState::Stale, None);
    assert_eq!(status_line(&s, ts(BASE), &utc()), "⚠ Stale");
    let s = snapshot(SnapshotState::Fresh, None);
    assert_eq!(status_line(&s, ts(BASE), &utc()), "Updated recently");
    let s = snapshot(SnapshotState::Fresh, Some(BASE - 7300));
    assert_eq!(status_line(&s, ts(BASE), &utc()), "Updated 2 hr ago");
}

#[test]
fn a_repeated_plain_reading_alerts_once_and_a_gap_changes_nothing() {
    let mut n = Notifier::default();
    let reading = metric(Some(95.0), Some(BASE));
    let alert = n.evaluate(Some(&reading)).expect("95 counts as reaching 95");
    assert_eq!(alert.threshold, 95);
    let before = n;
    assert_eq!(n.evaluate(Some(&metric(None, None))), None);
    assert_eq!(n, before);
    assert_eq!(n.evaluate(Some(&reading)), None);
}
