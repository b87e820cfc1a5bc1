//! The portable half of the tray: texts, alerts, settings and the menu.

use jiff::tz::TimeZone;
use usage_tray::assistant::Assistant;
use usage_tray::config::{Config, IconStyle, NOTIFY_THRESHOLDS, REFRESH_CHOICES};
use usage_tray::icon::IconAppearance;
use usage_tray::menu::{MenuAction, MenuRow, RadioGroup};
use usage_tray::percent::Percent;
use usage_tray::source::{Metric, SnapshotState, UsageSnapshot};
use usage_tray::time::Timestamp;
use usage_tray::ui::{
    humanize_age, humanize_reset, is_news, poll_wait, refresh_message, resolve_appearance,
    same_window, session_line, shows_install_item, snapshot_changed, status_line, status_message,
    tooltip_text, weekly_line, AppearanceHandle, Effect, MenuEnv, Notifier, NotifyPrefs,
    ResetNotifier, Settings, TrayCore, UsageAlert, Wake,
};
use usage_tray::update::Update;

// 2023-11-14 22:13:20 UTC (a Tuesday)
const BASE: i64 = 1_700_000_000;

fn ts(secs: i64) -> Timestamp {
    Timestamp::from_second(secs).expect("valid timestamp")
}

fn acme() -> Assistant {
    Assistant {
        name: "acme".to_string(),
        title: "Acme".to_string(),
    }
}

fn utc() -> TimeZone {
    TimeZone::UTC
}

fn percent(value: f64) -> Percent {
    Percent::from_bits(value.to_bits()).expect("finite")
}

fn metric(value: Option<f64>, resets_at: Option<i64>) -> Metric {
    Metric {
        percent: value.map(percent),
        resets_at: resets_at.map(ts),
    }
}

fn snapshot(state: SnapshotState, written_at: Option<i64>) -> UsageSnapshot {
    UsageSnapshot {
        written_at: written_at.map(ts),
        state,
        ..UsageSnapshot::default()
    }
}

fn core_for(snapshot: UsageSnapshot, config: Config, env_secs: Option<u64>) -> TrayCore {
    TrayCore::new(snapshot, Settings::new(config, env_secs), utc())
}

/// A snapshot with percentages but no reset times.
fn timeless(state: SnapshotState) -> UsageSnapshot {
    UsageSnapshot {
        session: Some(metric(Some(42.0), None)),
        weekly: Some(metric(Some(61.0), None)),
        written_at: Some(ts(BASE - 60)),
        state,
        ..UsageSnapshot::default()
    }
}

fn shown(row: &MenuRow) -> String {
    format!("{row:?}")
}

#[test]
fn ui_humanize_reset_same_day_is_time_only() {
    // BASE is 22:13:20 UTC; +1000s -> 22:30 same day
    assert_eq!(humanize_reset(ts(BASE + 1000), ts(BASE), &utc()), "22:30");
}

#[test]
fn ui_humanize_reset_other_day_includes_weekday() {
    // BASE + 12h crosses midnight into Wednesday 10:13
    assert_eq!(
        humanize_reset(ts(BASE + 12 * 3600), ts(BASE), &utc()),
        "Wed 10:13"
    );
}

#[test]
fn ui_humanize_reset_six_days_out_still_uses_weekday_form() {
    // BASE is Tue 2023-11-14; +6 days is Mon 2023-11-20 — still "this
    // week enough" to read unambiguously as a weekday.
    assert_eq!(
        humanize_reset(ts(BASE + 6 * 86_400), ts(BASE), &utc()),
        "Mon 22:13"
    );
}

#[test]
fn ui_humanize_reset_more_than_six_days_out_uses_month_day_form() {
    // BASE is Tue 2023-11-14; +7 days is Tue 2023-11-21 — a bare "Tue"
    // would misleadingly read as "this week", so fall back to Mon DD.
    assert_eq!(
        humanize_reset(ts(BASE + 7 * 86_400), ts(BASE), &utc()),
        "Nov 21 22:13"
    );
}

#[test]
fn ui_humanize_reset_far_future_uses_month_day_form() {
    // BASE + 8 days -> Wed 2023-11-22.
    assert_eq!(
        humanize_reset(ts(BASE + 8 * 86_400), ts(BASE), &utc()),
        "Nov 22 22:13"
    );
}

#[test]
fn ui_session_line_with_percent_and_reset() {
    let m = metric(Some(42.0), Some(BASE + 1000));
    assert_eq!(
        session_line(Some(&m), ts(BASE), &utc()),
        "Session: 42% · resets 22:30"
    );
}

#[test]
fn ui_session_line_rounds_fractional_percent() {
    let m = metric(Some(61.5), Some(BASE + 1000));
    assert_eq!(
        session_line(Some(&m), ts(BASE), &utc()),
        "Session: 62% · resets 22:30"
    );
}

#[test]
fn ui_session_line_without_reset_omits_reset_clause() {
    let m = metric(Some(42.0), None);
    assert_eq!(session_line(Some(&m), ts(BASE), &utc()), "Session: 42%");
}

#[test]
fn ui_session_line_without_percent_uses_dash() {
    let m = metric(None, Some(BASE + 1000));
    assert_eq!(
        session_line(Some(&m), ts(BASE), &utc()),
        "Session: — · resets 22:30"
    );
}

#[test]
fn ui_session_line_absent_metric_is_no_data() {
    assert_eq!(session_line(None, ts(BASE), &utc()), "Session: no data");
}

#[test]
fn ui_weekly_line_uses_weekly_label() {
    let m = metric(Some(61.0), Some(BASE + 12 * 3600));
    assert_eq!(
        weekly_line(Some(&m), ts(BASE), &utc()),
        "Weekly: 61% · resets Wed 10:13"
    );
}

#[test]
fn status_line_missing_says_the_hook_is_not_installed() {
    let s = snapshot(SnapshotState::Missing, None);
    assert_eq!(
        status_line(&s, ts(BASE), &utc()),
        "⚠ Hook not installed — no data"
    );
}

#[test]
fn the_install_item_appears_only_while_there_is_no_data() {
    assert!(shows_install_item(&SnapshotState::Missing));
    assert!(!shows_install_item(&SnapshotState::Stale));
    assert!(!shows_install_item(&SnapshotState::Fresh));
}

#[test]
fn status_line_stale_under_an_hour_counts_minutes() {
    // Stale starts at 10 minutes, so this is the shortest gap the branch
    // ever has to describe.
    let s = snapshot(SnapshotState::Stale, Some(BASE - 11 * 60));
    assert_eq!(
        status_line(&s, ts(BASE), &utc()),
        "⚠ Last updated 11 min ago"
    );
    let s = snapshot(SnapshotState::Stale, Some(BASE - 59 * 60));
    assert_eq!(
        status_line(&s, ts(BASE), &utc()),
        "⚠ Last updated 59 min ago"
    );
}

#[test]
fn status_line_stale_switches_to_hours_at_one_hour() {
    let s = snapshot(SnapshotState::Stale, Some(BASE - 3600));
    assert_eq!(status_line(&s, ts(BASE), &utc()), "⚠ Last updated 1 h ago");
    let s = snapshot(SnapshotState::Stale, Some(BASE - 12 * 3600));
    assert_eq!(status_line(&s, ts(BASE), &utc()), "⚠ Last updated 12 h ago");
}

#[test]
fn status_line_stale_rounds_hours_to_the_nearest() {
    // 1 h 45 min is "2 h", not "1 h".
    let s = snapshot(SnapshotState::Stale, Some(BASE - (3600 + 45 * 60)));
    assert_eq!(status_line(&s, ts(BASE), &utc()), "⚠ Last updated 2 h ago");
    // ...and 1 h 10 min still rounds down.
    let s = snapshot(SnapshotState::Stale, Some(BASE - (3600 + 10 * 60)));
    assert_eq!(status_line(&s, ts(BASE), &utc()), "⚠ Last updated 1 h ago");
}

#[test]
fn status_line_stale_switches_to_days_at_forty_eight_hours() {
    // 47 h stays in hours; 48 h is the first "2 d".
    let s = snapshot(SnapshotState::Stale, Some(BASE - 47 * 3600));
    assert_eq!(status_line(&s, ts(BASE), &utc()), "⚠ Last updated 47 h ago");
    let s = snapshot(SnapshotState::Stale, Some(BASE - 48 * 3600));
    assert_eq!(status_line(&s, ts(BASE), &utc()), "⚠ Last updated 2 d ago");
    let s = snapshot(SnapshotState::Stale, Some(BASE - 9 * 86_400));
    assert_eq!(status_line(&s, ts(BASE), &utc()), "⚠ Last updated 9 d ago");
}

#[test]
fn status_line_stale_without_a_timestamp_just_says_stale() {
    let s = snapshot(SnapshotState::Stale, None);
    assert_eq!(status_line(&s, ts(BASE), &utc()), "⚠ Stale");
}

#[test]
fn status_line_stale_with_clock_skew_does_not_go_negative() {
    // A cache "written in the future" is a skewed clock, not time travel.
    let s = snapshot(SnapshotState::Stale, Some(BASE + 300));
    assert_eq!(status_line(&s, ts(BASE), &utc()), "⚠ Last updated 0 min ago");
}

#[test]
fn ui_status_line_fresh_under_a_minute_is_just_now() {
    let s = snapshot(SnapshotState::Fresh, Some(BASE - 30));
    assert_eq!(status_line(&s, ts(BASE), &utc()), "Updated just now");
}

#[test]
fn ui_status_line_fresh_one_minute_is_singular() {
    let s = snapshot(SnapshotState::Fresh, Some(BASE - 60));
    assert_eq!(status_line(&s, ts(BASE), &utc()), "Updated 1 min ago");
}

#[test]
fn ui_status_line_fresh_minutes_ago() {
    let s = snapshot(SnapshotState::Fresh, Some(BASE - 185));
    assert_eq!(status_line(&s, ts(BASE), &utc()), "Updated 3 min ago");
}

#[test]
fn ui_status_line_fresh_with_clock_skew_is_just_now() {
    let s = snapshot(SnapshotState::Fresh, Some(BASE + 30));
    assert_eq!(status_line(&s, ts(BASE), &utc()), "Updated just now");
}

#[test]
fn ui_tooltip_text_has_all_three_lines() {
    let mut s = snapshot(SnapshotState::Fresh, Some(BASE - 30));
    s.session = Some(metric(Some(42.0), Some(BASE + 1000)));
    s.weekly = Some(metric(Some(61.0), Some(BASE + 1000)));
    assert_eq!(
        tooltip_text(&s, ts(BASE), &utc()),
        "Session: 42% · resets 22:30\nWeekly: 61% · resets 22:30\nUpdated just now"
    );
}

/// Builds a snapshot with both metrics populated.
fn full(state: SnapshotState, written_at: i64, session: f64, weekly: f64) -> UsageSnapshot {
    let mut s = snapshot(state, Some(written_at));
    s.session = Some(metric(Some(session), Some(BASE + 1000)));
    s.weekly = Some(metric(Some(weekly), Some(BASE + 1000)));
    s
}

#[test]
fn refresh_message_reports_updated_when_written_at_moved() {
    let before = full(SnapshotState::Fresh, BASE - 300, 5.0, 27.0);
    let after = full(SnapshotState::Fresh, BASE - 10, 7.0, 28.0);
    assert_eq!(
        refresh_message(&before, &after, ts(BASE), &utc(), &acme()),
        "Updated — Session 7%, Weekly 28%"
    );
}

#[test]
fn refresh_message_reports_updated_even_when_percentages_are_unchanged() {
    // A new report with identical numbers is still new data.
    let before = full(SnapshotState::Fresh, BASE - 300, 7.0, 28.0);
    let after = full(SnapshotState::Fresh, BASE - 10, 7.0, 28.0);
    assert_eq!(
        refresh_message(&before, &after, ts(BASE), &utc(), &acme()),
        "Updated — Session 7%, Weekly 28%"
    );
}

#[test]
fn refresh_message_without_percentages_uses_dashes() {
    let before = snapshot(SnapshotState::Fresh, Some(BASE - 300));
    let after = snapshot(SnapshotState::Fresh, Some(BASE - 10));
    assert_eq!(
        refresh_message(&before, &after, ts(BASE), &utc(), &acme()),
        "Updated — Session —, Weekly —"
    );
}

#[test]
fn refresh_message_reports_no_new_data_with_the_last_report_time() {
    let before = full(SnapshotState::Fresh, BASE - 3600, 7.0, 28.0);
    let after = before.clone();
    assert_eq!(
        refresh_message(&before, &after, ts(BASE), &utc(), &acme()),
        "No new data — Acme Code last reported at 21:13"
    );
}

#[test]
fn refresh_message_no_new_data_applies_to_a_stale_cache_too() {
    let before = full(SnapshotState::Stale, BASE - 3600, 7.0, 28.0);
    let mut after = before.clone();
    after.state = SnapshotState::Stale;
    assert!(refresh_message(&before, &after, ts(BASE), &utc(), &acme()).starts_with("No new data — "));
}

#[test]
fn refresh_message_for_a_missing_cache_points_at_the_hook() {
    let before = snapshot(SnapshotState::Missing, None);
    let after = snapshot(SnapshotState::Missing, None);
    assert_eq!(
        refresh_message(&before, &after, ts(BASE), &utc(), &acme()),
        "No data — install the statusline hook"
    );
}

#[test]
fn refresh_message_missing_wins_even_if_written_at_changed() {
    // A cache that became unreadable must not be announced as an update.
    let before = full(SnapshotState::Fresh, BASE - 300, 7.0, 28.0);
    let after = snapshot(SnapshotState::Missing, None);
    assert_eq!(
        refresh_message(&before, &after, ts(BASE), &utc(), &acme()),
        "No data — install the statusline hook"
    );
}

#[test]
fn status_message_missing_points_at_the_hook() {
    let s = snapshot(SnapshotState::Missing, None);
    assert_eq!(
        status_message(&s, ts(BASE), &utc()),
        "No usage data — install the statusline hook."
    );
}

#[test]
fn status_message_fresh_with_both_percents() {
    // BASE is 22:13:20 UTC (Tue); +1000s -> 22:30 same day (session);
    // +12h -> Wed 10:13 (weekly), well past `WEEKDAY_FORM_MAX_DAYS`... no,
    // within it, so it takes the weekday form.
    let mut s = snapshot(SnapshotState::Fresh, Some(BASE - 30));
    s.session = Some(metric(Some(32.0), Some(BASE + 1000)));
    s.weekly = Some(metric(Some(33.0), Some(BASE + 12 * 3600)));
    assert_eq!(
        status_message(&s, ts(BASE), &utc()),
        "You've used 32% of your 5-hour session (resets at 22:30) and 33% \
         of your weekly limit (resets Wed 10:13)."
    );
}

#[test]
fn status_message_rounds_percents_like_the_menu_lines() {
    let mut s = snapshot(SnapshotState::Fresh, Some(BASE - 30));
    s.session = Some(metric(Some(32.4), Some(BASE + 1000)));
    s.weekly = Some(metric(Some(32.5), Some(BASE + 1000)));
    assert_eq!(
        status_message(&s, ts(BASE), &utc()),
        "You've used 32% of your 5-hour session (resets at 22:30) and 33% \
         of your weekly limit (resets at 22:30)."
    );
}

#[test]
fn status_message_stale_appends_the_age() {
    let mut s = snapshot(SnapshotState::Stale, Some(BASE - 12 * 3600));
    s.session = Some(metric(Some(32.0), Some(BASE + 1000)));
    s.weekly = Some(metric(Some(33.0), Some(BASE + 12 * 3600)));
    assert_eq!(
        status_message(&s, ts(BASE), &utc()),
        "You've used 32% of your 5-hour session (resets at 22:30) and 33% \
         of your weekly limit (resets Wed 10:13). Last updated 12 h ago."
    );
}

#[test]
fn status_message_stale_without_a_written_at_omits_the_age_clause() {
    let mut s = snapshot(SnapshotState::Stale, None);
    s.session = Some(metric(Some(32.0), None));
    assert_eq!(
        status_message(&s, ts(BASE), &utc()),
        "You've used 32% of your 5-hour session; weekly usage is unknown."
    );
}

#[test]
fn status_message_weekly_missing_says_so() {
    let mut s = snapshot(SnapshotState::Fresh, Some(BASE - 30));
    s.session = Some(metric(Some(32.0), Some(BASE + 1000)));
    assert_eq!(
        status_message(&s, ts(BASE), &utc()),
        "You've used 32% of your 5-hour session (resets at 22:30); weekly \
         usage is unknown."
    );
}

#[test]
fn status_message_session_missing_says_so() {
    let mut s = snapshot(SnapshotState::Fresh, Some(BASE - 30));
    s.weekly = Some(metric(Some(33.0), Some(BASE + 12 * 3600)));
    assert_eq!(
        status_message(&s, ts(BASE), &utc()),
        "You've used 33% of your weekly limit (resets Wed 10:13); session \
         usage is unknown."
    );
}

#[test]
fn status_message_session_percent_absent_counts_as_unknown() {
    // A window present in the cache but with no percentage (an em dash in
    // the menu) is worded the same as no window at all.
    let mut s = snapshot(SnapshotState::Fresh, Some(BASE - 30));
    s.session = Some(metric(None, Some(BASE + 1000)));
    s.weekly = Some(metric(Some(33.0), Some(BASE + 12 * 3600)));
    assert_eq!(
        status_message(&s, ts(BASE), &utc()),
        "You've used 33% of your weekly limit (resets Wed 10:13); session \
         usage is unknown."
    );
}

#[test]
fn status_message_no_metrics_at_all_but_not_missing() {
    // Valid JSON with no `rate_limits` at all (API-key billing): neither
    // window is known, but the hook is demonstrably installed and working.
    let s = snapshot(SnapshotState::Fresh, Some(BASE - 30));
    assert_eq!(status_message(&s, ts(BASE), &utc()), "No usage data reported.");
}

#[test]
fn status_message_reset_without_a_resets_at_omits_the_parenthetical() {
    let mut s = snapshot(SnapshotState::Fresh, Some(BASE - 30));
    s.session = Some(metric(Some(32.0), None));
    s.weekly = Some(metric(Some(33.0), None));
    assert_eq!(
        status_message(&s, ts(BASE), &utc()),
        "You've used 32% of your 5-hour session and 33% of your weekly limit."
    );
}

#[test]
fn settings_use_the_config_interval_when_the_env_is_unset() {
    let settings = Settings::new(
        Config {
            refresh_secs: 30,
            ..Config::default()
        },
        None,
    );
    assert!(!settings.env_locked);
    assert_eq!(settings.interval_handle(), 30);
}

#[test]
fn settings_let_the_env_override_win_and_lock_the_interval() {
    let settings = Settings::new(
        Config {
            refresh_secs: 30,
            ..Config::default()
        },
        Some(2),
    );
    assert!(settings.env_locked);
    assert_eq!(settings.interval_handle(), 2);
}

#[test]
fn ui_snapshot_changed_detects_percent_and_state_changes() {
    let mut a = snapshot(SnapshotState::Fresh, Some(BASE));
    a.session = Some(metric(Some(42.0), Some(BASE + 100)));
    let mut b = a.clone();
    assert!(!snapshot_changed(&a, &b));

    b.session = Some(metric(Some(43.0), Some(BASE + 100)));
    assert!(snapshot_changed(&a, &b));

    let mut c = a.clone();
    c.state = SnapshotState::Stale;
    assert!(snapshot_changed(&a, &c));

    let mut d = a.clone();
    d.written_at = Some(ts(BASE + 5));
    assert!(snapshot_changed(&a, &d));

    let mut e = a.clone();
    e.weekly = Some(metric(Some(1.0), None));
    assert!(snapshot_changed(&a, &e));
}

/// All thresholds on, the shipped default.
fn all_on() -> Notifier {
    Notifier::new(&NOTIFY_THRESHOLDS)
}

#[test]
fn notifier_fires_once_per_enabled_threshold() {
    let mut n = all_on();
    assert_eq!(n.evaluate(Some(&metric(Some(10.0), Some(BASE)))), None);

    let alert = n
        .evaluate(Some(&metric(Some(51.0), Some(BASE))))
        .expect("crossing 50 fires");
    assert_eq!(alert.threshold, 50);
    assert!(!alert.critical);
    // Still above 50, below 75: no repeat.
    assert_eq!(n.evaluate(Some(&metric(Some(60.0), Some(BASE)))), None);

    let alert = n
        .evaluate(Some(&metric(Some(76.0), Some(BASE))))
        .expect("crossing 75 fires");
    assert_eq!(alert.threshold, 75);
    assert!(!alert.critical);
}

#[test]
fn notifier_upper_thresholds_are_critical() {
    let mut n = all_on();
    n.evaluate(Some(&metric(Some(10.0), Some(BASE))));
    for (percent, threshold) in [(91.0, 90), (99.0, 99), (100.0, 100)] {
        let alert = n
            .evaluate(Some(&metric(Some(percent), Some(BASE))))
            .unwrap_or_else(|| panic!("crossing {threshold} fires"));
        assert_eq!(alert.threshold, threshold);
        assert!(alert.critical, "{threshold} must be critical");
    }
}

#[test]
fn notifier_fires_at_exactly_the_threshold() {
    let mut n = all_on();
    n.evaluate(Some(&metric(Some(10.0), Some(BASE)))); // baseline
    let alert = n
        .evaluate(Some(&metric(Some(50.0), Some(BASE))))
        .expect("50.0 counts as reaching 50");
    assert_eq!(alert.threshold, 50);
}

#[test]
fn notifier_jumping_past_several_thresholds_fires_only_the_highest() {
    let mut n = all_on();
    n.evaluate(Some(&metric(Some(10.0), Some(BASE))));
    let alert = n
        .evaluate(Some(&metric(Some(99.5), Some(BASE))))
        .expect("fires");
    assert_eq!(alert.threshold, 99);
    // The ones it flew past must stay quiet while usage stays up there.
    assert_eq!(n.evaluate(Some(&metric(Some(99.6), Some(BASE)))), None);
    assert_eq!(n.evaluate(Some(&metric(Some(91.0), Some(BASE)))), None);
    assert_eq!(n.evaluate(Some(&metric(Some(80.0), Some(BASE)))), None);
}

#[test]
fn ui_notifier_rearms_when_percent_drops_below_threshold() {
    let mut n = all_on();
    n.evaluate(Some(&metric(Some(10.0), Some(BASE))));
    assert!(n.evaluate(Some(&metric(Some(76.0), Some(BASE)))).is_some());
    assert_eq!(n.evaluate(Some(&metric(Some(60.0), Some(BASE)))), None);
    let alert = n
        .evaluate(Some(&metric(Some(77.0), Some(BASE))))
        .expect("re-armed by the drop");
    assert_eq!(alert.threshold, 75);
}

#[test]
fn ui_notifier_rearms_when_window_resets_at_changes() {
    let mut n = all_on();
    n.evaluate(Some(&metric(Some(10.0), Some(BASE))));
    assert!(n.evaluate(Some(&metric(Some(76.0), Some(BASE)))).is_some());
    // New window, still high -> fires again.
    let alert = n
        .evaluate(Some(&metric(Some(76.0), Some(BASE + 18_000))))
        .expect("new window re-arms");
    assert_eq!(alert.threshold, 75);
}

#[test]
fn notifier_treats_small_resets_at_drift_as_the_same_window() {
    // The live bug: a source whose reset time crept forward a few seconds
    // per poll re-fired the same alert every tick.
    let mut n = all_on();
    n.evaluate(Some(&metric(Some(10.0), Some(BASE)))); // baseline
    assert!(n.evaluate(Some(&metric(Some(82.0), Some(BASE)))).is_some());
    for tick in 1..=12 {
        assert_eq!(
            n.evaluate(Some(&metric(Some(82.0), Some(BASE + tick * 5)))),
            None,
            "re-fired after {}s of drift",
            tick * 5
        );
    }
}

#[test]
fn notifier_window_tolerance_is_exactly_sixty_seconds() {
    let mut n = all_on();
    n.evaluate(Some(&metric(Some(10.0), Some(BASE)))); // baseline
    assert!(n.evaluate(Some(&metric(Some(82.0), Some(BASE)))).is_some());
    // Sixty seconds either way is still the same window.
    assert_eq!(n.evaluate(Some(&metric(Some(82.0), Some(BASE + 60)))), None);
    assert_eq!(n.evaluate(Some(&metric(Some(82.0), Some(BASE)))), None);
    assert_eq!(n.evaluate(Some(&metric(Some(82.0), Some(BASE - 60)))), None);
    // A second more is a different window.
    let alert = n
        .evaluate(Some(&metric(Some(82.0), Some(BASE + 61))))
        .expect("past the tolerance, this is a rollover");
    assert_eq!(alert.threshold, 75);
}

#[test]
fn notifier_treats_appearing_and_disappearing_reset_times_as_new_windows() {
    let mut n = all_on();
    n.evaluate(Some(&metric(Some(10.0), Some(BASE)))); // baseline
    assert!(n.evaluate(Some(&metric(Some(82.0), Some(BASE)))).is_some());
    // A reading that lost its reset time is not "the same window".
    assert!(n.evaluate(Some(&metric(Some(82.0), None))).is_some());
    assert_eq!(n.evaluate(Some(&metric(Some(82.0), None))), None);
    assert!(n.evaluate(Some(&metric(Some(82.0), Some(BASE)))).is_some());
}

#[test]
fn notifier_baselines_on_the_first_reading_instead_of_firing() {
    // Restarting the tray at 82% must not re-announce the 75% crossing
    // that happened before it started.
    let mut n = all_on();
    assert_eq!(n.evaluate(Some(&metric(Some(82.0), Some(BASE)))), None);
    // Nor on any later reading that stays inside the same band.
    assert_eq!(n.evaluate(Some(&metric(Some(82.0), Some(BASE)))), None);
    assert_eq!(n.evaluate(Some(&metric(Some(89.9), Some(BASE)))), None);

    // A crossing the tray actually witnesses still fires, and only the
    // one that was crossed.
    let alert = n
        .evaluate(Some(&metric(Some(91.0), Some(BASE))))
        .expect("90 was crossed while watching");
    assert_eq!(alert.threshold, 90);
}

#[test]
fn notifier_baseline_still_re_arms_on_a_drop_and_re_rise() {
    let mut n = all_on();
    assert_eq!(n.evaluate(Some(&metric(Some(82.0), Some(BASE)))), None);
    // Below 75 again: that threshold is armed even though its "crossing"
    // was never announced.
    assert_eq!(n.evaluate(Some(&metric(Some(70.0), Some(BASE)))), None);
    let alert = n
        .evaluate(Some(&metric(Some(76.0), Some(BASE))))
        .expect("a real crossing after the baseline");
    assert_eq!(alert.threshold, 75);
}

#[test]
fn notifier_baselines_off_the_first_real_percentage_not_off_the_absence() {
    // A tray started before the assistant has ever reported: the readings
    // without a percentage must not consume the baseline, or the first
    // real one (already at 82%) would fire.
    let mut n = all_on();
    assert_eq!(n.evaluate(None), None);
    assert_eq!(n.evaluate(Some(&metric(None, None))), None);
    assert_eq!(n.evaluate(Some(&metric(None, Some(BASE)))), None);
    assert_eq!(n.evaluate(Some(&metric(Some(82.0), Some(BASE)))), None);
    // ...and from there it behaves normally.
    let alert = n
        .evaluate(Some(&metric(Some(99.0), Some(BASE))))
        .expect("a witnessed crossing");
    assert_eq!(alert.threshold, 99);
}

#[test]
fn ui_notifier_ignores_missing_data_without_rearming() {
    let mut n = all_on();
    n.evaluate(Some(&metric(Some(10.0), Some(BASE)))); // baseline
    assert!(n.evaluate(Some(&metric(Some(76.0), Some(BASE)))).is_some());
    assert_eq!(n.evaluate(None), None);
    assert_eq!(n.evaluate(Some(&metric(None, Some(BASE)))), None);
    // Data comes back unchanged: must not re-fire.
    assert_eq!(n.evaluate(Some(&metric(Some(76.0), Some(BASE)))), None);
}

#[test]
fn notifier_with_no_thresholds_never_fires() {
    let mut n = Notifier::new(&[]);
    assert_eq!(n.evaluate(Some(&metric(Some(100.0), Some(BASE)))), None);
}

#[test]
fn notifier_skips_disabled_thresholds_and_fires_the_next_enabled_one() {
    // Only 50 and 100 on: passing 76 must stay silent, 100 must not.
    let mut n = Notifier::new(&[50, 100]);
    n.evaluate(Some(&metric(Some(10.0), Some(BASE)))); // baseline
    let alert = n
        .evaluate(Some(&metric(Some(51.0), Some(BASE))))
        .expect("50 is on");
    assert_eq!(alert.threshold, 50);
    assert_eq!(n.evaluate(Some(&metric(Some(91.0), Some(BASE)))), None);
    let alert = n
        .evaluate(Some(&metric(Some(100.0), Some(BASE))))
        .expect("100 is on");
    assert_eq!(alert.threshold, 100);
}

#[test]
fn notifier_reenabling_a_threshold_already_passed_does_not_fire() {
    // The reconfigure edge: 90 is off while usage climbs past it, then the
    // user switches it back on. Nothing happened at 90 that the user asked
    // to hear about, so it must stay silent until a real crossing.
    let mut n = Notifier::new(&[50, 75]);
    n.evaluate(Some(&metric(Some(10.0), Some(BASE))));
    assert!(n.evaluate(Some(&metric(Some(95.0), Some(BASE)))).is_some());

    n.set_enabled(&NOTIFY_THRESHOLDS);
    assert_eq!(n.evaluate(Some(&metric(Some(95.0), Some(BASE)))), None);
    assert_eq!(n.evaluate(Some(&metric(Some(96.0), Some(BASE)))), None);

    // A genuine later crossing of 99 still fires.
    let alert = n
        .evaluate(Some(&metric(Some(99.0), Some(BASE))))
        .expect("99 is a fresh crossing");
    assert_eq!(alert.threshold, 99);
}

#[test]
fn notifier_reenabling_after_a_drop_fires_on_the_next_crossing() {
    let mut n = Notifier::new(&[50, 75]);
    // The startup baseline, which is silent whatever it reads.
    assert_eq!(n.evaluate(Some(&metric(Some(95.0), Some(BASE)))), None);
    n.set_enabled(&NOTIFY_THRESHOLDS);
    // Usage falls back below 90, then climbs again: now it is a crossing
    // the user has asked to hear about.
    assert_eq!(n.evaluate(Some(&metric(Some(80.0), Some(BASE)))), None);
    let alert = n
        .evaluate(Some(&metric(Some(92.0), Some(BASE))))
        .expect("re-armed by the drop");
    assert_eq!(alert.threshold, 90);
}

#[test]
fn notifier_disabling_a_threshold_silences_it_immediately() {
    let mut n = all_on();
    n.evaluate(Some(&metric(Some(10.0), Some(BASE))));
    n.set_enabled(&[100]);
    assert_eq!(n.evaluate(Some(&metric(Some(99.0), Some(BASE)))), None);
}

#[test]
fn ui_alert_text_differs_by_urgency() {
    let warn = UsageAlert {
        threshold: 50,
        percent: percent(51.0),
        critical: false,
    };
    assert_eq!(warn.summary(&acme()), "Acme session usage 51%");
    assert!(warn.body().contains("50%"));

    let crit = UsageAlert {
        threshold: 90,
        percent: percent(91.0),
        critical: true,
    };
    assert_eq!(crit.summary(&acme()), "Acme session usage 91%");
    assert!(crit.body().contains("90%"));

    // 100% is not "close to the limit" — it is the limit.
    let full = UsageAlert {
        threshold: 100,
        percent: percent(100.0),
        critical: true,
    };
    assert_eq!(full.summary(&acme()), "Acme session usage 100%");
    assert!(full.body().contains("fully used"));
}

#[test]
fn reset_notifier_fires_once_when_the_window_it_watched_comes_due() {
    let mut r = ResetNotifier::new();
    let at = ts(BASE + 600);
    assert_eq!(r.evaluate(Some(at), ts(BASE), true), None);
    assert_eq!(r.deadline(), Some(at));

    let alert = r
        .evaluate(Some(at), ts(BASE + 600), true)
        .expect("due at exactly resets_at");
    assert_eq!(alert.at, at);
    assert_eq!(alert.body(), "Session quota reset — fresh 5-hour window");
    assert_eq!(r.deadline(), None);

    // The cache still reports the same (now past) resets_at for as long as
    // the assistant stays idle: never fire twice for it.
    assert_eq!(r.evaluate(Some(at), ts(BASE + 900), true), None);
    assert_eq!(r.evaluate(Some(at), ts(BASE + 20_000), true), None);
}

#[test]
fn reset_notifier_fires_again_for_the_next_window() {
    let mut r = ResetNotifier::new();
    let first = ts(BASE + 600);
    r.evaluate(Some(first), ts(BASE), true);
    assert!(r.evaluate(Some(first), ts(BASE + 600), true).is_some());

    let second = ts(BASE + 18_600);
    assert_eq!(r.evaluate(Some(second), ts(BASE + 700), true), None);
    let alert = r
        .evaluate(Some(second), ts(BASE + 18_600), true)
        .expect("the next window fires too");
    assert_eq!(alert.at, second);
}

#[test]
fn reset_notifier_stays_silent_without_a_resets_at() {
    let mut r = ResetNotifier::new();
    assert_eq!(r.evaluate(None, ts(BASE), true), None);
    assert_eq!(r.evaluate(None, ts(BASE + 100_000), true), None);
    assert_eq!(r.deadline(), None);
}

#[test]
fn reset_notifier_ignores_a_window_that_expired_before_the_tray_saw_it() {
    // Startup against a stale cache: announcing a reset that happened
    // hours ago would be noise.
    let mut r = ResetNotifier::new();
    assert_eq!(r.evaluate(Some(ts(BASE - 3600)), ts(BASE), true), None);
    assert_eq!(r.deadline(), None);
}

#[test]
fn reset_notifier_consumes_the_crossing_while_disabled() {
    let mut r = ResetNotifier::new();
    let at = ts(BASE + 600);
    r.evaluate(Some(at), ts(BASE), false);
    assert_eq!(r.evaluate(Some(at), ts(BASE + 600), false), None);
    // Switching the setting back on must not resurrect the old crossing.
    assert_eq!(r.evaluate(Some(at), ts(BASE + 601), true), None);
}

#[test]
fn reset_notifier_still_fires_if_the_cache_disappears_mid_window() {
    // An idle assistant plus a deleted cache file: the reset is still a
    // fact about the clock, and the pending deadline must be consumed
    // either way — a deadline that stayed due would spin the poll loop.
    let mut r = ResetNotifier::new();
    let at = ts(BASE + 600);
    r.evaluate(Some(at), ts(BASE), true);
    let alert = r
        .evaluate(None, ts(BASE + 600), true)
        .expect("fires from the clock alone");
    assert_eq!(alert.at, at);
    assert_eq!(r.deadline(), None);
    assert_eq!(r.evaluate(None, ts(BASE + 601), true), None);
    assert_eq!(r.deadline(), None);
}

#[test]
fn reset_notifier_consumes_the_deadline_even_when_disabled() {
    let mut r = ResetNotifier::new();
    let at = ts(BASE + 600);
    r.evaluate(Some(at), ts(BASE), false);
    assert_eq!(r.evaluate(None, ts(BASE + 600), false), None);
    assert_eq!(r.deadline(), None);
}

#[test]
fn poll_wait_is_the_interval_when_nothing_is_pending() {
    assert_eq!(poll_wait(60, None, ts(BASE)), 60);
}

#[test]
fn poll_wait_is_clamped_to_a_nearer_reset() {
    assert_eq!(
        poll_wait(60, Some(ts(BASE + 10)), ts(BASE)),
        10
    );
}

#[test]
fn poll_wait_keeps_the_interval_when_the_reset_is_further_out() {
    assert_eq!(
        poll_wait(5, Some(ts(BASE + 4000)), ts(BASE)),
        5
    );
}

#[test]
fn poll_wait_for_a_due_or_past_reset_is_zero() {
    assert_eq!(poll_wait(60, Some(ts(BASE)), ts(BASE)), 0);
    assert_eq!(poll_wait(60, Some(ts(BASE - 90)), ts(BASE)), 0);
}

/// Walks the poll loop's own sequence — evaluate, then wait for
/// `poll_wait` — over a simulated hour with a 60 s interval, checking that
/// the reset lands on time and that the loop never sits in a zero-wait
/// spin.
#[test]
fn simulated_poll_loop_fires_the_reset_on_time_without_spinning() {
    let mut r = ResetNotifier::new();
    let reset_at = BASE + 1_000;
    let mut now = BASE;
    let mut fired_at: Option<i64> = None;
    let mut zero_waits = 0;

    for _ in 0..200 {
        if now > BASE + 3_600 {
            break;
        }
        if let Some(alert) = r.evaluate(Some(ts(reset_at)), ts(now), true) {
            assert_eq!(alert.at, ts(reset_at));
            assert!(fired_at.is_none(), "fired twice");
            fired_at = Some(now);
        }
        let wait = poll_wait(60, r.deadline(), ts(now));
        if wait == 0 {
            zero_waits += 1;
        }
        // A zero wait is only legitimate as the single cycle that
        // consumes a due deadline.
        assert!(zero_waits <= 1, "poll loop spun at {now}");
        now += i64::try_from(wait).unwrap_or(i64::MAX);
        if wait == 0 {
            // The real loop still does a cache read on this pass; time
            // moves on regardless.
            now += 1;
        }
    }

    assert_eq!(fired_at, Some(reset_at), "reset fired late or not at all");
}

#[test]
fn pinned_styles_are_named_for_the_ui_not_for_the_icon() {
    // "mono-dark" = my UI is dark = light icon, and vice versa. The portal
    // value is irrelevant for both, whichever way it points.
    for portal_dark in [true, false] {
        assert_eq!(
            resolve_appearance(IconStyle::MonoDark, portal_dark),
            IconAppearance::Mono { dark_ui: true }
        );
        assert_eq!(
            resolve_appearance(IconStyle::MonoLight, portal_dark),
            IconAppearance::Mono { dark_ui: false }
        );
        assert_eq!(
            resolve_appearance(IconStyle::Color, portal_dark),
            IconAppearance::Color
        );
    }
}

#[test]
fn auto_follows_the_portal() {
    assert_eq!(
        resolve_appearance(IconStyle::MonoAuto, true),
        IconAppearance::Mono { dark_ui: true }
    );
    assert_eq!(
        resolve_appearance(IconStyle::MonoAuto, false),
        IconAppearance::Mono { dark_ui: false }
    );
}

#[test]
fn the_appearance_handle_defaults_to_a_dark_ui_until_the_portal_speaks() {
    let handle = AppearanceHandle::new(IconStyle::MonoAuto);
    assert_eq!(handle.resolved(), IconAppearance::Mono { dark_ui: true });
}

#[test]
fn appearance_changes_report_whether_a_repaint_is_needed() {
    let mut handle = AppearanceHandle::new(IconStyle::Color);
    assert!(!handle.set_style(IconStyle::Color), "no-op selection");
    assert!(handle.set_style(IconStyle::MonoAuto));
    assert_eq!(handle.resolved(), IconAppearance::Mono { dark_ui: true });

    // Under auto, a portal change repaints.
    assert!(handle.set_portal_dark(false));
    assert_eq!(handle.resolved(), IconAppearance::Mono { dark_ui: false });
    assert!(!handle.set_portal_dark(false), "same value again");

    // Two styles that resolve identically need no repaint: auto currently
    // says "light UI", which is exactly what mono-light pins.
    assert!(!handle.set_style(IconStyle::MonoLight));
    // ...and once pinned, the portal no longer moves the icon.
    assert!(!handle.set_portal_dark(true));
    assert_eq!(handle.resolved(), IconAppearance::Mono { dark_ui: false });
}

#[test]
fn the_tray_renders_with_the_configured_style() {
    let mut settings = Settings::new(
        Config {
            icon_style: IconStyle::MonoLight,
            ..Config::default()
        },
        None,
    );
    assert_eq!(
        settings.appearance_handle().resolved(),
        IconAppearance::Mono { dark_ui: false }
    );
}

/// The macOS backend asks the core which appearance it is about to render
/// in, and turns the answer into "is this an AppKit template image". If
/// this ever stopped tracking the setting, the menu bar icon would either
/// lose its colors or stop following the system theme.
#[test]
fn the_core_reports_the_appearance_it_renders_with() {
    for (style, expected) in [
        (IconStyle::Color, IconAppearance::Color),
        (IconStyle::MonoDark, IconAppearance::Mono { dark_ui: true }),
        (IconStyle::MonoLight, IconAppearance::Mono { dark_ui: false }),
    ] {
        let core = core_for(
            timeless(SnapshotState::Fresh),
            Config {
                icon_style: style,
                ..Config::default()
            },
            None,
        );
        assert_eq!(core.appearance(), expected, "{style:?}");
    }
}

#[test]
fn no_update_is_known_until_the_checker_reports_one() {
    // The menu row's presence is exactly "is there something in the slot",
    // so that is what this pins.
    let mut settings = Settings::new(Config::default(), None);
    assert_eq!(settings.update_handle().get(), None);

    let found = Update {
        version: "0.2.0".into(),
        url: "https://example.test/releases/tag/v0.2.0".into(),
    };
    settings.update_handle().set(Some(found.clone()));
    assert_eq!(settings.update.get(), Some(found.clone()));
    assert_eq!(found.label(), "⬆ Update available: v0.2.0");

    // A later check that finds nothing clears the row again.
    settings.update_handle().set(None);
    assert_eq!(settings.update.get(), None);
}

#[test]
fn the_update_check_flag_starts_from_the_config() {
    for enabled in [true, false] {
        let settings = Settings::new(
            Config {
                check_updates: enabled,
                ..Config::default()
            },
            None,
        );
        assert_eq!(
            settings.check_updates_handle(),
            enabled
        );
    }
}

#[test]
fn notify_prefs_are_shared_live_between_the_menu_and_the_poll_loop() {
    let mut settings = Settings::new(Config::default(), None);
    assert_eq!(
        settings.notify_handle().get(),
        NotifyPrefs {
            thresholds: NOTIFY_THRESHOLDS.to_vec(),
            on_reset: true,
        }
    );

    let changed = NotifyPrefs {
        thresholds: vec![100],
        on_reset: false,
    };
    settings.notify.set(changed.clone());
    assert_eq!(settings.notify_handle().get(), changed);
}

/// Everything available: the state a healthy desktop reports.
fn all_available() -> MenuEnv {
    MenuEnv {
        can_persist: true,
        autostart_available: true,
        autostart_enabled: false,
    }
}

/// One row, flattened to something a test can assert on. Separators and
/// radio groups have no label of their own.
fn label_of(row: &MenuRow) -> String {
    match row {
        MenuRow::Info { label }
        | MenuRow::Action { label, .. }
        | MenuRow::Check { label, .. }
        | MenuRow::SubMenu { label, .. } => label.clone(),
        MenuRow::Radio { .. } => "<radio>".to_string(),
        MenuRow::Separator => "---".to_string(),
    }
}

fn labels(rows: &[MenuRow]) -> Vec<String> {
    rows.iter().map(label_of).collect()
}

fn submenu<'a>(rows: &'a [MenuRow], label: &str) -> &'a [MenuRow] {
    rows.iter()
        .find_map(|row| match row {
            MenuRow::SubMenu { label: l, rows } if l == label => Some(rows.as_slice()),
            _ => None,
        })
        .unwrap_or_else(|| panic!("no {label:?} submenu"))
}

#[test]
fn the_menu_opens_with_the_three_info_rows_and_ends_with_the_actions() {
    let core = core_for(timeless(SnapshotState::Fresh), Config::default(), None);
    let rows = core.menu_with(ts(BASE), all_available());
    assert_eq!(
        labels(&rows),
        vec![
            "Session: 42%",
            "Weekly: 61%",
            "Updated 1 min ago",
            "---",
            "Settings",
            "Check for new data",
            "Quit",
        ]
    );
    // The first three are labels, not controls.
    assert!(matches!(rows[0], MenuRow::Info { .. }));
    assert!(matches!(rows[1], MenuRow::Info { .. }));
    assert!(matches!(rows[2], MenuRow::Info { .. }));
    assert_eq!(
        shown(&rows[5]),
        shown(&MenuRow::action("Check for new data".to_string(), MenuAction::Refresh))
    );
    assert_eq!(shown(&rows[6]), shown(&MenuRow::action("Quit".to_string(), MenuAction::Quit)));
}

#[test]
fn the_install_row_appears_only_while_there_is_no_data() {
    for state in [SnapshotState::Fresh, SnapshotState::Stale] {
        let core = core_for(timeless(state.clone()), Config::default(), None);
        let rows = core.menu_with(ts(BASE), all_available());
        assert!(
            !labels(&rows).contains(&"Install hook".to_string()),
            "{state:?} must not offer the install item"
        );
    }

    let core = core_for(
        snapshot(SnapshotState::Missing, None),
        Config::default(),
        None,
    );
    let rows = core.menu_with(ts(BASE), all_available());
    // Directly under the diagnosis row it explains.
    assert_eq!(
        shown(&rows[3]),
        shown(&MenuRow::action("Install hook".to_string(), MenuAction::InstallHook))
    );
}

#[test]
fn the_update_row_appears_once_a_release_is_found() {
    let mut core = core_for(timeless(SnapshotState::Fresh), Config::default(), None);
    assert!(
        !labels(&core.menu_with(ts(BASE), all_available()))
            .iter()
            .any(|label| label.contains("Update available")),
        "nothing to advertise before the checker runs"
    );

    let update = Update {
        version: "0.2.0".into(),
        url: "https://example.test/releases/tag/v0.2.0".into(),
    };
    core.settings.update.set(Some(update.clone()));
    let rows = core.menu_with(ts(BASE), all_available());
    // Between the separator and the `Settings` submenu, and clickable.
    assert_eq!(
        shown(&rows[4]),
        shown(&MenuRow::action(update.label(), MenuAction::OpenUrl(update.url.clone())))
    );
}

#[test]
fn the_settings_submenu_lists_every_control_in_order() {
    let core = core_for(timeless(SnapshotState::Fresh), Config::default(), None);
    let rows = core.menu_with(ts(BASE), all_available());
    assert_eq!(
        labels(submenu(&rows, "Settings")),
        vec![
            "Launch at login",
            "---",
            "Notifications",
            "---",
            "Refresh interval",
            "<radio>",
            "---",
            "Icon style",
            "<radio>",
            "---",
            "Check for updates",
        ]
    );
}

#[test]
fn the_radio_groups_offer_every_choice_and_mark_the_configured_one() {
    let config = Config {
        refresh_secs: REFRESH_CHOICES[1],
        icon_style: IconStyle::MonoLight,
        ..Config::default()
    };
    let core = core_for(timeless(SnapshotState::Fresh), config, None);
    let rows = core.menu_with(ts(BASE), all_available());
    let settings = submenu(&rows, "Settings");

    match &settings[5] {
        MenuRow::Radio {
            group,
            selected,
            options,
        } => {
            assert_eq!(*group, RadioGroup::RefreshInterval);
            assert_eq!(*selected, 1);
            assert_eq!(options.len(), REFRESH_CHOICES.len());
            assert_eq!(options[0].label, format!("{} s", REFRESH_CHOICES[0]));
        }
        other => panic!("expected the interval radio group, got {other:?}"),
    }
    match &settings[8] {
        MenuRow::Radio {
            group,
            selected,
            options,
        } => {
            assert_eq!(*group, RadioGroup::IconStyle);
            assert_eq!(*selected, IconStyle::MonoLight.choice());
            assert_eq!(options.len(), IconStyle::ALL.len());
        }
        other => panic!("expected the icon-style radio group, got {other:?}"),
    }
}

#[test]
fn the_notifications_submenu_mirrors_the_configured_thresholds() {
    let mut config = Config::default();
    config.set_notifies_at(NOTIFY_THRESHOLDS[0], false);
    config.notify_on_reset = false;
    let core = core_for(timeless(SnapshotState::Fresh), config, None);
    let rows = core.menu_with(ts(BASE), all_available());
    let notifications = submenu(submenu(&rows, "Settings"), "Notifications");

    assert_eq!(notifications.len(), NOTIFY_THRESHOLDS.len() + 2);
    assert_eq!(
        shown(&notifications[0]),
        shown(&MenuRow::Check {
            label: format!("At {}%", NOTIFY_THRESHOLDS[0]),
            action: MenuAction::ToggleThreshold(NOTIFY_THRESHOLDS[0]),
            checked: false,
            enabled: true,
        })
    );
    assert_eq!(
        shown(&notifications[1]),
        shown(&MenuRow::Check {
            label: format!("At {}%", NOTIFY_THRESHOLDS[1]),
            action: MenuAction::ToggleThreshold(NOTIFY_THRESHOLDS[1]),
            checked: true,
            enabled: true,
        })
    );
    assert!(matches!(
        notifications[NOTIFY_THRESHOLDS.len()],
        MenuRow::Separator
    ));
    assert_eq!(
        shown(&notifications[NOTIFY_THRESHOLDS.len() + 1]),
        shown(&MenuRow::Check {
            label: "When quota resets".into(),
            action: MenuAction::ToggleNotifyOnReset,
            checked: false,
            enabled: true,
        })
    );
}

#[test]
fn an_unwritable_config_grays_every_persisted_control() {
    let core = core_for(timeless(SnapshotState::Fresh), Config::default(), None);
    let env = MenuEnv {
        can_persist: false,
        autostart_available: true,
        autostart_enabled: true,
    };
    let rows = core.menu_with(ts(BASE), env);
    let settings = submenu(&rows, "Settings");

    // Autostart is a separate capability: it stays usable, and reports the
    // state read from the platform rather than from the config mirror.
    assert_eq!(
        shown(&settings[0]),
        shown(&MenuRow::Check {
            label: "Launch at login".into(),
            action: MenuAction::ToggleLaunchAtLogin,
            checked: true,
            enabled: true,
        })
    );
    for row in [&settings[5], &settings[8]] {
        match row {
            MenuRow::Radio { options, .. } => {
                assert!(options.iter().all(|option| !option.enabled));
            }
            other => panic!("expected a radio group, got {other:?}"),
        }
    }
    for row in submenu(settings, "Notifications") {
        if let MenuRow::Check { enabled, label, .. } = row {
            assert!(!enabled, "{label} should be grayed");
        }
    }
    match &settings[10] {
        MenuRow::Check { label, enabled, .. } => {
            assert_eq!(label, "Check for updates");
            assert!(!enabled);
        }
        other => panic!("expected the update checkbox, got {other:?}"),
    }
}

#[test]
fn an_unavailable_autostart_directory_grays_only_that_checkbox() {
    let core = core_for(timeless(SnapshotState::Fresh), Config::default(), None);
    let env = MenuEnv {
        can_persist: true,
        autostart_available: false,
        autostart_enabled: false,
    };
    let rows = core.menu_with(ts(BASE), env);
    let settings = submenu(&rows, "Settings");
    match &settings[0] {
        MenuRow::Check { enabled, .. } => assert!(!enabled),
        other => panic!("expected the autostart checkbox, got {other:?}"),
    }
    match &settings[10] {
        MenuRow::Check { enabled, .. } => assert!(enabled, "the rest stays usable"),
        other => panic!("expected the update checkbox, got {other:?}"),
    }
}

#[test]
fn the_env_override_note_appears_only_while_the_environment_wins() {
    let core = core_for(timeless(SnapshotState::Fresh), Config::default(), None);
    assert!(
        !labels(submenu(&core.menu_with(ts(BASE), all_available()), "Settings"))
            .iter()
            .any(|label| label.contains("CLAUDE_TRAY_POLL_SECS"))
    );

    let core = core_for(timeless(SnapshotState::Fresh), Config::default(), Some(7));
    let rows = core.menu_with(ts(BASE), all_available());
    let settings = submenu(&rows, "Settings");
    // Right after the icon-style group, before the final separator.
    assert_eq!(
        shown(&settings[9]),
        shown(&MenuRow::info("(CLAUDE_TRAY_POLL_SECS=7 is in effect)".to_string()))
    );
}

#[test]
fn an_age_is_told_in_minutes_hours_or_days() {
    assert_eq!(humanize_age(-61), "-1 min");
    assert_eq!(humanize_age(0), "0 min");
    assert_eq!(humanize_age(3599), "59 min");
    assert_eq!(humanize_age(3600), "1 h");
    assert_eq!(humanize_age(5400), "2 h");
    assert_eq!(humanize_age(172_800), "2 d");
}

#[test]
fn readings_a_minute_apart_are_of_one_window() {
    assert!(same_window(Some(ts(BASE)), Some(ts(BASE + 60))));
    assert!(!same_window(Some(ts(BASE)), Some(ts(BASE + 61))));
    assert!(same_window(None, None));
    assert!(!same_window(None, Some(ts(BASE))));
}

#[test]
fn times_are_told_in_the_zone_of_the_tray() {
    let tz = TimeZone::fixed(jiff::tz::offset(-5));
    // 17:13:20 there, so that two more hours are still the same day.
    assert_eq!(humanize_reset(ts(BASE + 7200), ts(BASE), &tz), "19:13");
    assert_eq!(humanize_reset(ts(BASE + 7200), ts(BASE), &utc()), "Wed 00:13");
}

#[test]
fn a_click_on_the_icon_asks_for_the_status() {
    let core = core_for(timeless(SnapshotState::Fresh), Config::default(), None);
    assert_eq!(core.clicked(), Wake::ShowStatus);
    assert_eq!(
        core.tooltip(ts(BASE)),
        "Session: 42%\nWeekly: 61%\nUpdated 1 min ago"
    );
}

#[test]
fn a_switched_threshold_is_saved_and_announced_and_switches_back() {
    let mut core = core_for(timeless(SnapshotState::Fresh), Config::default(), None);
    let before = core.settings.config.clone();
    let effects = core.activate(&MenuAction::ToggleThreshold(75), false);
    assert_eq!(effects, vec![Effect::Save, Effect::Send(Wake::NotifyChanged)]);
    assert!(!core.settings.config.notifies_at(75));
    assert_eq!(core.settings.notify.get().thresholds, vec![50, 90, 99, 100]);
    core.activate(&MenuAction::ToggleThreshold(75), false);
    assert_eq!(core.settings.config, before);
}

#[test]
fn the_other_switches_are_saved() {
    let mut core = core_for(timeless(SnapshotState::Fresh), Config::default(), None);
    core.activate(&MenuAction::ToggleNotifyOnReset, false);
    assert!(!core.settings.config.notify_on_reset);
    assert!(!core.settings.notify.get().on_reset);
    let effects = core.activate(&MenuAction::ToggleCheckUpdates, false);
    assert_eq!(effects, vec![Effect::Save]);
    assert!(!core.settings.check_updates_handle());
}

#[test]
fn menu_items_tell_the_poll_loop_or_the_world() {
    let mut core = core_for(timeless(SnapshotState::Fresh), Config::default(), None);
    assert_eq!(
        core.activate(&MenuAction::Refresh, false),
        vec![Effect::Send(Wake::Refresh)]
    );
    assert_eq!(
        core.activate(&MenuAction::Quit, false),
        vec![Effect::Send(Wake::Quit)]
    );
    assert_eq!(
        core.activate(&MenuAction::InstallHook, false),
        vec![Effect::Send(Wake::InstallHook)]
    );
    assert_eq!(
        core.activate(&MenuAction::OpenUrl("https://example.test/".to_string()), false),
        vec![Effect::Open("https://example.test/".to_string())]
    );
    assert_eq!(
        core.activate(&MenuAction::ToggleLaunchAtLogin, false),
        vec![Effect::SetAutostart(true)]
    );
    core.settings.restart_handle().set(Some("/opt/tray".to_string()));
    assert_eq!(
        core.activate(&MenuAction::RestartToUpdate, false),
        vec![Effect::Restart("/opt/tray".to_string())]
    );
}

#[test]
fn autostart_is_recorded_only_once_it_was_switched() {
    let mut core = core_for(timeless(SnapshotState::Fresh), Config::default(), None);
    assert!(core.autostart_applied(true, false).is_empty());
    assert!(!core.settings.config.launch_at_login);
    assert_eq!(core.autostart_applied(true, true), vec![Effect::Save]);
    assert!(core.settings.config.launch_at_login);
}

#[test]
fn the_environment_keeps_its_interval_when_another_is_chosen() {
    let mut core = core_for(timeless(SnapshotState::Fresh), Config::default(), Some(7));
    core.select(RadioGroup::RefreshInterval, 3);
    assert_eq!(core.settings.config.refresh_secs, 60);
    assert_eq!(core.settings.interval_handle(), 7);

    let mut core = core_for(timeless(SnapshotState::Fresh), Config::default(), None);
    let effects = core.select(RadioGroup::RefreshInterval, 3);
    assert_eq!(effects, vec![Effect::Save, Effect::Send(Wake::IntervalChanged)]);
    assert_eq!(core.settings.interval_handle(), 60);
}

#[test]
fn a_chosen_icon_style_repaints() {
    let mut core = core_for(timeless(SnapshotState::Fresh), Config::default(), None);
    let index = IconStyle::MonoLight.choice();
    let effects = core.select(RadioGroup::IconStyle, index);
    assert!(effects.contains(&Effect::Send(Wake::AppearanceChanged)));
    assert_eq!(core.appearance(), IconAppearance::Mono { dark_ui: false });
}

#[test]
fn only_another_release_is_news() {
    let found = Update {
        version: "0.2.0".to_string(),
        url: "https://example.test/".to_string(),
    };
    assert!(is_news(&None, &found));
    assert!(!is_news(&Some(found.clone()), &found));
    let other = Update {
        version: "0.3.0".to_string(),
        url: found.url.clone(),
    };
    assert!(is_news(&Some(other), &found));
}
