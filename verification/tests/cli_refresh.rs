//! When the usage record is refreshed.

use usage_tray::cli_refresh::{after_refresh_look, should_refresh, RefreshStep, REFRESH_LOOKS};
use usage_tray::time::Timestamp;
use usage_tray::wrapped::Look;

fn ts(secs: i64) -> Timestamp {
    Timestamp::from_second(secs).expect("valid timestamp")
}

const NOW: i64 = 1_700_000_000;

#[test]
fn disabled_never_refreshes() {
    assert!(!should_refresh(false, None, None, ts(NOW)));
}

#[test]
fn no_blob_and_never_attempted_refreshes() {
    assert!(should_refresh(true, None, None, ts(NOW)));
}

#[test]
fn a_fresh_blob_does_not_refresh() {
    assert!(!should_refresh(true, Some(ts(NOW - 600)), None, ts(NOW)));
}

#[test]
fn a_blob_older_than_an_hour_refreshes() {
    assert!(should_refresh(true, Some(ts(NOW - 3601)), None, ts(NOW)));
}

#[test]
fn a_recent_attempt_blocks_retry_even_with_an_old_blob() {
    assert!(!should_refresh(
        true,
        Some(ts(NOW - 7200)),
        Some(ts(NOW - 120)),
        ts(NOW)
    ));
}

#[test]
fn an_old_attempt_allows_another_try() {
    assert!(should_refresh(
        true,
        Some(ts(NOW - 7200)),
        Some(ts(NOW - 3601)),
        ts(NOW)
    ));
}

#[test]
fn a_future_dated_blob_counts_as_fresh_not_negative_age() {
    assert!(!should_refresh(true, Some(ts(NOW + 600)), None, ts(NOW)));
}

#[test]
fn an_hour_exactly_is_not_yet_long_ago() {
    assert!(!should_refresh(true, Some(ts(NOW - 3600)), None, ts(NOW)));
}

#[test]
fn a_hung_refresh_is_killed_after_two_minutes_of_looks() {
    assert_eq!(REFRESH_LOOKS, 120);
    for (looks, seen, next) in [
        (1, Look::Running, RefreshStep::WaitThenLook),
        (119, Look::Running, RefreshStep::WaitThenLook),
        (120, Look::Running, RefreshStep::WaitThenKill),
        (120, Look::Exited, RefreshStep::Finish),
        (1, Look::Failed, RefreshStep::Finish),
    ] {
        assert_eq!(after_refresh_look(looks, seen), next, "{looks}");
    }
}
