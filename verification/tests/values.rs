//! Percentages, times, documents, texts, paths and icons.

use jiff::tz::TimeZone;
use usage_tray::icon::{
    band_color, extract_percent, foreground, plan_icon, premultiplied_rgba_to_argb_be, scale_alpha,
    IconAppearance, IconImage, IconPlan,
};
use usage_tray::json::JsonNumber;
use usage_tray::paths::{contains_path, file_name, is_absolute, join, same_path};
use usage_tray::percent::Percent;
use usage_tray::source::{parse_statusline_json, Metric, SnapshotState, UsageSnapshot};
use usage_tray::text::{int_text, parse_unsigned, split, strip_first, trim};
use usage_tray::time::{civil_at, count_days, Timestamp};

fn percent(value: f64) -> Percent {
    Percent::from_bits(value.to_bits()).expect("finite")
}

fn ts(secs: i64) -> Timestamp {
    Timestamp::from_second(secs).expect("valid timestamp")
}

#[test]
fn percentages_round_half_away_from_zero() {
    for (value, text) in [
        (0.0, "0"),
        (0.4999999999999999, "0"),
        (0.5, "1"),
        (32.5, "33"),
        (99.4, "99"),
        (100.0, "100"),
        (-0.4, "-0"),
        (-0.5, "-1"),
        (-2.5, "-3"),
        (5e-324, "0"),
        (4503599627370495.5, "4503599627370496"),
    ] {
        assert_eq!(percent(value).rounded_text(), text, "{value}");
        assert_eq!(format!("{}", value.round()), text, "{value}");
    }
}

#[test]
fn large_percentages_are_shown_by_the_shortest_number() {
    for (value, text) in [
        (1e15, "1000000000000000"),
        (9007199254740993.0, "9007199254740992"),
        (18014398509481984.0, "18014398509481984"),
        (1e23, "100000000000000000000000"),
        (-1e23, "-100000000000000000000000"),
        (9.5e22, "95000000000000000000000"),
    ] {
        assert_eq!(percent(value).rounded_text(), text, "{value}");
    }
    let mut cases: Vec<f64> = vec![f64::MAX, f64::MIN_POSITIVE, 9007199254740992.0, 1.8e19];
    for power in 50..1023 {
        let value = 2f64.powi(power);
        cases.push(value);
        cases.push(f64::from_bits(value.to_bits() - 1));
        cases.push(f64::from_bits(value.to_bits() + 1));
    }
    for power in 15..308 {
        let value: f64 = format!("1e{power}").parse().expect("a number");
        cases.push(value);
        cases.push(f64::from_bits(value.to_bits() - 1));
        cases.push(f64::from_bits(value.to_bits() + 1));
    }
    let mut seed: u64 = 1;
    for _ in 0..2000 {
        seed = seed.wrapping_mul(6364136223846793005).wrapping_add(1442695040888963407);
        let value = f64::from_bits(seed);
        if value.is_finite() {
            cases.push(value);
        }
        // Close above the largest doubles that are all of the integers.
        cases.push((seed >> 4) as f64);
    }
    for value in cases {
        assert_eq!(percent(value).rounded_text(), format!("{}", value.round()));
    }
}

#[test]
fn only_finite_numbers_are_percentages() {
    assert_eq!(Percent::from_bits(f64::NAN.to_bits()), None);
    assert_eq!(Percent::from_bits(f64::INFINITY.to_bits()), None);
    assert_eq!(percent(12.5).to_bits(), 12.5f64.to_bits());
    assert!(percent(-0.0).same(percent(0.0)));
    assert!(percent(-0.0).is_zero());
    assert!(Percent::hundred().same(percent(100.0)));
}

#[test]
fn thresholds_are_reached_at_their_value() {
    assert!(percent(80.0).at_least(80));
    assert!(!percent(79.99999999999999).at_least(80));
    assert!(!percent(-1.0).at_least(0));
    assert!(percent(1e300).at_least(255));
}

#[test]
fn integers_become_the_nearest_double() {
    for n in [0u64, 1, 42, (1 << 53) - 1, (1 << 53) + 1, (1 << 53) + 3, u64::MAX] {
        let found = Percent::from_number(JsonNumber::PosInt(n)).expect("finite");
        assert_eq!(found.to_bits(), (n as f64).to_bits(), "{n}");
    }
    let found = Percent::from_number(JsonNumber::NegInt(i64::MIN)).expect("finite");
    assert_eq!(found.to_bits(), (i64::MIN as f64).to_bits());
}

#[test]
fn a_document_keeps_the_last_of_two_equal_keys() {
    let body = r#"{"rate_limits": {"five_hour": {"used_percentage": 1, "used_percentage": 2}}}"#;
    let limits = parse_statusline_json(body, ts(0)).expect("json");
    assert_eq!(limits.session.expect("session").percent, Some(percent(2.0)));
}

#[test]
fn local_fields_follow_the_zone() {
    let tz = TimeZone::fixed(jiff::tz::offset(9));
    // 2023-11-14 22:13:20 UTC is the next morning there.
    let civil = civil_at(ts(1_700_000_000), &tz);
    assert_eq!((civil.year, civil.month, civil.day), (2023, 11, 15));
    assert_eq!((civil.hour, civil.minute), (7, 13));
    let utc = civil_at(ts(1_700_000_000), &TimeZone::UTC);
    assert_eq!(count_days(civil) - count_days(utc), 1);
}

#[test]
fn timestamps_have_limits() {
    assert_eq!(Timestamp::from_second(253402207201), None);
    assert_eq!(Timestamp::from_second(-377705023202), None);
    assert!(ts(1).before(ts(2)));
    assert!(!ts(2).before(ts(2)));
    let at = Timestamp::from_millisecond(-1).expect("valid");
    assert!(at.before(ts(0)));
    assert!(ts(-1).before(at));
}

#[test]
fn texts_are_trimmed_split_and_read() {
    assert_eq!(trim("\t a b \n"), "a b");
    assert_eq!(split("a,,b", ','), vec!["a", "", "b"]);
    assert_eq!(strip_first("vv1", 'v'), "v1");
    assert_eq!(int_text(i64::MIN), i64::MIN.to_string());
    assert_eq!(parse_unsigned("18446744073709551615"), Some(u64::MAX));
    assert_eq!(parse_unsigned("18446744073709551616"), None);
    assert_eq!(parse_unsigned("+7"), "+7".parse().ok());
    assert_eq!(parse_unsigned("+"), None);
}

#[test]
fn paths_are_compared_by_their_components() {
    assert!(same_path("/a//b/./c/", "/a/b/c"));
    assert!(!same_path("a/b", "/a/b"));
    assert!(!same_path("./a", "a"));
    assert_eq!(join("/a", "b"), "/a/b");
    assert_eq!(join("/a/", "b"), "/a/b");
    assert_eq!(join("/a", "/b"), "/b");
    assert_eq!(file_name("/a/b/"), Some("b".to_string()));
    assert_eq!(file_name("/a/.."), None);
    assert!(is_absolute("/a"));
    assert!(contains_path(&vec!["/a/".to_string()], "/a"));
}

fn snapshot(state: SnapshotState, session: Option<f64>, weekly: Option<f64>) -> UsageSnapshot {
    UsageSnapshot {
        session: Some(Metric {
            percent: session.map(percent),
            resets_at: None,
        }),
        weekly: Some(Metric {
            percent: weekly.map(percent),
            resets_at: None,
        }),
        state,
        ..UsageSnapshot::default()
    }
}

#[test]
fn band_color_boundaries() {
    assert_eq!(band_color(percent(59.0)), (67, 160, 71));
    assert_eq!(band_color(percent(60.0)), (255, 179, 0));
    assert_eq!(band_color(percent(79.0)), (255, 179, 0));
    assert_eq!(band_color(percent(80.0)), (251, 140, 0));
    assert_eq!(band_color(percent(94.0)), (251, 140, 0));
    assert_eq!(band_color(percent(95.0)), (211, 47, 47));
    assert_eq!(band_color(percent(96.0)), (211, 47, 47));
}

#[test]
fn an_icon_is_planned_from_the_state() {
    assert_eq!(plan_icon(&UsageSnapshot::missing()), IconPlan::Missing);
    for (state, dimmed) in [(SnapshotState::Fresh, false), (SnapshotState::Stale, true)] {
        assert_eq!(
            plan_icon(&snapshot(state, Some(70.0), None)),
            IconPlan::Gauge {
                session: percent(70.0),
                weekly: percent(0.0),
                dimmed
            }
        );
    }
    assert_eq!(extract_percent(None), Percent::zero());
}

#[test]
fn dimming_lowers_every_channel_alike() {
    let data = [200u8, 100, 50, 200, 0, 0, 0, 255];
    let dimmed = scale_alpha(&data);
    assert_eq!(dimmed.len(), data.len());
    for (before, after) in data.iter().zip(&dimmed) {
        assert!(after <= before);
    }
    for pixel in dimmed.chunks_exact(4) {
        assert!(pixel[..3].iter().all(|channel| *channel <= pixel[3]));
    }
    assert!(dimmed[7] < 255);
}

#[test]
fn pixels_are_put_into_the_order_of_the_tray() {
    let argb = premultiplied_rgba_to_argb_be(&[10, 20, 30, 255, 0, 0, 0, 0]);
    assert_eq!(argb, vec![255, 10, 20, 30, 0, 0, 0, 0]);
    let image = IconImage {
        width: 2,
        height: 1,
        data: argb,
    };
    assert_eq!(image.to_rgba(), vec![10, 20, 30, 255, 0, 0, 0, 0]);
}

#[test]
fn the_foreground_follows_the_appearance() {
    let high = percent(99.0);
    assert_eq!(foreground(high, IconAppearance::Color), (211, 47, 47));
    assert_eq!(foreground(high, IconAppearance::Mono { dark_ui: true }), (255, 255, 255));
    assert_eq!(foreground(high, IconAppearance::Mono { dark_ui: false }), (0, 0, 0));
}
