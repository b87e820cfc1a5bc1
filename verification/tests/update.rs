//! Release checks: what a reply says, and which version is newer.

use usage_tray::checker::{
    first_action, next_action, CheckAction, CheckEvent, FIRST_UPDATE_CHECK_DELAY_SECS,
    UPDATE_CHECK_INTERVAL_SECS,
};
use usage_tray::update::{
    check, current_version, is_newer, numeric_triple, parse_release_json, update_from, Update,
};

#[test]
fn parses_a_release_body_and_strips_the_v() {
    let body = r#"{
        "tag_name": "v0.2.0",
        "html_url": "https://github.com/o/r/releases/tag/v0.2.0",
        "name": "0.2.0",
        "assets": []
    }"#;
    assert_eq!(
        parse_release_json(body),
        Some((
            "0.2.0".to_string(),
            "https://github.com/o/r/releases/tag/v0.2.0".to_string()
        ))
    );
}

#[test]
fn parses_a_tag_without_the_v_prefix() {
    let body = r#"{"tag_name": "1.4.2", "html_url": "https://example.test/r"}"#;
    assert_eq!(
        parse_release_json(body),
        Some(("1.4.2".to_string(), "https://example.test/r".to_string()))
    );
}

#[test]
fn missing_fields_are_none() {
    assert_eq!(
        parse_release_json(r#"{"html_url": "https://x.test"}"#),
        None
    );
    assert_eq!(parse_release_json(r#"{"tag_name": "v1.0.0"}"#), None);
    assert_eq!(parse_release_json("{}"), None);
    // GitHub's own error shape for a repo with no releases yet.
    assert_eq!(parse_release_json(r#"{"message": "Not Found"}"#), None);
}

#[test]
fn wrong_typed_or_empty_fields_are_none() {
    assert_eq!(
        parse_release_json(r#"{"tag_name": 2, "html_url": "https://x.test"}"#),
        None
    );
    assert_eq!(
        parse_release_json(r#"{"tag_name": "v1.0.0", "html_url": null}"#),
        None
    );
    assert_eq!(
        parse_release_json(r#"{"tag_name": "", "html_url": "https://x.test"}"#),
        None
    );
    // A tag that is *only* the prefix leaves nothing to compare.
    assert_eq!(
        parse_release_json(r#"{"tag_name": "v", "html_url": "https://x.test"}"#),
        None
    );
}

#[test]
fn garbage_bodies_are_none() {
    for body in [
        "",
        "not json at all",
        "<html><body>502 Bad Gateway</body></html>",
        "[]",
        "null",
        r#"{"tag_name": "v1.0.0", "html_url": "https://x.test""#, // truncated
    ] {
        assert_eq!(parse_release_json(body), None, "body: {body}");
    }
}

#[test]
fn equal_versions_are_not_newer() {
    assert!(!is_newer("0.1.0", "0.1.0"));
    assert!(!is_newer("1.2.3", "1.2.3"));
}

#[test]
fn newer_patch_minor_and_major_are_newer() {
    assert!(is_newer("0.1.1", "0.1.0"));
    assert!(is_newer("0.2.0", "0.1.9"));
    assert!(is_newer("1.0.0", "0.99.99"));
}

#[test]
fn older_patch_minor_and_major_are_not_newer() {
    assert!(!is_newer("0.1.0", "0.1.1"));
    assert!(!is_newer("0.1.9", "0.2.0"));
    assert!(!is_newer("0.99.99", "1.0.0"));
}

#[test]
fn components_compare_numerically_not_lexically() {
    // The classic: "10" sorts before "9" as text.
    assert!(is_newer("0.10.0", "0.9.0"));
    assert!(!is_newer("0.9.0", "0.10.0"));
    assert!(!is_newer("2.0.0", "10.0.0"));
}

#[test]
fn a_v_prefix_on_either_side_is_tolerated() {
    assert!(is_newer("v0.2.0", "0.1.0"));
    assert!(is_newer("0.2.0", "v0.1.0"));
    assert!(!is_newer("v0.1.0", "v0.1.0"));
}

#[test]
fn missing_components_count_as_zero() {
    assert!(!is_newer("1", "1.0.0"));
    assert!(!is_newer("1.0", "1.0.0"));
    assert!(is_newer("1.1", "1.0.9"));
    assert!(is_newer("2", "1.9.9"));
}

#[test]
fn a_prerelease_tag_is_judged_on_its_numbers_alone() {
    // Numerically ahead: an upcoming release worth pointing at.
    assert!(is_newer("0.2.0-rc.1", "0.1.0"));
    assert!(is_newer("v1.0.0-beta", "0.9.4"));
    // Numerically equal: not newer, so somebody running the prerelease is
    // not nagged to "update" to the same numbers.
    assert!(!is_newer("0.1.0-rc.1", "0.1.0"));
    assert!(!is_newer("0.1.0", "0.1.0-rc.1"));
    // Numerically behind stays behind.
    assert!(!is_newer("0.1.0-rc.1", "0.2.0"));
}

#[test]
fn non_numeric_versions_never_count_as_newer() {
    for (latest, current) in [
        ("latest", "0.1.0"),
        ("nightly", "0.1.0"),
        ("0.x.0", "0.1.0"),
        ("1.2.3.beta", "0.1.0"),
        ("", "0.1.0"),
        ("v", "0.1.0"),
        ("-rc.1", "0.1.0"),
        ("0.2.0", "garbage"),
        ("9999.0.0", ""),
    ] {
        assert!(!is_newer(latest, current), "{latest} vs {current}");
    }
}

#[test]
fn a_fourth_component_is_accepted_but_does_not_reorder() {
    assert!(!is_newer("1.2.3.4", "1.2.3"));
    assert!(is_newer("1.2.4.0", "1.2.3.9"));
}

#[test]
fn the_current_version_is_something_this_code_can_compare() {
    // A build whose own version cannot be parsed would silently disable
    // the whole feature, so pin the invariant here rather than finding out
    // from a user who never sees an update.
    assert!(numeric_triple(current_version()).is_some());
}

#[test]
fn the_menu_label_reads_as_a_version() {
    let update = Update {
        version: "0.2.0".into(),
        url: "https://example.test".into(),
    };
    assert_eq!(update.label(), "⬆ Update available: v0.2.0");
}

#[test]
fn only_a_newer_release_is_an_update() {
    let body = r#"{"tag_name": "v99.0.0", "html_url": "https://example.test/r"}"#;
    assert_eq!(
        check(Some(body)),
        Some(Update {
            version: "99.0.0".to_string(),
            url: "https://example.test/r".to_string(),
        })
    );
    let body = r#"{"tag_name": "v0.0.1", "html_url": "https://example.test/r"}"#;
    assert_eq!(check(Some(body)), None);
    assert_eq!(check(None), None);
    assert_eq!(update_from("0.0.1".to_string(), "u".to_string()), None);
}

#[test]
fn a_version_is_compared_by_three_numbers() {
    assert_eq!(numeric_triple("v1.2.3-rc.1"), Some((1, 2, 3)));
    assert_eq!(numeric_triple("1"), Some((1, 0, 0)));
    assert_eq!(numeric_triple("x"), None);
}

// The checker

fn told(version: &str) -> Option<String> {
    Some(format!(
        "{{\"tag_name\":\"v{version}\",\"html_url\":\"https://example.com/{version}\"}}"
    ))
}

fn release(version: &str) -> Update {
    Update {
        version: version.to_string(),
        url: format!("https://example.com/{version}"),
    }
}

#[test]
fn no_request_is_made_with_the_setting_off() {
    assert_eq!(first_action(), CheckAction::Sleep(FIRST_UPDATE_CHECK_DELAY_SECS));
    assert_eq!(
        next_action(CheckEvent::Woke { enabled: false }),
        CheckAction::Sleep(UPDATE_CHECK_INTERVAL_SECS)
    );
    assert_eq!(next_action(CheckEvent::Woke { enabled: true }), CheckAction::Fetch);
}

#[test]
fn an_update_is_announced_once() {
    let sleep = CheckAction::Sleep(UPDATE_CHECK_INTERVAL_SECS);
    let answered = |version: &str, shown: Option<Update>| {
        next_action(CheckEvent::Answered {
            reply: told(version),
            shown,
        })
    };
    assert_eq!(answered("99.0.0", None), CheckAction::Announce(release("99.0.0")));
    assert_eq!(answered("99.0.0", Some(release("99.0.0"))), sleep);
    assert_eq!(
        answered("99.1.0", Some(release("99.0.0"))),
        CheckAction::Announce(release("99.1.0"))
    );
    assert_eq!(answered("0.0.1", None), sleep);
    assert_eq!(
        next_action(CheckEvent::Answered {
            reply: None,
            shown: None
        }),
        sleep
    );
    assert_eq!(next_action(CheckEvent::Told { delivered: true }), sleep);
    assert_eq!(next_action(CheckEvent::Told { delivered: false }), CheckAction::Stop);
}
