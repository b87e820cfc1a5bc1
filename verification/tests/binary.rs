//! The watch on the running program's file, and the path that is recorded for
//! it.

use usage_tray::binary::{link_candidates, stable_path, BinaryIdentity, BinaryWatch};

fn file(ino: u64, mtime_secs: i64) -> Option<BinaryIdentity> {
    Some(BinaryIdentity {
        dev: 1,
        ino,
        mtime_secs,
        mtime_nanos: 0,
    })
}

/// The recorded path where only the links in `leading` lead to `exe`.
fn recorded(exe: &str, leading: &[&str]) -> String {
    let leads: Vec<bool> = link_candidates(exe)
        .iter()
        .map(|link| leading.contains(&link.as_str()))
        .collect();
    stable_path(exe, &leads)
}

#[test]
fn an_unchanged_file_is_never_reported() {
    let mut watch = BinaryWatch::new("/opt/tray".to_string(), file(1, 10));
    for _ in 0..5 {
        assert!(!watch.check(file(1, 10)), "nothing was installed");
    }
    assert!(!watch.swapped());
}

#[test]
fn replacing_the_file_is_detected_once() {
    let mut watch = BinaryWatch::new("/opt/tray".to_string(), file(1, 10));
    assert!(!watch.check(file(1, 10)));

    assert!(watch.check(file(2, 20)), "the replacement must be detected");
    assert!(watch.swapped());
    assert!(!watch.check(file(2, 20)), "the same swap must not be reported twice");
    assert!(!watch.check(file(3, 30)), "a second swap adds nothing to say");
}

#[test]
fn rewriting_the_same_inode_is_detected_through_mtime() {
    let mut watch = BinaryWatch::new("/opt/tray".to_string(), file(1, 10));
    assert!(
        watch.check(file(1, 1_000_000_000)),
        "an in-place rewrite is still a new binary"
    );
}

#[test]
fn a_momentarily_missing_file_is_not_a_swap() {
    let mut watch = BinaryWatch::new("/opt/tray".to_string(), file(1, 10));
    assert!(!watch.check(None), "a gap is not an upgrade");
    assert!(!watch.check(None));
    assert!(watch.check(file(2, 20)), "the replacement is what gets reported");
}

#[test]
fn a_path_that_only_appears_later_becomes_the_baseline() {
    let mut watch = BinaryWatch::new("/opt/tray".to_string(), None);
    assert!(!watch.check(None), "still nothing there");
    assert!(!watch.check(file(1, 10)), "the first sighting is the baseline");
    assert!(watch.check(file(2, 20)), "the change after that is real");
}

#[test]
fn the_watch_remembers_the_path_it_was_given() {
    let watch = BinaryWatch::new("/tmp/binary-path/tray".to_string(), None);
    assert_eq!(watch.path(), "/tmp/binary-path/tray");
}

#[test]
fn a_formula_binary_maps_to_the_prefix_bin_link() {
    let exe = "/brew/Cellar/tray/1.0.3/bin/tray";
    assert_eq!(recorded(exe, &["/brew/bin/tray"]), "/brew/bin/tray");
}

#[test]
fn a_cask_binary_maps_to_the_prefix_bin_link() {
    let exe = "/brew/Caskroom/tray/1.0.3/tray";
    assert_eq!(recorded(exe, &["/brew/bin/tray"]), "/brew/bin/tray");
}

#[test]
fn a_formula_without_a_bin_link_falls_back_to_opt() {
    let exe = "/brew/Cellar/tray/1.0.3/bin/tray";
    assert_eq!(
        recorded(exe, &["/brew/opt/tray/bin/tray"]),
        "/brew/opt/tray/bin/tray"
    );
}

#[test]
fn a_link_to_another_version_is_not_used() {
    let exe = "/brew/Cellar/tray/1.0.3/bin/tray";
    assert_eq!(recorded(exe, &[]), exe);
}

#[test]
fn a_binary_outside_homebrew_is_left_alone() {
    assert!(link_candidates("/opt/tray").is_empty());
    assert_eq!(recorded("/opt/tray", &[]), "/opt/tray");
}
