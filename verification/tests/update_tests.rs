use labalaba::update::{
    is_newer, should_announce, strip_v_prefix, update_check_pause_secs, update_info_from_release,
};

#[test]
fn newer_latest_is_update() {
    assert!(is_newer("1.0.3", "1.0.2"));
    assert!(is_newer("2.0.0", "1.9.9"));
    assert!(is_newer("1.1.0", "1.0.9"));
}

#[test]
fn older_latest_is_not_update() {
    assert!(!is_newer("1.0.1", "1.0.2"));
    assert!(!is_newer("0.9.0", "1.0.0"));
}

#[test]
fn equal_version_is_not_update() {
    assert!(!is_newer("1.0.2", "1.0.2"));
}

#[test]
fn prerelease_is_older_than_release() {
    // A pre-release of the same version is NOT newer than the release.
    assert!(!is_newer("1.0.2-rc.1", "1.0.2"));
    // But a pre-release of a higher version still counts.
    assert!(is_newer("1.1.0-rc.1", "1.0.2"));
}

#[test]
fn garbage_tag_is_not_update() {
    assert!(!is_newer("not-a-version", "1.0.2"));
    assert!(!is_newer("latest", "1.0.2"));
    assert!(!is_newer("", "1.0.2"));
}

#[test]
fn unparseable_current_is_not_update() {
    assert!(!is_newer("9.9.9", "dev"));
}

#[test]
fn release_tag_loses_its_v() {
    assert_eq!(strip_v_prefix("v1.2.3"), "1.2.3");
    assert_eq!(strip_v_prefix("vv2.0.0"), "2.0.0");
    assert_eq!(strip_v_prefix("1.0.0"), "1.0.0");
    let info = update_info_from_release(
        "v1.4.0",
        "https://example.invalid/r".to_string(),
        Some("notes".to_string()),
        "1.3.9",
    );
    assert!(info.available);
    assert_eq!(info.current_version, "1.3.9");
    assert_eq!(info.latest_version.as_deref(), Some("1.4.0"));
    assert_eq!(info.release_url.as_deref(), Some("https://example.invalid/r"));
    assert_eq!(info.release_notes.as_deref(), Some("notes"));
    let same = update_info_from_release("v1.3.9", String::new(), None, "1.3.9");
    assert!(!same.available);
}

#[test]
fn background_check_pause_is_at_least_an_hour() {
    assert_eq!(update_check_pause_secs(0), 3600);
    assert_eq!(update_check_pause_secs(1), 3600);
    assert_eq!(update_check_pause_secs(24), 86_400);
}

#[test]
fn only_a_new_version_is_announced() {
    assert!(should_announce(&Some("1.1.0".to_string()), &None));
    assert!(!should_announce(&Some("1.1.0".to_string()), &Some("1.1.0".to_string())));
    assert!(should_announce(&Some("1.2.0".to_string()), &Some("1.1.0".to_string())));
    assert!(!should_announce(&None, &None));
}

#[test]
fn newer_is_asymmetric() {
    for (a, b) in [("1.0.3", "1.0.2"), ("1.1.0-rc.1", "1.0.2"), ("1.0.0", "1.0.0-alpha"), ("1.0.0+b1", "1.0.0")] {
        assert!(is_newer(a, b), "{a} > {b}");
        assert!(!is_newer(b, a), "{b} > {a}");
    }
}
