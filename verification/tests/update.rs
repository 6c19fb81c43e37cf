use haut_network_guard::update::{
    compare_versions, has_update, update_result, ReleaseInfo, UpdateCheckResult, CURRENT_VERSION,
    RELEASES_URL, UPDATE_TIMEOUT_SECS, USER_AGENT,
};

fn release(tag: &str) -> ReleaseInfo {
    ReleaseInfo {
        tag_name: tag.to_string(),
        name: String::from("release"),
        body: String::from("notes"),
        html_url: String::from("https://example.invalid/release"),
    }
}

fn reference_compare(latest: &str, current: &str) -> bool {
    let parse = |v: &str| -> Vec<u32> { v.split('.').filter_map(|s| s.parse().ok()).collect() };
    parse(latest) > parse(current)
}

#[test]
fn constants() {
    assert_eq!(CURRENT_VERSION, "1.2.3");
    assert_eq!(
        RELEASES_URL,
        "https://api.github.com/repos/yellowpeachxgp/HAUTNetworkGuard/releases/latest"
    );
    assert_eq!(USER_AGENT, "HAUTNetworkGuard");
    assert_eq!(UPDATE_TIMEOUT_SECS, 15);
}

#[test]
fn versions_exact() {
    assert!(compare_versions("1.2.4", "1.2.3"));
    assert!(!compare_versions("1.2.3", "1.2.3"));
    assert!(!compare_versions("1.2.2", "1.2.3"));
    assert!(compare_versions("1.10.0", "1.9.9"));
    assert!(compare_versions("2", "1.9.9"));
    assert!(compare_versions("1.2.3.0", "1.2.3"));
    assert!(!compare_versions("1.2", "1.2.0"));
    assert!(!compare_versions("", "1.2.3"));
    assert!(compare_versions("0", ""));
    assert!(!compare_versions("", ""));
}

#[test]
fn fields_that_are_no_numbers_are_left_out() {
    // "v1" is no number, so the numbers are 2 and 4.
    assert!(compare_versions("v1.2.4", "1.2.3"));
    assert!(compare_versions("1.x.5", "1.4"));
    assert!(!compare_versions("1.4294967296.0", "1.0.1"));
    assert!(compare_versions("1.4294967295", "1.4294967294"));
    assert!(compare_versions("+2", "1"));
}

#[test]
fn versions_agree_with_the_standard_functions() {
    let samples = ["", "1", "1.2", "1.2.3", "1.2.4", "1.10", "1.9", "v1.2.3", "1..3", "a.b.c",
        "1.2.3-beta", "01.002.3", "+1.2", "4294967295", "4294967296", "1.2.3.", ".1", "0", "0.0"];
    for latest in samples {
        for current in samples {
            assert_eq!(compare_versions(latest, current), reference_compare(latest, current));
        }
    }
}

#[test]
fn update_is_found_for_a_newer_tag() {
    let (newer, info) = has_update(Some(release("v1.2.4")));
    assert!(newer);
    assert_eq!(info.tag_name, "v1.2.4");
    assert_eq!(info.name, "release");
    assert_eq!(info.body, "notes");
    assert_eq!(info.html_url, "https://example.invalid/release");
    assert!(has_update(Some(release("vv2.0"))).0);
    assert!(has_update(Some(release("1.3"))).0);
}

#[test]
fn no_update_for_the_same_or_an_older_tag() {
    assert!(!has_update(Some(release("v1.2.3"))).0);
    assert!(!has_update(Some(release("v1.2.2"))).0);
    assert!(!has_update(Some(release("v"))).0);
    assert!(!has_update(Some(release(""))).0);
    // Only the beginning is stripped: "1v" is no number, so the numbers are 9 and 9.
    assert!(has_update(Some(release("1v.9.9"))).0);
    assert!(!has_update(Some(release("1v.0.9"))).0);
}

#[test]
fn no_release_is_no_update() {
    let (newer, info) = has_update(None);
    assert!(!newer);
    assert_eq!(info.tag_name, "");
    assert_eq!(info.name, "");
    assert_eq!(info.body, "");
    assert_eq!(info.html_url, "");
}

#[test]
fn default_release_is_empty() {
    let info = ReleaseInfo::default();
    assert_eq!(info.tag_name, "");
    assert_eq!(info.name, "");
    assert_eq!(info.body, "");
    assert_eq!(info.html_url, "");
}

#[test]
fn check_outcomes() {
    match update_result(Some(release("v9.0.0"))) {
        UpdateCheckResult::HasUpdate(info) => assert_eq!(info.tag_name, "v9.0.0"),
        _ => panic!("a newer release is an update"),
    }
    match update_result(Some(release("v1.2.3"))) {
        UpdateCheckResult::NoUpdate(info) => assert_eq!(info.tag_name, "v1.2.3"),
        _ => panic!("the same release is no update"),
    }
    match update_result(None) {
        UpdateCheckResult::Error(message) => {
            assert_eq!(message, "\u{65e0}\u{6cd5}\u{83b7}\u{53d6}\u{7248}\u{672c}\u{4fe1}\u{606f}")
        }
        _ => panic!("no release is an error"),
    }
}
