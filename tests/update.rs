use merger::update::{cmp_semver, latest_release, newer_release, normalise, should_check, ReleaseInfo, UpdateChecker, UpdateError};
use std::cmp::Ordering;
use merger::report::Json;

#[test]
fn new_checker_has_defaults() {
    let c = UpdateChecker::new("Biosurv", "merger", "1.1.1");
    assert_eq!(c.owner, "Biosurv");
    assert_eq!(c.repo, "merger");
    assert_eq!(c.current_version, "1.1.1");
    assert!(!c.check_prereleases);
    assert_eq!(c.min_interval_minutes, 1440);
    assert!(c.github_token.is_none());
    assert_eq!(c.org, "YOUR_ORG");
    let c = c.with_settings_namespace("Biosurv", String::from("merger"));
    assert_eq!(c.org, "Biosurv");
    assert_eq!(c.app, "merger");
    assert_eq!(c.owner, "Biosurv");
}

#[test]
fn release_urls() {
    let mut c = UpdateChecker::new("o", "r", "1.0.0");
    assert_eq!(c.release_url(), "https://api.github.com/repos/o/r/releases/latest");
    c.check_prereleases = true;
    assert_eq!(c.release_url(), "https://api.github.com/repos/o/r/releases");
}

#[test]
fn versions_normalise() {
    assert_eq!(normalise(" v1.2.3 "), "1.2.3");
    assert_eq!(normalise("V01.02-beta"), "1.2");
    assert_eq!(normalise("1.2.3.4"), "1.2.3");
    assert_eq!(normalise("release"), "release");
    assert_eq!(normalise("vv2+build"), "2");
}

#[test]
fn versions_compare_numerically() {
    assert_eq!(cmp_semver("v1.10.0", "1.9.9"), Ordering::Greater);
    assert_eq!(cmp_semver("1.2", "1.2.0"), Ordering::Equal);
    assert_eq!(cmp_semver("1.2.0", "1.2.1"), Ordering::Less);
    assert_eq!(cmp_semver("2", "1.99.99"), Ordering::Greater);
}

#[test]
fn checks_follow_the_interval() {
    assert!(should_check(true, 60, Some(1)));
    assert!(should_check(false, 0, Some(1)));
    assert!(should_check(false, 60, None));
    assert!(should_check(false, 60, Some(60)));
    assert!(!should_check(false, 60, Some(59)));
}

#[test]
fn latest_endpoint_reads_the_object() {
    let body = r#"{"tag_name":"v1.2.0","html_url":"https://example.org/r"}"#;
    let info = latest_release(body, false, &Some("abc".to_string())).unwrap();
    assert_eq!(info.tag, "v1.2.0");
    assert_eq!(info.html_url, "https://example.org/r");
    assert_eq!(info.etag.as_deref(), Some("abc"));
}

#[test]
fn listing_picks_newest_non_draft() {
    let body = r#"[
        {"tag_name":"v3","draft":true,"created_at":"2025-03-01"},
        {"tag_name":"v2a","created_at":"2025-02-01","html_url":"u2a"},
        {"tag_name":"v1","created_at":"2025-01-01"},
        {"tag_name":"v2b","created_at":"2025-02-01"}
    ]"#;
    let info = latest_release(body, true, &None).unwrap();
    assert_eq!(info.tag, "v2a");
    assert_eq!(info.html_url, "u2a");
}

#[test]
fn bad_bodies_are_json_errors() {
    assert!(matches!(latest_release("not json", false, &None), Err(UpdateError::Json(_))));
    assert!(matches!(latest_release("{}", true, &None), Err(UpdateError::Json(_))));
    assert!(matches!(latest_release(r#"[{"draft":true}]"#, true, &None), Err(UpdateError::Json(_))));
}

#[test]
fn only_newer_releases_are_offered() {
    let r = |t: &str| ReleaseInfo { tag: t.to_string(), html_url: String::new(), etag: None };
    assert!(newer_release(r("v1.2.0"), "1.1.1").is_some());
    assert!(newer_release(r("v1.1.1"), "1.1.1").is_none());
    assert!(newer_release(r(""), "0.0.1").is_none());
}

#[test]
fn update_errors_as_text() {
    assert_eq!(UpdateError::Http(404).message(), "http status: 404");
    assert_eq!(UpdateError::Network("down".to_string()).message(), "Network error: down");
}

#[test]
fn release_from_parsed_listing() {
    let entry = |tag: &str, created: &str, draft: bool| {
        Json::Object(vec![
            ("tag_name".to_string(), Json::Str(tag.to_string())),
            ("created_at".to_string(), Json::Str(created.to_string())),
            ("draft".to_string(), Json::Bool(draft)),
        ])
    };
    let listing = Json::Array(vec![entry("a", "2024", false), entry("b", "2026", true), entry("c", "2025", false)]);
    let info = merger::update::release_from_json(&listing, true, &None).unwrap();
    assert_eq!(info.tag, "c");
    assert_eq!(info.html_url, "");
    assert!(merger::update::release_from_json(&listing, false, &None).is_ok());
    assert!(merger::update::release_from_json(&Json::Null, true, &None).is_err());
}
