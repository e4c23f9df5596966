use basalt::update::{
    build_info_document_from_json, commit_from_release_body, is_newer_build, normalized_commit,
    parse_version_parts, release_info_from_json, version_from_tag, BasaltBuildInfo, JsonField,
};
use basalt::autoconfig::profile_listing_from_json;

#[test]
fn newer_build_uses_commit_difference_before_numeric_build_time() {
    let current = BasaltBuildInfo {
        version: "0.1.0".to_string(),
        commit: "abc1234".to_string(),
        build_time: "200".to_string(),
    };
    let latest_same_commit = BasaltBuildInfo {
        version: "0.1.0".to_string(),
        commit: "abc1234".to_string(),
        build_time: "300".to_string(),
    };
    let latest_new_commit_older_build_time = BasaltBuildInfo {
        version: "0.1.0".to_string(),
        commit: "def5678".to_string(),
        build_time: "100".to_string(),
    };

    assert!(!is_newer_build(&current, &latest_same_commit));
    assert!(is_newer_build(
        &current,
        &latest_new_commit_older_build_time
    ));
}

#[test]
fn newer_build_uses_commit_difference_when_build_times_are_not_numeric() {
    let current = BasaltBuildInfo {
        version: "0.1.0".to_string(),
        commit: "abc1234".to_string(),
        build_time: "older".to_string(),
    };
    let latest = BasaltBuildInfo {
        version: "0.1.0".to_string(),
        commit: "def5678".to_string(),
        build_time: "newer".to_string(),
    };

    assert!(is_newer_build(&current, &latest));
}

#[test]
fn newer_build_uses_numeric_build_time_when_commit_data_is_missing() {
    let current = BasaltBuildInfo {
        version: "0.1.0".to_string(),
        commit: String::new(),
        build_time: "100".to_string(),
    };
    let latest = BasaltBuildInfo {
        version: "0.1.0".to_string(),
        commit: String::new(),
        build_time: "200".to_string(),
    };

    assert!(is_newer_build(&current, &latest));
}

#[test]
fn newer_build_ignores_version_when_release_is_not_newer() {
    let current = BasaltBuildInfo {
        version: "0.1.0".to_string(),
        commit: String::new(),
        build_time: "200".to_string(),
    };
    let latest = BasaltBuildInfo {
        version: "0.2.0".to_string(),
        commit: String::new(),
        build_time: "100".to_string(),
    };

    assert!(!is_newer_build(&current, &latest));
}

#[test]
fn newer_build_offers_update_for_unknown_current_metadata() {
    let current = BasaltBuildInfo {
        version: "0.1.0".to_string(),
        commit: "unknown".to_string(),
        build_time: "unknown".to_string(),
    };
    let latest = BasaltBuildInfo {
        version: "0.1.0".to_string(),
        commit: "def5678".to_string(),
        build_time: "200".to_string(),
    };

    assert!(is_newer_build(&current, &latest));
}

#[test]
fn a_build_is_not_newer_than_itself() {
    let build = BasaltBuildInfo {
        version: "1.0.0".to_string(),
        commit: "abc".to_string(),
        build_time: "5".to_string(),
    };
    assert!(!is_newer_build(&build, &build.clone()));
}

#[test]
fn short_commit_ids_match_their_long_form() {
    let current = BasaltBuildInfo {
        version: "1.0.0".to_string(),
        commit: "abc1234".to_string(),
        build_time: "1".to_string(),
    };
    let latest = BasaltBuildInfo {
        version: "1.0.0".to_string(),
        commit: "abc1234def".to_string(),
        build_time: "2".to_string(),
    };
    assert!(!is_newer_build(&current, &latest));
    assert_eq!(normalized_commit("  Unknown "), "");
}

#[test]
fn versions_are_read_from_tags() {
    assert_eq!(version_from_tag("v1.2.3"), Some("1.2.3".to_string()));
    assert_eq!(parse_version_parts("1.2.3"), Some(vec![1, 2, 3]));
    assert_eq!(parse_version_parts("1.x"), None);
}

#[test]
fn commit_is_read_from_release_body() {
    let body = "Release notes\nCommit: abc123\n";
    assert_eq!(commit_from_release_body(body), Some("abc123".to_string()));
    assert_eq!(commit_from_release_body("nothing here"), None);
}

#[test]
fn release_metadata_is_read_from_json() {
    let info = release_info_from_json(
        r#"{"name": "Basalt 1.2", "tag_name": "v1.2.0", "body": "commit: abc", "published_at": 7,
           "assets": [{"name": "basalt.deb", "browser_download_url": "https://x/basalt.deb"}, {"name": 3}]}"#,
    )
    .unwrap();
    assert_eq!(info.name.as_deref(), Some("Basalt 1.2"));
    assert_eq!(info.tag_name.as_deref(), Some("v1.2.0"));
    assert_eq!(info.html_url, None);
    assert_eq!(info.published_at, None);
    let assets = info.assets.unwrap();
    assert_eq!(assets.len(), 2);
    assert_eq!(assets[0].name.as_deref(), Some("basalt.deb"));
    assert_eq!(assets[0].browser_download_url.as_deref(), Some("https://x/basalt.deb"));
    assert_eq!(assets[1].name, None);
    let no_assets = release_info_from_json(r#"{"assets": {}}"#).unwrap();
    assert!(no_assets.assets.is_none());
    let err = release_info_from_json("oops").err().unwrap();
    assert!(err.starts_with("Failed to parse update response: "));
}

#[test]
fn build_info_document_is_read_from_json() {
    let doc = build_info_document_from_json(
        r#"{"version": "1.2.0", "commit": "abc", "built_at_unix": 1700000000, "built_at": -4}"#,
    )
    .unwrap();
    assert_eq!(doc.version.as_deref(), Some("1.2.0"));
    assert_eq!(doc.commit.as_deref(), Some("abc"));
    assert!(matches!(doc.built_at_unix, JsonField::Unsigned(1700000000)));
    assert!(matches!(doc.built_at, JsonField::Other));
    let doc = build_info_document_from_json(r#"{"built_at": "2024-01-01", "built_at_unix": 1.5}"#).unwrap();
    assert!(matches!(doc.built_at, JsonField::Text(ref s) if s == "2024-01-01"));
    assert!(matches!(doc.built_at_unix, JsonField::Other));
    assert!(matches!(doc.version, None));
    assert!(build_info_document_from_json("{").is_none());
}

#[test]
fn profile_listing_is_read_from_json() {
    let list = profile_listing_from_json(
        r#"[{"name": "Xbox One.cfg", "download_url": "https://x/a.cfg"}, {"name": "Pad.cfg", "download_url": null}, 4]"#,
    )
    .unwrap();
    assert_eq!(list.len(), 3);
    assert_eq!(list[0].name.as_deref(), Some("Xbox One.cfg"));
    assert_eq!(list[0].download_url.as_deref(), Some("https://x/a.cfg"));
    assert_eq!(list[1].download_url, None);
    assert_eq!(list[2].name, None);
    assert_eq!(
        profile_listing_from_json(r#"{"a": 1}"#).err(),
        Some("Joypad profile listing has unexpected format".to_string())
    );
    assert!(profile_listing_from_json("[").err().unwrap().starts_with("Failed to parse joypad profile list: "));
}
