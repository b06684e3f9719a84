use husako::versions::{
    registry_index_versions,
    artifacthub_versions, git_tags, latest_artifacthub, latest_git_tag, latest_registry,
    latest_release, recent_releases, registry_versions,
};

fn names(v: &[&str]) -> Vec<Option<String>> {
    v.iter().map(|s| Some(s.to_string())).collect()
}

fn available(v: &[(&str, bool)]) -> Vec<(bool, Option<String>)> {
    v.iter().map(|(s, pre)| (*pre, Some(s.to_string()))).collect()
}

#[test]
fn git_tags_multiple() {
    let stdout = "\
abc123\trefs/tags/v2.0.0\n\
def456\trefs/tags/v2.0.0^{}\n\
ghi789\trefs/tags/v1.9.0\n\
jkl012\trefs/tags/v1.9.0^{}\n\
mno345\trefs/tags/v1.8.0-rc.1\n\
pqr678\trefs/tags/v1.8.0-rc.1^{}\n\
stu901\trefs/tags/v1.7.0\n\
vwx234\trefs/tags/v1.7.0^{}\n";
    let tags = git_tags(stdout, 2, 0);
    assert_eq!(tags, vec!["v2.0.0", "v1.9.0"]);
}

#[test]
fn git_tags_all_and_offset() {
    let stdout = "a\trefs/tags/v1.0.0\r\nb\trefs/tags/v3.0.0\nc\trefs/tags/v2.0.0\nbroken line\n";
    assert_eq!(git_tags(stdout, 10, 0), vec!["v3.0.0", "v2.0.0", "v1.0.0"]);
    assert_eq!(git_tags(stdout, 10, 1), vec!["v2.0.0", "v1.0.0"]);
    assert_eq!(git_tags(stdout, 10, 5), Vec::<String>::new());
    assert_eq!(git_tags("", 10, 0), Vec::<String>::new());
}

#[test]
fn latest_git_tag_with_and_without_prefix() {
    let stdout = "x\trefs/tags/v1.2.0\nx\trefs/tags/v1.10.0\nx\trefs/tags/v2.0.0-rc.1\nx\trefs/tags/v1.9.3^{}\n";
    assert_eq!(latest_git_tag(stdout, None), Some("v1.10.0".to_string()));
    assert_eq!(latest_git_tag(stdout, Some("1.9")), Some("v1.9.3".to_string()));
    assert_eq!(latest_git_tag(stdout, Some("v2")), None);
    assert_eq!(latest_git_tag("", None), None);
}

#[test]
fn artifacthub_versions_filters_prerelease() {
    let data = available(&[
        ("3.0.0", false),
        ("3.0.0-rc.1", true),
        ("2.5.0", false),
        ("2.5.0-beta.1", true),
        ("2.4.0", false),
    ]);
    assert_eq!(artifacthub_versions(&data, 10, 0), vec!["3.0.0", "2.5.0", "2.4.0"]);
}

#[test]
fn artifacthub_versions_sorted_descending() {
    let data = available(&[
        ("1.0.0", false),
        ("3.0.0", false),
        ("0.0.0", false),
        ("2.1.0", false),
        ("2.0.0", false),
    ]);
    assert_eq!(
        artifacthub_versions(&data, 10, 0),
        vec!["3.0.0", "2.1.0", "2.0.0", "1.0.0", "0.0.0"]
    );
}

#[test]
fn artifacthub_versions_offset_and_limit() {
    let data = available(&[
        ("5.0.0", false),
        ("4.0.0", false),
        ("3.0.0", false),
        ("2.0.0", false),
        ("1.0.0", false),
    ]);
    assert_eq!(artifacthub_versions(&data, 2, 2), vec!["3.0.0", "2.0.0"]);
}

#[test]
fn artifacthub_versions_skips_invalid_semver() {
    let data = available(&[("2.0.0", false), ("not-a-version", false), ("1.0.0", false)]);
    assert_eq!(artifacthub_versions(&data, 10, 0), vec!["2.0.0", "1.0.0"]);
}

#[test]
fn artifacthub_versions_unflagged_prerelease_is_skipped() {
    let data = available(&[("2.0.0-beta.1", false), ("1.0.0", false)]);
    assert_eq!(artifacthub_versions(&data, 10, 0), vec!["1.0.0"]);
    let missing = vec![(false, None), (false, Some("1.1.0".to_string()))];
    assert_eq!(artifacthub_versions(&missing, 10, 0), vec!["1.1.0"]);
}

#[test]
fn discover_recent_releases_dedupes_minor() {
    let tags = names(&["v1.35.1", "v1.35.0", "v1.34.0"]);
    assert_eq!(recent_releases(&tags, 10, 0), vec!["1.35", "1.34"]);
}

#[test]
fn recent_releases_skips_prereleases_and_pages() {
    let mut tags = names(&["v1.33.2", "v1.36.0-alpha.1", "v1.35.0", "garbage", "v1.34.0"]);
    tags.push(None);
    assert_eq!(recent_releases(&tags, 10, 0), vec!["1.35", "1.34", "1.33"]);
    assert_eq!(recent_releases(&tags, 1, 1), vec!["1.34"]);
    assert_eq!(recent_releases(&tags, 5, 3), Vec::<String>::new());
}

#[test]
fn discover_latest_release_returns_highest() {
    let tags = names(&["v1.35.0-alpha.1", "v1.34.0", "v1.33.0"]);
    assert_eq!(latest_release(&tags), Ok("1.34".to_string()));
}

#[test]
fn latest_release_without_stable_tags() {
    let tags = names(&["v1.35.0-alpha.1", "nightly"]);
    assert_eq!(latest_release(&tags), Err("no stable release tags found".to_string()));
}

#[test]
fn discover_latest_artifacthub_extracts_version() {
    let data = available(&[("16.4.0", false)]);
    let v = latest_artifacthub(&data, Some("16.4.0".to_string()), "bitnami/postgresql", None);
    assert_eq!(v, Ok("16.4.0".to_string()));
}

#[test]
fn discover_latest_artifacthub_missing_version_field() {
    let err = latest_artifacthub(&Vec::new(), None, "bitnami/postgresql", None).unwrap_err();
    assert!(err.contains("no version field"));
    assert_eq!(err, "no version field in ArtifactHub response for 'bitnami/postgresql'");
}

#[test]
fn latest_artifacthub_with_prefix() {
    let data = available(&[("15.0.1", false), ("16.4.0", false), ("16.2.0", false), ("17.0.0", false)]);
    let v = latest_artifacthub(&data, Some("17.0.0".to_string()), "bitnami/postgresql", Some("16"));
    assert_eq!(v, Ok("16.4.0".to_string()));
    let none = latest_artifacthub(&data, None, "bitnami/postgresql", Some("18"));
    assert_eq!(none, Err("no versions matching '18' for 'bitnami/postgresql'".to_string()));
}

#[test]
fn discover_registry_versions_filters_prerelease_and_sorts() {
    let entries = names(&["1.0.0-beta.1", "2.0.0", "1.0.0", "3.0.0"]);
    let v = registry_versions(Some(&entries), "my-chart", 10, 0);
    assert_eq!(v, Ok(vec!["3.0.0".to_string(), "2.0.0".to_string(), "1.0.0".to_string()]));
}

#[test]
fn discover_registry_versions_applies_offset_and_limit() {
    let entries = names(&["5.0.0", "4.0.0", "3.0.0", "2.0.0", "1.0.0"]);
    let v = registry_versions(Some(&entries), "my-chart", 2, 1);
    assert_eq!(v, Ok(vec!["4.0.0".to_string(), "3.0.0".to_string()]));
}

#[test]
fn discover_registry_versions_chart_not_found() {
    let err = registry_versions(None, "my-chart", 10, 0).unwrap_err();
    assert!(err.contains("not found"));
    assert_eq!(err, "chart 'my-chart' not found in registry index");
}

#[test]
fn discover_latest_registry_returns_highest_stable() {
    let entries = names(&["1.0.0-rc.1", "2.0.0", "1.5.0"]);
    assert_eq!(latest_registry(Some(&entries), "my-chart", None), Ok("2.0.0".to_string()));
}

#[test]
fn discover_latest_registry_all_prerelease_returns_error() {
    let entries = names(&["1.0.0-alpha.1", "2.0.0-beta.1"]);
    let err = latest_registry(Some(&entries), "my-chart", None).unwrap_err();
    assert!(err.contains("no versions found"));
    assert_eq!(err, "no versions found for chart 'my-chart'");
}

#[test]
fn latest_registry_with_prefix() {
    let entries = names(&["v16.1.0", "16.4.0", "17.0.0", "16.10.2"]);
    assert_eq!(
        latest_registry(Some(&entries), "pg", Some("16")),
        Ok("16.10.2".to_string())
    );
    assert_eq!(
        latest_registry(Some(&entries), "pg", Some("18")),
        Err("no versions matching '18' found for chart 'pg'".to_string())
    );
    assert_eq!(
        latest_registry(None, "pg", Some("18")),
        Err("chart 'pg' not found in registry index".to_string())
    );
}

#[test]
fn build_metadata_orders_equal_versions() {
    // semver orders 1.0.0+b after 1.0.0+a, so newest first puts +b first
    let v = artifacthub_versions(&available(&[("1.0.0+a", false), ("1.0.0+b", false), ("0.9.0", false)]), 10, 0);
    assert_eq!(v, vec!["1.0.0+b", "1.0.0+a", "0.9.0"]);
    let r = registry_versions(Some(&names(&["1.0.0+a", "1.0.0+b"])), "c", 10, 0).unwrap();
    assert_eq!(r, vec!["1.0.0+b", "1.0.0+a"]);
    let latest = latest_registry(Some(&names(&["1.0.0+b", "1.0.0+a"])), "c", None).unwrap();
    assert_eq!(latest, "1.0.0+b");
    let latest = latest_registry(Some(&names(&["1.0.0+a", "1.0.0+b"])), "c", None).unwrap();
    assert_eq!(latest, "1.0.0+b");
    // equal versions keep their order
    let r = registry_versions(Some(&names(&["2.0.0", "1.0.0", "1.0.0"])), "c", 10, 0).unwrap();
    assert_eq!(r, vec!["2.0.0", "1.0.0", "1.0.0"]);
}

#[test]
fn registry_index_lists_chart_versions() {
    let index = "apiVersion: v1\nentries:\n  nginx:\n    - version: 1.2.0\n    - name: x\n    - version: 1.1.0\n";
    let v = registry_index_versions(index, "nginx").unwrap().unwrap();
    assert_eq!(v, vec![Some("1.2.0".to_string()), None, Some("1.1.0".to_string())]);
    assert_eq!(registry_index_versions(index, "redis").unwrap(), None);
    let err = registry_index_versions("entries: [unclosed", "nginx").unwrap_err();
    assert!(err.starts_with("parse registry index: "));
}
