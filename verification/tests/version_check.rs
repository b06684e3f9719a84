use husako::version_check::{
    artifacthub_page, percent_encode, version_matches_prefix, versions_match, ArtifactHubPackage,
    ArtifactHubRepo, ARTIFACTHUB_PAGE_SIZE,
};

#[test]
fn artifacthub_has_more_detection() {
    // Simulate 21 results → has_more = true
    let packages: Vec<ArtifactHubPackage> = (0..21)
        .map(|i| ArtifactHubPackage {
            name: format!("pkg-{i}"),
            version: "1.0.0".to_string(),
            description: None,
            repository: ArtifactHubRepo {
                name: "org".to_string(),
            },
        })
        .collect();
    let has_more = packages.len() > ARTIFACTHUB_PAGE_SIZE;
    assert!(has_more);
    assert!(artifacthub_page(packages).has_more);

    // Simulate 15 results → has_more = false
    let packages: Vec<ArtifactHubPackage> = (0..15)
        .map(|i| ArtifactHubPackage {
            name: format!("pkg-{i}"),
            version: "1.0.0".to_string(),
            description: None,
            repository: ArtifactHubRepo {
                name: "org".to_string(),
            },
        })
        .collect();
    let has_more = packages.len() > ARTIFACTHUB_PAGE_SIZE;
    assert!(!has_more);
    assert!(!artifacthub_page(packages).has_more);
}

#[test]
fn artifacthub_display_formatting() {
    let pkg = ArtifactHubPackage {
        name: "postgresql".to_string(),
        version: "16.4.0".to_string(),
        description: Some("A very long description that should be truncated when displayed in the selection prompt for the user".to_string()),
        repository: ArtifactHubRepo {
            name: "bitnami".to_string(),
        },
    };
    let package_id = format!("{}/{}", pkg.repository.name, pkg.name);
    assert_eq!(package_id, "bitnami/postgresql");

    // Truncate description at 50 chars
    let desc = pkg.description.as_deref().unwrap_or("");
    let truncated = if desc.len() > 50 {
        format!("{}...", &desc[..50])
    } else {
        desc.to_string()
    };
    assert!(truncated.ends_with("..."));
    assert!(truncated.len() <= 53);
}

#[test]
fn version_matches_prefix_major() {
    assert!(version_matches_prefix("16.4.0", "16"));
    assert!(version_matches_prefix("16.0.0", "16"));
    assert!(!version_matches_prefix("17.0.0", "16"));
    assert!(!version_matches_prefix("6.0.0", "16"));
}

#[test]
fn version_matches_prefix_minor() {
    assert!(version_matches_prefix("16.4.0", "16.4"));
    assert!(version_matches_prefix("16.4.1", "16.4"));
    assert!(!version_matches_prefix("16.5.0", "16.4"));
}

#[test]
fn version_matches_prefix_full() {
    assert!(version_matches_prefix("16.4.0", "16.4.0"));
    assert!(!version_matches_prefix("16.4.1", "16.4.0"));
}

#[test]
fn version_matches_prefix_v_optional() {
    assert!(version_matches_prefix("v16.4.0", "16"));
    assert!(version_matches_prefix("16.4.0", "v16"));
    assert!(version_matches_prefix("v16.4.0", "v16.4"));
}

#[test]
fn versions_match_exact() {
    assert!(versions_match("1.35", "1.35"));
    assert!(versions_match("v1.17.2", "v1.17.2"));
}

#[test]
fn versions_match_prefix() {
    assert!(versions_match("1.35", "1.35.0"));
    assert!(versions_match("1.35", "1.35.1"));
}

#[test]
fn versions_no_match() {
    assert!(!versions_match("1.35", "1.36"));
    assert!(!versions_match("v1.17.2", "v1.18.0"));
}

#[test]
fn versions_match_v_prefix_stripped() {
    // v-prefix is stripped before comparison
    assert!(versions_match("v1.35.0", "1.35.0"));
    assert!(versions_match("1.35.0", "v1.35.0"));
    assert!(versions_match("v1.17.2", "v1.17.2"));
    assert!(!versions_match("v1.35.0", "v1.36.0"));
}

#[test]
fn percent_encode_safe_chars_unchanged() {
    assert_eq!(percent_encode("abc"), "abc");
    assert_eq!(percent_encode("ABC"), "ABC");
    assert_eq!(percent_encode("0123456789"), "0123456789");
    assert_eq!(percent_encode("-_.~"), "-_.~");
}

#[test]
fn percent_encode_special_chars() {
    assert_eq!(percent_encode(" "), "%20");
    assert_eq!(percent_encode("/"), "%2F");
    assert_eq!(percent_encode(":"), "%3A");
    assert_eq!(percent_encode("a b/c:d"), "a%20b%2Fc%3Ad");
}


fn package(name: &str, version: &str) -> ArtifactHubPackage {
    ArtifactHubPackage {
        name: name.to_string(),
        version: version.to_string(),
        description: None,
        repository: ArtifactHubRepo { name: "bitnami".to_string() },
    }
}

#[test]
fn search_artifacthub_returns_packages() {
    // the packages of the search answer, as deserialized
    let result = artifacthub_page(vec![package("postgresql", "16.4.0"), package("redis", "20.0.0")]);
    assert_eq!(result.packages.len(), 2);
    assert_eq!(result.packages[0].name, "postgresql");
    assert!(!result.has_more);
}

#[test]
fn search_artifacthub_empty_result() {
    let result = artifacthub_page(Vec::new());
    assert!(result.packages.is_empty());
    assert!(!result.has_more);
}

#[test]
fn versions_match_needs_a_dot_after_the_current() {
    assert!(!versions_match("1.3", "1.35"));
    assert!(!versions_match("1.35", "1.350"));
    assert!(!versions_match("1", "10.0.0"));
    assert!(versions_match("1.35", "1.35.2"));
    assert!(versions_match("v1.35", "1.35"));
    assert!(versions_match("1", "1.2.3"));
}

#[test]
fn percent_encoding_uses_only_safe_characters() {
    let e = percent_encode("é a/b~");
    assert_eq!(e, "%C3%A9%20a%2Fb~");
    // two bytes of é and the space and slash take three characters each
    assert_eq!(e.len(), 3 * 4 + 3);
    assert!(e.chars().all(|c| c == '%' || c.is_ascii_alphanumeric() || "-_.~".contains(c)));
}
