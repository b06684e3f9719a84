use husako::config::ConfigError;
use husako::debug::{debug_project, ProjectFacts};

fn facts() -> ProjectFacts {
    ProjectFacts {
        config: Some(Ok(())),
        types_exist: true,
        type_file_count: 12,
        tsconfig: Some(r#"{"compilerOptions": {"paths": {"husako": ["x"]}}}"#.to_string()),
        config_newer_than_types: false,
        cache_size: 100,
    }
}

#[test]
fn debug_healthy_project() {
    let r = debug_project(&facts());
    assert_eq!(r.config_ok, Some(true));
    assert!(r.tsconfig_ok);
    assert!(r.tsconfig_has_paths);
    assert!(!r.stale);
    assert_eq!(r.type_file_count, 12);
    assert!(r.issues.is_empty());
    assert!(r.suggestions.is_empty());
}

#[test]
fn debug_missing_config() {
    let f = ProjectFacts {
        config: None,
        types_exist: false,
        type_file_count: 5,
        tsconfig: None,
        config_newer_than_types: true,
        cache_size: 0,
    };
    let r = debug_project(&f);
    assert_eq!(r.config_ok, None);
    assert!(!r.types_exist);
    assert_eq!(r.type_file_count, 0);
    assert!(!r.stale);
    assert_eq!(
        r.issues,
        vec![
            "husako.toml not found".to_string(),
            ".husako/types/ directory not found".to_string(),
            "tsconfig.json not found".to_string(),
        ]
    );
    assert_eq!(r.suggestions[0], "Run 'husako init' to initialize a project");
    assert_eq!(r.suggestions.len(), 3);
}

#[test]
fn debug_reports_parse_error_and_stale_types() {
    let mut f = facts();
    f.config = Some(Err(ConfigError::Parse("bad".to_string())));
    f.config_newer_than_types = true;
    let r = debug_project(&f);
    assert_eq!(r.config_ok, Some(false));
    assert!(r.stale);
    assert_eq!(
        r.issues,
        vec![
            "husako.toml parse error: failed to parse husako.toml: bad".to_string(),
            "Types may be stale (husako.toml newer than .husako/types/)".to_string(),
        ]
    );
    assert_eq!(r.suggestions, vec!["Run 'husako generate' to update".to_string()]);
}

#[test]
fn debug_reads_jsonc_tsconfig() {
    let mut f = facts();
    f.tsconfig = Some(
        "{\n  // comment\n  \"compilerOptions\": { \"paths\": { \"k8s/*\": [\"a\"], }, },\n}".to_string(),
    );
    let r = debug_project(&f);
    assert!(r.tsconfig_ok);
    assert!(r.tsconfig_has_paths);

    f.tsconfig = Some("{\"compilerOptions\": {}}".to_string());
    let r = debug_project(&f);
    assert!(r.tsconfig_ok);
    assert!(!r.tsconfig_has_paths);
    assert_eq!(r.issues, vec!["tsconfig.json is missing husako path mappings".to_string()]);

    f.tsconfig = Some("{ not json".to_string());
    let r = debug_project(&f);
    assert!(!r.tsconfig_ok);
    assert_eq!(r.issues, vec!["tsconfig.json could not be parsed".to_string()]);
    assert!(r.suggestions.is_empty());
}
