use husako::url_detect::{detect_git_kind, detect_local_kind, PathFacts, SourceKind};
use husako::url_detect::{detect_url, UrlDetected};

// --- detect_url ---

#[test]
fn detect_artifacthub() {
    assert_eq!(
        detect_url("bitnami/postgresql"),
        Some(UrlDetected::ArtifactHub {
            package: "bitnami/postgresql".to_string()
        })
    );
}

#[test]
fn detect_oci() {
    assert_eq!(
        detect_url("oci://ghcr.io/bitnami/postgresql"),
        Some(UrlDetected::Oci {
            reference: "oci://ghcr.io/bitnami/postgresql".to_string()
        })
    );
}

#[test]
fn detect_git_simple() {
    assert_eq!(
        detect_url("https://github.com/cert-manager/cert-manager"),
        Some(UrlDetected::Git {
            repo: "https://github.com/cert-manager/cert-manager".to_string(),
            sub_path: None,
            branch: None,
        })
    );
}

#[test]
fn detect_git_with_path() {
    assert_eq!(
        detect_url("https://github.com/cert-manager/cert-manager/deploy/crds"),
        Some(UrlDetected::Git {
            repo: "https://github.com/cert-manager/cert-manager".to_string(),
            sub_path: Some("deploy/crds".to_string()),
            branch: None,
        })
    );
}

#[test]
fn detect_git_tree_branch_path() {
    assert_eq!(
        detect_url("https://github.com/cert-manager/cert-manager/tree/master/deploy/crds"),
        Some(UrlDetected::Git {
            repo: "https://github.com/cert-manager/cert-manager".to_string(),
            sub_path: Some("deploy/crds".to_string()),
            branch: Some("master".to_string()),
        })
    );
}

#[test]
fn detect_git_tree_branch_no_path() {
    assert_eq!(
        detect_url("https://github.com/cert-manager/cert-manager/tree/main"),
        Some(UrlDetected::Git {
            repo: "https://github.com/cert-manager/cert-manager".to_string(),
            sub_path: None,
            branch: Some("main".to_string()),
        })
    );
}

#[test]
fn detect_helm_registry() {
    assert_eq!(
        detect_url("https://charts.jetstack.io"),
        Some(UrlDetected::HelmRegistry {
            repo: "https://charts.jetstack.io".to_string()
        })
    );
}

#[test]
fn detect_local_relative() {
    assert_eq!(
        detect_url("./crds/my-crd.yaml"),
        Some(UrlDetected::LocalPath {
            path: "./crds/my-crd.yaml".to_string()
        })
    );
}

#[test]
fn detect_local_absolute() {
    assert_eq!(
        detect_url("/abs/path/crd.yaml"),
        Some(UrlDetected::LocalPath {
            path: "/abs/path/crd.yaml".to_string()
        })
    );
}

#[test]
fn detect_none_for_bare_word() {
    assert_eq!(detect_url("foo"), None);
}

#[test]
fn detect_none_for_version_string() {
    assert_eq!(detect_url("1.35"), None);
    assert_eq!(detect_url("v1.35"), None);
}

#[test]
fn detect_none_for_single_segment() {
    assert_eq!(detect_url("postgresql"), None);
}

#[test]
fn artifacthub_rejects_uppercase() {
    assert_eq!(detect_url("Bitnami/postgresql"), None);
}

#[test]
fn artifacthub_rejects_multiple_slashes() {
    assert_eq!(detect_url("bitnami/postgresql/extra"), None);
}

#[test]
fn detect_gitlab() {
    assert_eq!(
        detect_url("https://gitlab.com/org/repo"),
        Some(UrlDetected::Git {
            repo: "https://gitlab.com/org/repo".to_string(),
            sub_path: None,
            branch: None,
        })
    );
}

fn file(content: &str, is_json: bool) -> PathFacts {
    PathFacts::File { content: Ok(content.to_string()), is_json }
}

#[test]
fn local_kind_of_files() {
    let crd = "apiVersion: apiextensions.k8s.io/v1\nkind: CustomResourceDefinition\n";
    assert_eq!(detect_local_kind("crd.yaml", &file(crd, false)), Ok(SourceKind::Resource));
    let schema = "{\"$schema\": \"http://json-schema.org/draft-07/schema#\"}";
    assert_eq!(detect_local_kind("values.schema.json", &file(schema, true)), Ok(SourceKind::Chart));
    assert_eq!(
        detect_local_kind("notes.txt", &file("hello", false)),
        Err("could not determine if 'notes.txt' is a CRD or a Helm values schema".to_string())
    );
    let unreadable = PathFacts::File { content: Err("denied".to_string()), is_json: false };
    assert_eq!(
        detect_local_kind("x.yaml", &unreadable),
        Err("could not read x.yaml: denied".to_string())
    );
}

#[test]
fn local_kind_of_directories() {
    let chart = PathFacts::Dir { has_chart_yaml: true, yaml_files: Ok(Vec::new()) };
    assert_eq!(detect_local_kind("./chart", &chart), Ok(SourceKind::Chart));
    let crds = PathFacts::Dir {
        has_chart_yaml: false,
        yaml_files: Ok(vec!["a: 1".to_string(), "kind: CustomResourceDefinition".to_string()]),
    };
    assert_eq!(detect_local_kind("./crds", &crds), Ok(SourceKind::Resource));
    let empty = PathFacts::Dir { has_chart_yaml: false, yaml_files: Ok(Vec::new()) };
    assert!(detect_local_kind("./empty", &empty).is_err());
    assert!(detect_local_kind("./nothing", &PathFacts::Missing).is_err());
}

#[test]
fn git_kind_detection() {
    let chart = PathFacts::Dir { has_chart_yaml: true, yaml_files: Ok(Vec::new()) };
    assert_eq!(detect_git_kind("charts/x", "/tmp/c/charts/x", &chart), Ok(SourceKind::Chart));
    let schema = file("{\"$schema\": \"x\"}", true);
    assert_eq!(detect_git_kind("values.schema.json", "/tmp/c/v", &schema), Ok(SourceKind::Chart));
    let schema_not_json = file("{\"$schema\": \"x\"}", false);
    assert_eq!(
        detect_git_kind("v.txt", "/tmp/c/v.txt", &schema_not_json),
        Err("could not detect resource or chart at 'v.txt'; check the path or use --path".to_string())
    );
    let crds = PathFacts::Dir {
        has_chart_yaml: false,
        yaml_files: Ok(vec!["kind: CustomResourceDefinition".to_string()]),
    };
    assert_eq!(detect_git_kind("deploy/crds", "/tmp/c/deploy/crds", &crds), Ok(SourceKind::Resource));
}

// The directory setups of these checks, written as the facts the
// program reads off them.

fn dir(has_chart_yaml: bool, yaml_files: Vec<&str>) -> PathFacts {
    PathFacts::Dir {
        has_chart_yaml,
        yaml_files: Ok(yaml_files.into_iter().map(|s| s.to_string()).collect()),
    }
}

#[test]
fn detect_git_kind_chart_yaml() {
    // a clone with Chart.yaml (not a YAML file of the directory's CRD scan)
    let facts = dir(true, vec![]);
    assert_eq!(detect_git_kind(".", "/tmp/clone", &facts).unwrap(), SourceKind::Chart);
}

#[test]
fn detect_git_kind_crd_yaml() {
    let facts = dir(false, vec!["kind: CustomResourceDefinition\napiVersion: apiextensions.k8s.io/v1\n"]);
    assert_eq!(detect_git_kind(".", "/tmp/clone", &facts).unwrap(), SourceKind::Resource);
}

#[test]
fn detect_git_kind_empty_dir_returns_err() {
    let facts = dir(false, vec![]);
    assert!(detect_git_kind(".", "/tmp/clone", &facts).is_err());
}

#[test]
fn detect_git_kind_json_schema_file() {
    let facts = file(r#"{"$schema":"http://json-schema.org/draft-07/schema#","properties":{}}"#, true);
    assert_eq!(
        detect_git_kind(
            "charts/prometheus/values.schema.json",
            "/tmp/clone/charts/prometheus/values.schema.json",
            &facts
        )
        .unwrap(),
        SourceKind::Chart
    );
}

#[test]
fn detect_git_kind_with_sub_path() {
    let facts = dir(false, vec!["kind: CustomResourceDefinition\n"]);
    assert_eq!(
        detect_git_kind("deploy/crds", "/tmp/clone/deploy/crds", &facts).unwrap(),
        SourceKind::Resource
    );
}

#[test]
fn detect_local_crd_file() {
    let facts = file("kind: CustomResourceDefinition\n", false);
    assert_eq!(detect_local_kind("/tmp/d/crd.yaml", &facts).unwrap(), SourceKind::Resource);
}

#[test]
fn detect_local_json_schema_file() {
    let facts = file(r#"{"$schema":"http://json-schema.org/draft-07/schema#","properties":{}}"#, true);
    assert_eq!(
        detect_local_kind("/tmp/d/values.schema.json", &facts).unwrap(),
        SourceKind::Chart
    );
}

#[test]
fn detect_local_unknown_file_returns_err() {
    let facts = file("some: yaml\nwithout: crd\n", false);
    assert!(detect_local_kind("/tmp/d/random.yaml", &facts).is_err());
}

#[test]
fn detect_local_chart_dir() {
    let facts = dir(true, vec![]);
    assert_eq!(detect_local_kind("/tmp/d", &facts).unwrap(), SourceKind::Chart);
}
