use husako::config::{ChartSource, PluginSource, SchemaSource};
use husako::edit::{
    add_dependency, chart_source_fields, plugin_source_fields, remove_dependency, source_fields,
    version_key, AddTarget,
};

fn pairs(v: &[(&str, &str)]) -> Vec<(String, String)> {
    v.iter().map(|(k, x)| (k.to_string(), x.to_string())).collect()
}

#[test]
fn resource_fields_per_source() {
    let release = SchemaSource::Release { version: "1.35".to_string() };
    assert_eq!(source_fields(&release), pairs(&[("source", "release"), ("version", "1.35")]));
    let cluster = SchemaSource::Cluster { cluster: Some("dev".to_string()) };
    assert_eq!(source_fields(&cluster), pairs(&[("source", "cluster"), ("cluster", "dev")]));
    let default_cluster = SchemaSource::Cluster { cluster: None };
    assert_eq!(source_fields(&default_cluster), pairs(&[("source", "cluster")]));
    let git = SchemaSource::Git {
        repo: "https://github.com/cert-manager/cert-manager".to_string(),
        tag: "v1.17.2".to_string(),
        path: "deploy/crds".to_string(),
    };
    assert_eq!(
        source_fields(&git),
        pairs(&[
            ("source", "git"),
            ("repo", "https://github.com/cert-manager/cert-manager"),
            ("tag", "v1.17.2"),
            ("path", "deploy/crds"),
        ])
    );
    let file = SchemaSource::File { path: "./crds".to_string() };
    assert_eq!(source_fields(&file), pairs(&[("source", "file"), ("path", "./crds")]));
}

#[test]
fn chart_fields_per_source() {
    let registry = ChartSource::Registry {
        repo: "https://charts.bitnami.com/bitnami".to_string(),
        chart: "postgresql".to_string(),
        version: "16.4.0".to_string(),
    };
    assert_eq!(
        chart_source_fields(&registry),
        pairs(&[
            ("source", "registry"),
            ("repo", "https://charts.bitnami.com/bitnami"),
            ("chart", "postgresql"),
            ("version", "16.4.0"),
        ])
    );
    let hub = ChartSource::ArtifactHub {
        package: "bitnami/postgresql".to_string(),
        version: "16.4.0".to_string(),
    };
    assert_eq!(
        chart_source_fields(&hub),
        pairs(&[("source", "artifacthub"), ("package", "bitnami/postgresql"), ("version", "16.4.0")])
    );
    let oci = ChartSource::Oci {
        reference: "oci://ghcr.io/org/chart".to_string(),
        version: "1.0.0".to_string(),
    };
    assert_eq!(
        chart_source_fields(&oci),
        pairs(&[("source", "oci"), ("reference", "oci://ghcr.io/org/chart"), ("version", "1.0.0")])
    );
    let file = ChartSource::File { path: "./values.schema.json".to_string() };
    assert_eq!(
        chart_source_fields(&file),
        pairs(&[("source", "file"), ("path", "./values.schema.json")])
    );
}

#[test]
fn plugin_fields_per_source() {
    let git = PluginSource::Git {
        url: "https://github.com/nanazt/husako".to_string(),
        path: Some("plugins/flux".to_string()),
    };
    assert_eq!(
        plugin_source_fields(&git),
        pairs(&[
            ("source", "git"),
            ("url", "https://github.com/nanazt/husako"),
            ("path", "plugins/flux"),
        ])
    );
    let local = PluginSource::Path { path: "./plugins/my".to_string() };
    assert_eq!(plugin_source_fields(&local), pairs(&[("source", "path"), ("path", "./plugins/my")]));
}

#[test]
fn version_key_prefers_version_then_tag() {
    let keys = |v: &[&str]| v.iter().map(|s| s.to_string()).collect::<Vec<String>>();
    assert_eq!(version_key(&keys(&["source", "version"])), Some("version"));
    assert_eq!(version_key(&keys(&["source", "repo", "tag", "path"])), Some("tag"));
    assert_eq!(version_key(&keys(&["tag", "version"])), Some("version"));
    assert_eq!(version_key(&keys(&["source", "path"])), None);
}

#[test]
fn add_dependency_entries() {
    let r = add_dependency(&AddTarget::Resource {
        name: "kubernetes".to_string(),
        source: SchemaSource::Release { version: "1.35".to_string() },
    });
    assert_eq!(r.section, "resources");
    assert_eq!(r.name, "kubernetes");
    assert_eq!(r.fields, pairs(&[("source", "release"), ("version", "1.35")]));
    let c = add_dependency(&AddTarget::Chart {
        name: "pg".to_string(),
        source: ChartSource::File { path: "./schema.json".to_string() },
    });
    assert_eq!(c.section, "charts");
    assert_eq!(c.fields, pairs(&[("source", "file"), ("path", "./schema.json")]));
}

#[test]
fn remove_dependency_sections() {
    let r = remove_dependency("pg", true, false).unwrap();
    assert_eq!((r.name.as_str(), r.section), ("pg", "resources"));
    let c = remove_dependency("pg", false, true).unwrap();
    assert_eq!(c.section, "charts");
    let err = remove_dependency("nonexistent", false, false).unwrap_err();
    assert!(err.contains("not found"));
    assert_eq!(err, "dependency 'nonexistent' not found in [resources] or [charts]");
}

#[test]
fn remove_resource_from_config() {
    // `kubernetes` was found under [resources]
    let result = remove_dependency("kubernetes", true, false).unwrap();
    assert_eq!(result.section, "resources");
}

#[test]
fn remove_chart_from_config() {
    let result = remove_dependency("my-chart", false, true).unwrap();
    assert_eq!(result.section, "charts");
}

#[test]
fn remove_nonexistent_returns_error() {
    let err = remove_dependency("nonexistent", false, false).unwrap_err();
    assert!(err.contains("not found"));
}
