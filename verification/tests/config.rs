use husako::config::{validate, ChartSource, ClusterConfig, HusakoConfig, PluginSource, SchemaSource};

#[test]
fn reject_absolute_entry_path() {
    let config = HusakoConfig {
        entries: vec![("dev".to_string(), "/absolute/path.ts".to_string())],
        ..Default::default()
    };
    let err = validate(&config).unwrap_err();
    assert!(err.message().contains("absolute path"));
}

#[test]
fn reject_absolute_file_source_path() {
    let config = HusakoConfig {
        resources: vec![(
            "my-crd".to_string(),
            SchemaSource::File {
                path: "/absolute/crd.yaml".to_string(),
            },
        )],
        ..Default::default()
    };
    let err = validate(&config).unwrap_err();
    assert!(err.message().contains("absolute path"));
}

#[test]
fn reject_both_cluster_and_clusters() {
    let config = HusakoConfig {
        cluster: Some(ClusterConfig {
            server: "https://a:6443".to_string(),
        }),
        clusters: vec![(
            "dev".to_string(),
            ClusterConfig {
                server: "https://b:6443".to_string(),
            },
        )],
        ..Default::default()
    };
    let err = validate(&config).unwrap_err();
    assert!(err.message().contains("cannot use both"));
}

#[test]
fn reject_unknown_cluster_reference() {
    let config = HusakoConfig {
        clusters: vec![(
            "dev".to_string(),
            ClusterConfig {
                server: "https://dev:6443".to_string(),
            },
        )],
        resources: vec![(
            "crds".to_string(),
            SchemaSource::Cluster {
                cluster: Some("staging".to_string()),
            },
        )],
        ..Default::default()
    };
    let err = validate(&config).unwrap_err();
    assert!(err.message().contains("unknown cluster 'staging'"));
}

#[test]
fn reject_cluster_source_without_cluster_section() {
    let config = HusakoConfig {
        resources: vec![(
            "crds".to_string(),
            SchemaSource::Cluster { cluster: None },
        )],
        ..Default::default()
    };
    let err = validate(&config).unwrap_err();
    assert!(err.message().contains("no [cluster] section"));
}

#[test]
fn reject_unnamed_cluster_with_named_clusters() {
    let config = HusakoConfig {
        clusters: vec![(
            "dev".to_string(),
            ClusterConfig {
                server: "https://dev:6443".to_string(),
            },
        )],
        resources: vec![(
            "crds".to_string(),
            SchemaSource::Cluster { cluster: None },
        )],
        ..Default::default()
    };
    let err = validate(&config).unwrap_err();
    assert!(err.message().contains("specify which cluster"));
}

#[test]
fn reject_absolute_chart_file_path() {
    let config = HusakoConfig {
        charts: vec![(
            "my-chart".to_string(),
            ChartSource::File {
                path: "/absolute/schema.json".to_string(),
            },
        )],
        ..Default::default()
    };
    let err = validate(&config).unwrap_err();
    assert!(err.message().contains("absolute path"));
}

#[test]
fn reject_absolute_plugin_path() {
    let config = HusakoConfig {
        plugins: vec![(
            "test".to_string(),
            PluginSource::Path {
                path: "/absolute/path".to_string(),
            },
        )],
        ..Default::default()
    };
    let err = validate(&config).unwrap_err();
    assert!(err.message().contains("absolute path"));
}
