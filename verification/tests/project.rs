use std::str::FromStr;

use husako::project::TemplateName;

#[test]
fn template_name_from_str() {
    assert_eq!(
        TemplateName::from_str("simple").unwrap(),
        TemplateName::Simple
    );
    assert_eq!(
        TemplateName::from_str("project").unwrap(),
        TemplateName::Project
    );
    assert_eq!(
        TemplateName::from_str("multi-env").unwrap(),
        TemplateName::MultiEnv
    );
    assert!(TemplateName::from_str("unknown").is_err());
}

#[test]
fn template_name_display() {
    assert_eq!(TemplateName::Simple.to_string(), "simple");
    assert_eq!(TemplateName::Project.to_string(), "project");
    assert_eq!(TemplateName::MultiEnv.to_string(), "multi-env");
}

use husako::config::{ChartSource, ConfigError, HusakoConfig, PluginManifest, PluginMeta, SchemaSource};
use husako::plugin::InstalledPlugin;
use husako::project::{
    chart_detail, chart_schema_props, check_outdated, group_version_of, list_dependencies,
    locate_dependency, outdated_checks, outdated_outcome, project_summary, resource_detail,
    update_dependencies, DependencyTarget, OutdatedEntry, UpdateOptions, VersionQuery,
};

fn sample_config() -> HusakoConfig {
    HusakoConfig {
        resources: vec![
            ("kubernetes".to_string(), SchemaSource::Release { version: "1.35".to_string() }),
            (
                "cert-manager".to_string(),
                SchemaSource::Git {
                    repo: "https://github.com/cert-manager/cert-manager".to_string(),
                    tag: "v1.17.2".to_string(),
                    path: "deploy/crds".to_string(),
                },
            ),
            ("crds".to_string(), SchemaSource::File { path: "crds/".to_string() }),
        ],
        charts: vec![
            (
                "pg".to_string(),
                ChartSource::ArtifactHub {
                    package: "bitnami/postgresql".to_string(),
                    version: "16.4.0".to_string(),
                },
            ),
            ("local".to_string(), ChartSource::File { path: "values.schema.json".to_string() }),
            (
                "ingress".to_string(),
                ChartSource::Oci {
                    reference: "oci://ghcr.io/org/ingress".to_string(),
                    version: "1.0.0".to_string(),
                },
            ),
        ],
        ..Default::default()
    }
}

#[test]
fn list_dependencies_sorted_by_name() {
    let cfg = sample_config();
    let plugin = InstalledPlugin {
        name: "flux".to_string(),
        manifest: PluginManifest {
            plugin: PluginMeta {
                name: "flux".to_string(),
                version: "0.1.0".to_string(),
                description: Some("Flux".to_string()),
            },
            resources: Vec::new(),
            charts: Vec::new(),
            modules: vec![("flux".to_string(), "index.js".to_string())],
        },
        dir: "/p/.husako/plugins/flux".to_string(),
    };
    let list = list_dependencies(Some(&cfg), &[plugin]);
    let names: Vec<&str> = list.resources.iter().map(|d| d.name.as_str()).collect();
    assert_eq!(names, vec!["cert-manager", "crds", "kubernetes"]);
    assert_eq!(list.resources[0].source_type, "git");
    assert_eq!(list.resources[0].details, "https://github.com/cert-manager/cert-manager (deploy/crds)");
    assert_eq!(list.resources[0].version.as_deref(), Some("v1.17.2"));
    assert_eq!(list.resources[1].version, None);
    let charts: Vec<&str> = list.charts.iter().map(|d| d.name.as_str()).collect();
    assert_eq!(charts, vec!["ingress", "local", "pg"]);
    assert_eq!(list.charts[2].details, "bitnami/postgresql");
    assert_eq!(list.plugins.len(), 1);
    assert_eq!(list.plugins[0].module_count, 1);
    assert_eq!(list.plugins[0].version, "0.1.0");
}

#[test]
fn list_no_config() {
    let list = list_dependencies(None, &[]);
    assert!(list.resources.is_empty());
    assert!(list.charts.is_empty());
    assert!(list.plugins.is_empty());
}

#[test]
fn outdated_checks_skip_files() {
    let cfg = sample_config();
    let checks = outdated_checks(&cfg);
    let names: Vec<&str> = checks.iter().map(|c| c.name.as_str()).collect();
    assert_eq!(names, vec!["kubernetes", "cert-manager", "pg", "ingress"]);
    assert!(matches!(checks[0].query, VersionQuery::LatestRelease));
    assert_eq!(checks[0].start_message(), "Checking kubernetes...");
}

#[test]
fn outdated_report_from_answers() {
    let cfg = sample_config();
    let answers = vec![
        Ok(Some("1.35.2".to_string())),
        Ok(None),
        Err("network down".to_string()),
        Ok(None),
    ];
    let report = check_outdated(Some(&cfg), &answers);
    // the untagged OCI chart is left out
    assert_eq!(report.len(), 3);
    assert_eq!(report[0].name, "kubernetes");
    assert!(report[0].up_to_date);
    assert_eq!(report[0].latest.as_deref(), Some("1.35.2"));
    assert_eq!(report[1].name, "cert-manager");
    assert!(!report[1].up_to_date);
    assert_eq!(report[1].latest, None);
    assert_eq!(report[2].name, "pg");
    assert_eq!(report[2].kind, "chart");
    assert!(check_outdated(None, &Vec::new()).is_empty());
}

#[test]
fn outdated_outcome_messages() {
    let cfg = sample_config();
    let checks = outdated_checks(&cfg);
    let o = outdated_outcome(&checks[2], &Ok(Some("16.5.0".to_string())));
    assert!(o.ok);
    assert_eq!(o.message, "pg: 16.4.0 \u{2192} 16.5.0");
    assert!(!o.entry.unwrap().up_to_date);
    let o = outdated_outcome(&checks[1], &Err("boom".to_string()));
    assert!(!o.ok);
    assert_eq!(o.message, "cert-manager: boom");
    let o = outdated_outcome(&checks[3], &Ok(None));
    assert_eq!(o.message, "ingress: no tags");
    assert!(o.entry.is_none());
}

fn entry(name: &str, kind: &'static str, latest: Option<&str>, up_to_date: bool) -> OutdatedEntry {
    OutdatedEntry {
        name: name.to_string(),
        kind,
        source_type: "registry",
        current: "1.0.0".to_string(),
        latest: latest.map(|s| s.to_string()),
        up_to_date,
    }
}

#[test]
fn update_plan_sorts_entries() {
    let outdated = vec![
        entry("a", "resource", Some("2.0.0"), false),
        entry("b", "chart", Some("1.0.0"), true),
        entry("c", "chart", None, false),
        entry("d", "chart", Some("3.0.0"), false),
    ];
    let options = UpdateOptions {
        project_root: ".".to_string(),
        name: None,
        resources_only: false,
        charts_only: false,
        dry_run: true,
    };
    let r = update_dependencies(&options, &outdated, &vec![false; 4]);
    let updated: Vec<&str> = r.updated.iter().map(|u| u.name.as_str()).collect();
    assert_eq!(updated, vec!["a", "d"]);
    assert_eq!(r.updated[1].new_version, "3.0.0");
    assert_eq!(r.updated[1].old_version, "1.0.0");
    assert_eq!(r.skipped, vec!["b".to_string()]);
    assert_eq!(r.failed, vec![("c".to_string(), "could not determine latest version".to_string())]);

    // not a dry run: only the entries whose edit succeeded count as updated
    let options = UpdateOptions { dry_run: false, charts_only: true, ..options };
    let r = update_dependencies(&options, &outdated, &vec![true, false, false, false]);
    assert!(r.updated.is_empty());
    assert_eq!(r.skipped.len(), 1);
    assert_eq!(r.failed.len(), 1);

    // a name overrides the section flags
    let options = UpdateOptions { name: Some("a".to_string()), ..options };
    let r = update_dependencies(&options, &outdated, &vec![true, false, false, false]);
    assert_eq!(r.updated.len(), 1);
    assert_eq!(r.updated[0].name, "a");
}

#[test]
fn summary_of_invalid_config_is_empty() {
    let s = project_summary(&"/p".to_string(), &Err(ConfigError::Parse("bad".to_string())), 10, 2, 30);
    assert!(!s.config_valid);
    assert!(s.resources.is_empty());
    assert_eq!(s.cache_size, 10);
    let s = project_summary(&"/p".to_string(), &Ok(Some(sample_config())), 0, 0, 0);
    assert!(s.config_valid);
    assert_eq!(s.resources.len(), 3);
    assert_eq!(s.charts.len(), 3);
}

#[test]
fn locate_dependency_finds_resources_first() {
    let mut cfg = sample_config();
    cfg.charts.push(("kubernetes".to_string(), ChartSource::File { path: "x".to_string() }));
    match locate_dependency(&"/p".to_string(), Some(&cfg), &"kubernetes".to_string()) {
        Ok(DependencyTarget::Resource { info, cache_path }) => {
            assert_eq!(info.source_type, "release");
            assert_eq!(cache_path.as_deref(), Some("/p/.husako/cache/release/v1.35.0"));
        }
        other => panic!("unexpected {other:?}"),
    }
    match locate_dependency(&"/p/".to_string(), Some(&cfg), &"pg".to_string()) {
        Ok(DependencyTarget::Chart { info }) => assert_eq!(info.source_type, "artifacthub"),
        other => panic!("unexpected {other:?}"),
    }
    let err = locate_dependency(&"/p".to_string(), Some(&cfg), &"nope".to_string()).unwrap_err();
    assert_eq!(err.message(), "config validation error: dependency 'nope' not found");
    let err = locate_dependency(&"/p".to_string(), None, &"pg".to_string()).unwrap_err();
    assert_eq!(err.message(), "config validation error: no husako.toml found");
}

#[test]
fn group_versions_from_declaration_files() {
    assert_eq!(group_version_of(&"apps__v1.d.ts".to_string()).as_deref(), Some("apps/v1"));
    assert_eq!(group_version_of(&"v1.d.ts".to_string()).as_deref(), Some("v1"));
    assert_eq!(group_version_of(&"index.js".to_string()), None);
    assert_eq!(group_version_of(&"a.d.d.ts".to_string()).as_deref(), Some("a"));
}

#[test]
fn resource_detail_sorts_files_and_group_versions() {
    let cfg = sample_config();
    let target = locate_dependency(&"/p".to_string(), Some(&cfg), &"kubernetes".to_string()).unwrap();
    let DependencyTarget::Resource { info, cache_path } = target else { panic!() };
    let entries = vec![
        ("core__v1.d.ts".to_string(), Some(30)),
        ("apps__v1.d.ts".to_string(), Some(20)),
        ("sub".to_string(), None),
        ("apps__v1.js".to_string(), Some(5)),
    ];
    let d = resource_detail(info, cache_path, 7, &"/p/.husako/types/k8s".to_string(), &entries);
    let files: Vec<(&str, u64)> = d.type_files.iter().map(|(p, s)| (p.as_str(), *s)).collect();
    assert_eq!(
        files,
        vec![
            ("/p/.husako/types/k8s/apps__v1.d.ts", 20),
            ("/p/.husako/types/k8s/apps__v1.js", 5),
            ("/p/.husako/types/k8s/core__v1.d.ts", 30),
        ]
    );
    let gvs: Vec<&str> = d.group_versions.iter().map(|(g, _)| g.as_str()).collect();
    assert_eq!(gvs, vec!["apps/v1", "core/v1"]);
    assert_eq!(d.cache_size, 7);
}

#[test]
fn chart_schema_counts() {
    let dts = "export interface ValuesSpec {\n  replicas?: number;\n  image: string;\n    nested: string;\n}\n";
    assert_eq!(chart_schema_props(&dts.to_string()), (4, 2));
    let cfg = sample_config();
    let Ok(DependencyTarget::Chart { info }) =
        locate_dependency(&"/p".to_string(), Some(&cfg), &"pg".to_string())
    else {
        panic!()
    };
    let d = chart_detail(info, &"/p/.husako/types/helm".to_string(), &"pg".to_string(), Some(10), None, Some(&dts.to_string()));
    assert_eq!(d.type_files, vec![("/p/.husako/types/helm/pg.d.ts".to_string(), 10)]);
    assert_eq!(d.schema_property_count, Some((4, 2)));
}

// The checks of `list`, `info` and dependency details on the configurations
// of the usual project setups.

fn release_config() -> HusakoConfig {
    HusakoConfig {
        resources: vec![("kubernetes".to_string(), SchemaSource::Release { version: "1.35".to_string() })],
        ..Default::default()
    }
}

fn chart_config() -> HusakoConfig {
    HusakoConfig {
        charts: vec![("my-chart".to_string(), ChartSource::File { path: "./values.schema.json".to_string() })],
        ..Default::default()
    }
}

#[test]
fn list_empty_config() {
    let deps = list_dependencies(Some(&HusakoConfig::default()), &[]);
    assert!(deps.resources.is_empty());
    assert!(deps.charts.is_empty());
}

#[test]
fn list_resources_only() {
    let deps = list_dependencies(Some(&release_config()), &[]);
    assert_eq!(deps.resources.len(), 1);
    assert_eq!(deps.resources[0].name, "kubernetes");
    assert_eq!(deps.resources[0].source_type, "release");
    assert_eq!(deps.resources[0].version.as_deref(), Some("1.35"));
    assert!(deps.charts.is_empty());
}

#[test]
fn list_charts_only() {
    let deps = list_dependencies(Some(&chart_config()), &[]);
    assert!(deps.resources.is_empty());
    assert_eq!(deps.charts.len(), 1);
    assert_eq!(deps.charts[0].name, "my-chart");
}

#[test]
fn list_mixed() {
    let cfg = HusakoConfig { charts: chart_config().charts, ..release_config() };
    let deps = list_dependencies(Some(&cfg), &[]);
    assert_eq!(deps.resources.len(), 1);
    assert_eq!(deps.charts.len(), 1);
}

#[test]
fn project_summary_empty() {
    let summary = project_summary(&"/p".to_string(), &Ok(Some(HusakoConfig::default())), 0, 0, 0);
    assert!(summary.config_valid);
    assert!(summary.resources.is_empty());
    assert!(summary.charts.is_empty());
}

#[test]
fn project_summary_with_deps() {
    let summary = project_summary(&"/p".to_string(), &Ok(Some(release_config())), 0, 0, 0);
    assert_eq!(summary.resources.len(), 1);
}

#[test]
fn dependency_detail_not_found() {
    let err = locate_dependency(&"/p".to_string(), Some(&HusakoConfig::default()), &"nonexistent".to_string())
        .unwrap_err();
    assert!(err.message().contains("not found"));
}

#[test]
fn dependency_detail_resource() {
    let Ok(DependencyTarget::Resource { info, cache_path }) =
        locate_dependency(&"/p".to_string(), Some(&release_config()), &"kubernetes".to_string())
    else {
        panic!("kubernetes is a resource")
    };
    let detail = resource_detail(info, cache_path, 0, &"/p/.husako/types/k8s".to_string(), &Vec::new());
    assert_eq!(detail.info.name, "kubernetes");
    assert_eq!(detail.info.source_type, "release");
    assert_eq!(detail.info.version.as_deref(), Some("1.35"));
}

#[test]
fn dependency_detail_chart() {
    let Ok(DependencyTarget::Chart { info }) =
        locate_dependency(&"/p".to_string(), Some(&chart_config()), &"my-chart".to_string())
    else {
        panic!("my-chart is a chart")
    };
    let detail = chart_detail(info, &"/p/.husako/types/helm".to_string(), &"my-chart".to_string(), None, None, None);
    assert_eq!(detail.info.name, "my-chart");
    assert_eq!(detail.info.source_type, "file");
}
