use husako::config::{ChartSource, ConfigError, PluginSource, SchemaSource};
use husako::config_edit::{config_with_cluster, config_with_entry, config_with_version, config_without_entry};
use husako::edit::{add_dependency, plugin_source_fields, AddTarget, EntryEdit};

fn resource(name: &str, source: SchemaSource) -> EntryEdit {
    add_dependency(&AddTarget::Resource { name: name.to_string(), source })
}

fn chart(name: &str, source: ChartSource) -> EntryEdit {
    add_dependency(&AddTarget::Chart { name: name.to_string(), source })
}

fn plugin(name: &str, source: PluginSource) -> EntryEdit {
    EntryEdit { section: "plugins", name: name.to_string(), fields: plugin_source_fields(&source) }
}

#[test]
fn add_resource_release() {
    let edit = resource("kubernetes", SchemaSource::Release { version: "1.35".to_string() });
    let output = config_with_entry("[entries]\ndev = \"env/dev.ts\"\n", &edit).unwrap();
    assert!(output.contains("[resources]"));
    assert!(output.contains("kubernetes"));
    assert!(output.contains("release"));
    assert!(output.contains("1.35"));
    assert!(output.starts_with("[entries]\ndev = \"env/dev.ts\"\n"));
}

#[test]
fn add_chart_registry() {
    let edit = chart(
        "ingress-nginx",
        ChartSource::Registry {
            repo: "https://kubernetes.github.io/ingress-nginx".to_string(),
            chart: "ingress-nginx".to_string(),
            version: "4.12.0".to_string(),
        },
    );
    let output = config_with_entry("", &edit).unwrap();
    assert!(output.contains("[charts]"));
    assert!(output.contains("ingress-nginx"));
    assert!(output.contains("4.12.0"));
}

#[test]
fn add_chart_oci() {
    let edit = chart(
        "postgresql",
        ChartSource::Oci { reference: "oci://ghcr.io/org/postgresql".to_string(), version: "1.2.3".to_string() },
    );
    let output = config_with_entry("", &edit).unwrap();
    assert!(output.contains("[charts]"));
    assert!(output.contains("postgresql"));
    assert!(output.contains("oci"));
    assert!(output.contains("ghcr.io/org/postgresql"));
    assert!(output.contains("1.2.3"));
}

#[test]
fn added_entry_replaces_one_of_the_same_name() {
    let text = "[resources]\nkubernetes = { source = \"release\", version = \"1.34\" }\n";
    let edit = resource("kubernetes", SchemaSource::Release { version: "1.35".to_string() });
    let output = config_with_entry(text, &edit).unwrap();
    assert!(output.contains("1.35"));
    assert!(!output.contains("1.34"));
    assert_eq!(output.matches("kubernetes").count(), 1);
}

#[test]
fn entry_into_a_section_that_is_not_a_table_is_refused() {
    let edit = resource("kubernetes", SchemaSource::Release { version: "1.35".to_string() });
    match config_with_entry("resources = 1\n", &edit) {
        Err(ConfigError::Validation(m)) => assert_eq!(m, "[resources] in husako.toml is not a table"),
        other => panic!("unexpected {:?}", other),
    }
    assert!(matches!(config_with_entry("[[broken", &edit), Err(ConfigError::Parse(_))));
}

#[test]
fn remove_resource_existing() {
    let text = "[resources]\nkubernetes = { source = \"release\", version = \"1.35\" }\n";
    let output = config_without_entry(text, "resources", "kubernetes").unwrap().unwrap();
    assert!(!output.contains("kubernetes"));
}

#[test]
fn remove_resource_missing() {
    assert!(config_without_entry("[resources]\n", "resources", "nonexistent").unwrap().is_none());
}

#[test]
fn remove_chart_existing() {
    let text = "[charts]\nmy-chart = { source = \"file\", path = \"./values.schema.json\" }\n";
    let output = config_without_entry(text, "charts", "my-chart").unwrap().unwrap();
    assert!(!output.contains("my-chart"));
}

#[test]
fn update_resource_version() {
    let text = "[resources]\nkubernetes = { source = \"release\", version = \"1.35\" }\n";
    let output = config_with_version(text, "resources", "kubernetes", "1.36").unwrap().unwrap();
    assert!(output.contains("1.36"));
    assert!(!output.contains("1.35"));
}

#[test]
fn update_chart_version() {
    let text = "[charts]\ningress-nginx = { source = \"registry\", repo = \"https://example.com\", chart = \"ingress-nginx\", version = \"4.12.0\" }\n";
    let output = config_with_version(text, "charts", "ingress-nginx", "4.12.1").unwrap().unwrap();
    assert!(output.contains("4.12.1"));
    assert!(!output.contains("4.12.0"));
}

#[test]
fn update_git_tag() {
    let text = "[resources]\ncert-manager = { source = \"git\", repo = \"https://github.com/cert-manager/cert-manager\", tag = \"v1.17.2\", path = \"deploy/crds\" }\n";
    let output = config_with_version(text, "resources", "cert-manager", "v1.18.0").unwrap().unwrap();
    assert!(output.contains("v1.18.0"));
    assert!(!output.contains("v1.17.2"));
}

#[test]
fn update_without_version_field_changes_nothing() {
    let text = "[resources]\ncrds = { source = \"file\", path = \"crds/\" }\n";
    assert!(config_with_version(text, "resources", "crds", "1.0").unwrap().is_none());
    assert!(config_with_version(text, "resources", "missing", "1.0").unwrap().is_none());
}

#[test]
fn preserve_comments() {
    let content = "# Project config\n\n[entries]\n# Entry aliases\ndev = \"env/dev.ts\"\n\n[resources]\n# K8s resources\nkubernetes = { source = \"release\", version = \"1.35\" }\n";
    let output = config_with_version(content, "resources", "kubernetes", "1.36").unwrap().unwrap();
    assert!(output.contains("# Project config"));
    assert!(output.contains("# Entry aliases"));
    assert!(output.contains("# K8s resources"));
    assert!(output.contains("dev = \"env/dev.ts\""));
}

#[test]
fn add_plugin_git() {
    let edit = plugin("flux", PluginSource::Git { url: "https://github.com/nanazt/husako-plugin-flux".to_string(), path: None });
    let output = config_with_entry("", &edit).unwrap();
    assert!(output.contains("[plugins]"));
    assert!(output.contains("flux"));
    assert!(output.contains("git"));
    assert!(output.contains("husako-plugin-flux"));
    assert!(!output.contains("\"path\""));
}

#[test]
fn add_plugin_path() {
    let edit = plugin("my-plugin", PluginSource::Path { path: "./plugins/my-plugin".to_string() });
    let output = config_with_entry("", &edit).unwrap();
    assert!(output.contains("[plugins]"));
    assert!(output.contains("my-plugin"));
    assert!(output.contains("path"));
}

#[test]
fn edit_remove_plugin_existing() {
    let text = "[plugins]\nflux = { source = \"git\", url = \"https://github.com/nanazt/husako-plugin-flux\" }\n";
    let output = config_without_entry(text, "plugins", "flux").unwrap().unwrap();
    assert!(!output.contains("flux"));
}

#[test]
fn cluster_is_written() {
    let output = config_with_cluster("", None, "https://localhost:6443").unwrap();
    assert!(output.contains("[cluster]"));
    assert!(output.contains("server = \"https://localhost:6443\""));
    let output = config_with_cluster("[entries]\n", Some("dev"), "https://dev:6443").unwrap();
    assert!(output.contains("[clusters.dev]"));
    assert!(output.contains("https://dev:6443"));
}
