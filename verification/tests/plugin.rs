use husako::config::{ChartSource, HusakoConfig, PluginManifest, PluginMeta, SchemaSource};
use husako::plugin::{merge_plugin_presets, plugin_module_files, plugin_tsconfig_paths, InstalledPlugin};

fn has_name<V>(table: &[(String, V)], name: &str) -> bool {
    table.iter().any(|(k, _)| k == name)
}

fn value_of<'a>(table: &'a [(String, String)], name: &str) -> &'a str {
    &table.iter().find(|(k, _)| k == name).unwrap().1
}

#[test]
fn merge_plugin_presets_adds_resources() {
    let mut config = HusakoConfig {
        resources: vec![(
            "kubernetes".to_string(),
            SchemaSource::Release {
                version: "1.35".to_string(),
            },
        )],
        ..Default::default()
    };

    let plugins = vec![InstalledPlugin {
        name: "flux".to_string(),
        manifest: PluginManifest {
            plugin: PluginMeta {
                name: "flux".to_string(),
                version: "0.1.0".to_string(),
                description: None,
            },
            resources: vec![(
                "flux-source".to_string(),
                SchemaSource::Git {
                    repo: "https://github.com/fluxcd/source-controller".to_string(),
                    tag: "v1.5.0".to_string(),
                    path: "config/crd/bases".to_string(),
                },
            )],
            charts: Vec::new(),
            modules: Vec::new(),
        },
        dir: "/tmp/plugins/flux".to_string(),
    }];

    merge_plugin_presets(&mut config, &plugins);

    // Existing resource preserved
    assert!(has_name(&config.resources, "kubernetes"));
    // Plugin resource added with namespaced key
    assert!(has_name(&config.resources, "flux:flux-source"));
}

#[test]
fn merge_plugin_presets_adds_charts() {
    let mut config = HusakoConfig::default();

    let plugins = vec![InstalledPlugin {
        name: "my".to_string(),
        manifest: PluginManifest {
            plugin: PluginMeta {
                name: "my".to_string(),
                version: "0.1.0".to_string(),
                description: None,
            },
            resources: Vec::new(),
            charts: vec![(
                "nginx".to_string(),
                ChartSource::Registry {
                    repo: "https://charts.bitnami.com/bitnami".to_string(),
                    chart: "nginx".to_string(),
                    version: "16.0.0".to_string(),
                },
            )],
            modules: Vec::new(),
        },
        dir: "/tmp/plugins/my".to_string(),
    }];

    merge_plugin_presets(&mut config, &plugins);
    assert!(has_name(&config.charts, "my:nginx"));
}

#[test]
fn plugin_tsconfig_paths_builds_mappings() {
    let plugins = vec![InstalledPlugin {
        name: "flux".to_string(),
        manifest: PluginManifest {
            plugin: PluginMeta {
                name: "flux".to_string(),
                version: "0.1.0".to_string(),
                description: None,
            },
            resources: Vec::new(),
            charts: Vec::new(),
            modules: vec![
                ("flux".to_string(), "modules/index.js".to_string()),
                ("flux/helm".to_string(), "modules/helm.js".to_string()),
            ],
        },
        dir: "/tmp/plugins/flux".to_string(),
    }];

    let paths = plugin_tsconfig_paths(&plugins);
    assert_eq!(
        value_of(&paths, "flux"),
        ".husako/plugins/flux/modules/index.d.ts"
    );
    assert_eq!(
        value_of(&paths, "flux/helm"),
        ".husako/plugins/flux/modules/helm.d.ts"
    );
}

use husako::config::{ConfigError, PluginSource};
use husako::plugin::{
    install_plugins, install_report, plugin_installs, sort_plugins, InstallOutcome,
    PluginInstallError,
};

fn manifest(version: &str) -> PluginManifest {
    PluginManifest {
        plugin: PluginMeta { name: "p".to_string(), version: version.to_string(), description: None },
        resources: Vec::new(),
        charts: Vec::new(),
        modules: Vec::new(),
    }
}

fn plugins_config() -> HusakoConfig {
    HusakoConfig {
        plugins: vec![
            ("flux".to_string(), PluginSource::Git { url: "https://github.com/org/flux".to_string(), path: None }),
            ("local".to_string(), PluginSource::Path { path: "plugins/local".to_string() }),
        ],
        ..Default::default()
    }
}

#[test]
fn empty_plugins_config() {
    let cfg = HusakoConfig::default();
    assert!(plugin_installs(&cfg, &"/p".to_string()).is_empty());
    assert!(install_plugins(&cfg, &"/p".to_string(), Vec::new()).unwrap().is_empty());
}

#[test]
fn plugin_installs_have_directories() {
    let installs = plugin_installs(&plugins_config(), &"/p".to_string());
    assert_eq!(installs[0].target_dir, "/p/.husako/plugins/flux");
    assert_eq!(installs[0].source_dir, None);
    assert_eq!(installs[1].source_dir.as_deref(), Some("/p/plugins/local"));
}

#[test]
fn install_stops_at_first_failure() {
    let cfg = plugins_config();
    let ok = install_plugins(
        &cfg,
        &"/p".to_string(),
        vec![InstallOutcome::Installed(manifest("0.1.0")), InstallOutcome::Installed(manifest("0.2.0"))],
    )
    .unwrap();
    assert_eq!(ok.len(), 2);
    assert_eq!(ok[1].name, "local");
    assert_eq!(ok[1].dir, "/p/.husako/plugins/local");
    assert_eq!(ok[1].manifest.plugin.version, "0.2.0");

    let err = install_plugins(
        &cfg,
        &"/p".to_string(),
        vec![InstallOutcome::InstallFailed("git clone failed".to_string())],
    )
    .unwrap_err();
    assert!(matches!(err, PluginInstallError::Install(m) if m == "git clone failed"));
}

#[test]
fn install_reports() {
    let name = "flux".to_string();
    assert_eq!(
        install_report(&name, &InstallOutcome::Installed(manifest("0.3.0"))),
        (true, "flux: installed (v0.3.0)".to_string())
    );
    assert_eq!(
        install_report(&name, &InstallOutcome::ManifestInvalid(ConfigError::Validation("x".to_string()))),
        (false, "flux: invalid manifest: config validation error: x".to_string())
    );
}

#[test]
fn list_plugins_sorted_by_name() {
    let found = vec![
        InstalledPlugin { name: "b".to_string(), manifest: manifest("1"), dir: "/b".to_string() },
        InstalledPlugin { name: "a".to_string(), manifest: manifest("2"), dir: "/a".to_string() },
    ];
    let sorted = sort_plugins(found);
    assert_eq!(sorted[0].name, "a");
    assert_eq!(sorted[0].dir, "/a");
    assert_eq!(sorted[1].name, "b");
    assert!(sort_plugins(Vec::new()).is_empty());
}

#[test]
fn plugin_module_files_under_plugin_dirs() {
    let plugin = |name: &str, dir: &str, modules: &[(&str, &str)]| InstalledPlugin {
        name: name.to_string(),
        manifest: PluginManifest {
            plugin: PluginMeta { name: name.to_string(), version: "0.1.0".to_string(), description: None },
            resources: Vec::new(),
            charts: Vec::new(),
            modules: modules.iter().map(|(a, b)| (a.to_string(), b.to_string())).collect(),
        },
        dir: dir.to_string(),
    };
    let plugins = vec![
        plugin("flux", "/p/.husako/plugins/flux", &[("flux", "modules/index.js")]),
        plugin("other", "/p/.husako/plugins/other/", &[("flux", "alt.js"), ("other", "o.js")]),
    ];
    let files = plugin_module_files(&plugins);
    assert_eq!(files.len(), 2);
    assert_eq!(value_of(&files, "flux"), "/p/.husako/plugins/other/alt.js");
    assert_eq!(value_of(&files, "other"), "/p/.husako/plugins/other/o.js");
    let single = plugin_module_files(&plugins[..1]);
    assert_eq!(value_of(&single, "flux"), "/p/.husako/plugins/flux/modules/index.js");
}
