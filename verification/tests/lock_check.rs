use husako::config::{ChartSource, HusakoConfig, PluginSource, SchemaSource};
use husako::lock_check::{
    hash_content, hash_tree, should_skip_chart, should_skip_k8s, should_skip_plugin,
    ChartLockEntry, HusakoLock, PluginLockEntry, ResourceLockEntry,
};

fn make_lock(
    resources: Vec<(String, ResourceLockEntry)>,
    charts: Vec<(String, ChartLockEntry)>,
    plugins: Vec<(String, PluginLockEntry)>,
) -> HusakoLock {
    HusakoLock {
        format_version: 1,
        husako_version: "0.3.0".to_string(),
        resources,
        charts,
        plugins,
    }
}

fn lock_with_resource(name: &str, entry: ResourceLockEntry) -> HusakoLock {
    make_lock(vec![(name.to_string(), entry)], Vec::new(), Vec::new())
}

fn config_with_resource(name: &str, source: SchemaSource) -> HusakoConfig {
    HusakoConfig {
        resources: vec![(name.to_string(), source)],
        ..Default::default()
    }
}

fn make_chart_lock(name: &str, entry: ChartLockEntry) -> HusakoLock {
    make_lock(Vec::new(), vec![(name.to_string(), entry)], Vec::new())
}

fn make_plugin_lock(name: &str, entry: PluginLockEntry) -> HusakoLock {
    make_lock(Vec::new(), Vec::new(), vec![(name.to_string(), entry)])
}

#[test]
fn skip_release_unchanged() {
    let types_present = true;
    let hashes: Vec<(String, String)> = Vec::new();
    let lock = lock_with_resource(
        "kubernetes",
        ResourceLockEntry::Release {
            version: "1.35".to_string(),
            generated_at: "2026-01-01T00:00:00Z".to_string(),
        },
    );
    let config = config_with_resource(
        "kubernetes",
        SchemaSource::Release {
            version: "1.35".to_string(),
        },
    );
    assert!(should_skip_k8s(
        Some(&config),
        Some(&lock),
        "0.3.0",
        types_present,
        &hashes
    ));
}


#[test]
fn skip_release_version_changed() {
    let types_present = true;
    let hashes: Vec<(String, String)> = Vec::new();
    let lock = lock_with_resource(
        "kubernetes",
        ResourceLockEntry::Release {
            version: "1.34".to_string(),
            generated_at: "2026-01-01T00:00:00Z".to_string(),
        },
    );
    let config = config_with_resource(
        "kubernetes",
        SchemaSource::Release {
            version: "1.35".to_string(),
        },
    );
    assert!(!should_skip_k8s(
        Some(&config),
        Some(&lock),
        "0.3.0",
        types_present,
        &hashes
    ));
}


#[test]
fn skip_git_unchanged() {
    let types_present = true;
    let hashes: Vec<(String, String)> = Vec::new();
    let lock = lock_with_resource(
        "cert-manager",
        ResourceLockEntry::Git {
            repo: "https://github.com/cert-manager/cert-manager".to_string(),
            tag: "v1.17.2".to_string(),
            path: "deploy/crds".to_string(),
            generated_at: "2026-01-01T00:00:00Z".to_string(),
        },
    );
    let config = config_with_resource(
        "cert-manager",
        SchemaSource::Git {
            repo: "https://github.com/cert-manager/cert-manager".to_string(),
            tag: "v1.17.2".to_string(),
            path: "deploy/crds".to_string(),
        },
    );
    assert!(should_skip_k8s(
        Some(&config),
        Some(&lock),
        "0.3.0",
        types_present,
        &hashes
    ));
}


#[test]
fn skip_git_tag_changed() {
    let types_present = true;
    let hashes: Vec<(String, String)> = Vec::new();
    let lock = lock_with_resource(
        "cert-manager",
        ResourceLockEntry::Git {
            repo: "https://github.com/cert-manager/cert-manager".to_string(),
            tag: "v1.17.1".to_string(),
            path: "deploy/crds".to_string(),
            generated_at: "2026-01-01T00:00:00Z".to_string(),
        },
    );
    let config = config_with_resource(
        "cert-manager",
        SchemaSource::Git {
            repo: "https://github.com/cert-manager/cert-manager".to_string(),
            tag: "v1.17.2".to_string(),
            path: "deploy/crds".to_string(),
        },
    );
    assert!(!should_skip_k8s(
        Some(&config),
        Some(&lock),
        "0.3.0",
        types_present,
        &hashes
    ));
}


#[test]
fn skip_file_content_unchanged() {
    let types_present = true;
    let real_hash = hash_content(b"kind: CustomResourceDefinition");
    let hashes = vec![("my-crd".to_string(), real_hash.clone())];
    // Write a real file so hash_file works

    let lock = lock_with_resource(
        "my-crd",
        ResourceLockEntry::File {
            path: "my-crd.yaml".to_string(),
            content_hash: real_hash.clone(),
            generated_at: "2026-01-01T00:00:00Z".to_string(),
        },
    );
    let config = config_with_resource(
        "my-crd",
        SchemaSource::File {
            path: "my-crd.yaml".to_string(),
        },
    );
    assert!(should_skip_k8s(
        Some(&config),
        Some(&lock),
        "0.3.0",
        types_present,
        &hashes
    ));
}


#[test]
fn skip_file_content_changed() {
    let types_present = true;
    let real_hash = hash_content(b"new content");
    let hashes = vec![("my-crd".to_string(), real_hash.clone())];

    let lock = lock_with_resource(
        "my-crd",
        ResourceLockEntry::File {
            path: "my-crd.yaml".to_string(),
            content_hash: "0000000000000000".to_string(),
            generated_at: "2026-01-01T00:00:00Z".to_string(),
        },
    );
    let config = config_with_resource(
        "my-crd",
        SchemaSource::File {
            path: "my-crd.yaml".to_string(),
        },
    );
    assert!(!should_skip_k8s(
        Some(&config),
        Some(&lock),
        "0.3.0",
        types_present,
        &hashes
    ));
}


#[test]
fn k8s_no_skip_entry_added() {
    let types_present = true;
    let hashes: Vec<(String, String)> = Vec::new();
    // Lock has "kubernetes", config has "kubernetes" + "new-dep"
    let lock = lock_with_resource(
        "kubernetes",
        ResourceLockEntry::Release {
            version: "1.35".to_string(),
            generated_at: "2026-01-01T00:00:00Z".to_string(),
        },
    );
    let mut resources = Vec::new();
    resources.push(("kubernetes".to_string(),
        SchemaSource::Release {
            version: "1.35".to_string(),
        },
    ));
    resources.push(("new-dep".to_string(),
        SchemaSource::Release {
            version: "1.35".to_string(),
        },
    ));
    let config = HusakoConfig {
        resources,
        ..Default::default()
    };
    assert!(!should_skip_k8s(
        Some(&config),
        Some(&lock),
        "0.3.0",
        types_present,
        &hashes
    ));
}


#[test]
fn k8s_no_skip_types_dir_missing() {
    let types_present = false;
    let hashes: Vec<(String, String)> = Vec::new();
    // No k8s types dir created
    let lock = lock_with_resource(
        "kubernetes",
        ResourceLockEntry::Release {
            version: "1.35".to_string(),
            generated_at: "2026-01-01T00:00:00Z".to_string(),
        },
    );
    let config = config_with_resource(
        "kubernetes",
        SchemaSource::Release {
            version: "1.35".to_string(),
        },
    );
    assert!(!should_skip_k8s(
        Some(&config),
        Some(&lock),
        "0.3.0",
        types_present,
        &hashes
    ));
}


#[test]
fn k8s_no_skip_husako_version_changed() {
    let types_present = true;
    let hashes: Vec<(String, String)> = Vec::new();
    let lock = lock_with_resource(
        "kubernetes",
        ResourceLockEntry::Release {
            version: "1.35".to_string(),
            generated_at: "2026-01-01T00:00:00Z".to_string(),
        },
    );
    let config = config_with_resource(
        "kubernetes",
        SchemaSource::Release {
            version: "1.35".to_string(),
        },
    );
    // Lock has "0.2.0" but current version is "0.3.0"
    assert!(!should_skip_k8s(
        Some(&config),
        Some(&lock),
        "0.3.1", // different from lock's "0.3.0"
        types_present,
        &hashes
    ));
}


#[test]
fn skip_chart_registry_unchanged() {
    let type_file_exists = true;
    let lock = make_chart_lock(
        "ingress-nginx",
        ChartLockEntry::Registry {
            repo: "https://kubernetes.github.io/ingress-nginx".to_string(),
            chart: "ingress-nginx".to_string(),
            version: "4.12.0".to_string(),
            generated_at: "2026-01-01T00:00:00Z".to_string(),
        },
    );
    let source = ChartSource::Registry {
        repo: "https://kubernetes.github.io/ingress-nginx".to_string(),
        chart: "ingress-nginx".to_string(),
        version: "4.12.0".to_string(),
    };
    assert!(should_skip_chart(
        &"ingress-nginx".to_string(),
        &source,
        Some(&lock),
        "0.3.0",
        type_file_exists,
        ""
    ));
}


#[test]
fn skip_chart_registry_version_changed() {
    let type_file_exists = true;
    let lock = make_chart_lock(
        "ingress-nginx",
        ChartLockEntry::Registry {
            repo: "https://kubernetes.github.io/ingress-nginx".to_string(),
            chart: "ingress-nginx".to_string(),
            version: "4.11.0".to_string(),
            generated_at: "2026-01-01T00:00:00Z".to_string(),
        },
    );
    let source = ChartSource::Registry {
        repo: "https://kubernetes.github.io/ingress-nginx".to_string(),
        chart: "ingress-nginx".to_string(),
        version: "4.12.0".to_string(),
    };
    assert!(!should_skip_chart(
        &"ingress-nginx".to_string(),
        &source,
        Some(&lock),
        "0.3.0",
        type_file_exists,
        ""
    ));
}


#[test]
fn skip_chart_artifacthub_unchanged() {
    let type_file_exists = true;
    let lock = make_chart_lock(
        "postgresql",
        ChartLockEntry::ArtifactHub {
            package: "bitnami/postgresql".to_string(),
            version: "16.4.0".to_string(),
            generated_at: "2026-01-01T00:00:00Z".to_string(),
        },
    );
    let source = ChartSource::ArtifactHub {
        package: "bitnami/postgresql".to_string(),
        version: "16.4.0".to_string(),
    };
    assert!(should_skip_chart(
        &"postgresql".to_string(),
        &source,
        Some(&lock),
        "0.3.0",
        type_file_exists,
        ""
    ));
}


#[test]
fn skip_chart_oci_unchanged() {
    let type_file_exists = true;
    let lock = make_chart_lock(
        "pg",
        ChartLockEntry::Oci {
            reference: "oci://ghcr.io/org/postgresql".to_string(),
            version: "1.2.3".to_string(),
            generated_at: "2026-01-01T00:00:00Z".to_string(),
        },
    );
    let source = ChartSource::Oci {
        reference: "oci://ghcr.io/org/postgresql".to_string(),
        version: "1.2.3".to_string(),
    };
    assert!(should_skip_chart(
        &"pg".to_string(),
        &source,
        Some(&lock),
        "0.3.0",
        type_file_exists,
        ""
    ));
}


#[test]
fn no_skip_chart_types_file_missing() {
    let type_file_exists = false;
    // No helm types dir created
    let lock = make_chart_lock(
        "ingress-nginx",
        ChartLockEntry::Registry {
            repo: "https://kubernetes.github.io/ingress-nginx".to_string(),
            chart: "ingress-nginx".to_string(),
            version: "4.12.0".to_string(),
            generated_at: "2026-01-01T00:00:00Z".to_string(),
        },
    );
    let source = ChartSource::Registry {
        repo: "https://kubernetes.github.io/ingress-nginx".to_string(),
        chart: "ingress-nginx".to_string(),
        version: "4.12.0".to_string(),
    };
    assert!(!should_skip_chart(
        &"ingress-nginx".to_string(),
        &source,
        Some(&lock),
        "0.3.0",
        type_file_exists,
        ""
    ));
}


#[test]
fn no_skip_chart_husako_version_changed() {
    let type_file_exists = true;
    let lock = make_chart_lock(
        "postgresql",
        ChartLockEntry::ArtifactHub {
            package: "bitnami/postgresql".to_string(),
            version: "16.4.0".to_string(),
            generated_at: "2026-01-01T00:00:00Z".to_string(),
        },
    );
    let source = ChartSource::ArtifactHub {
        package: "bitnami/postgresql".to_string(),
        version: "16.4.0".to_string(),
    };
    assert!(!should_skip_chart(
        &"postgresql".to_string(),
        &source,
        Some(&lock),
        "0.4.0", // different from lock's "0.3.0"
        type_file_exists,
        ""
    ));
}


#[test]
fn skip_plugin_git_unchanged() {
    let dir_exists = true;
    let installed_version = Some("0.2.0");

    let lock = make_plugin_lock(
        "fluxcd",
        PluginLockEntry::Git {
            url: "https://github.com/nanazt/husako".to_string(),
            path: Some("plugins/fluxcd".to_string()),
            plugin_version: "0.2.0".to_string(),
            generated_at: "2026-01-01T00:00:00Z".to_string(),
        },
    );
    let source = PluginSource::Git {
        url: "https://github.com/nanazt/husako".to_string(),
        path: Some("plugins/fluxcd".to_string()),
    };
    assert!(should_skip_plugin(
        &"fluxcd".to_string(),
        &source,
        Some(&lock),
        dir_exists,
        installed_version,
        ""
    ));
}


#[test]
fn skip_plugin_git_url_changed() {
    let dir_exists = true;
    let installed_version = Some("0.2.0");

    let lock = make_plugin_lock(
        "fluxcd",
        PluginLockEntry::Git {
            url: "https://github.com/old/repo".to_string(),
            path: None,
            plugin_version: "0.2.0".to_string(),
            generated_at: "2026-01-01T00:00:00Z".to_string(),
        },
    );
    let source = PluginSource::Git {
        url: "https://github.com/new/repo".to_string(),
        path: None,
    };
    assert!(!should_skip_plugin(
        &"fluxcd".to_string(),
        &source,
        Some(&lock),
        dir_exists,
        installed_version,
        ""
    ));
}


#[test]
fn skip_plugin_plugin_version_changed() {
    let dir_exists = true;
    let installed_version = Some("0.3.0");
    // Installed manifest says 0.3.0, lock says 0.2.0 → don't skip

    let lock = make_plugin_lock(
        "fluxcd",
        PluginLockEntry::Git {
            url: "https://github.com/nanazt/husako".to_string(),
            path: None,
            plugin_version: "0.2.0".to_string(),
            generated_at: "2026-01-01T00:00:00Z".to_string(),
        },
    );
    let source = PluginSource::Git {
        url: "https://github.com/nanazt/husako".to_string(),
        path: None,
    };
    assert!(!should_skip_plugin(
        &"fluxcd".to_string(),
        &source,
        Some(&lock),
        dir_exists,
        installed_version,
        ""
    ));
}


#[test]
fn no_skip_plugin_installed_dir_missing() {
    let dir_exists = false;
    let installed_version = None;
    // Don't create plugin_dir

    let lock = make_plugin_lock(
        "fluxcd",
        PluginLockEntry::Git {
            url: "https://github.com/nanazt/husako".to_string(),
            path: None,
            plugin_version: "0.2.0".to_string(),
            generated_at: "2026-01-01T00:00:00Z".to_string(),
        },
    );
    let source = PluginSource::Git {
        url: "https://github.com/nanazt/husako".to_string(),
        path: None,
    };
    assert!(!should_skip_plugin(
        &"fluxcd".to_string(),
        &source,
        Some(&lock),
        dir_exists,
        installed_version,
        ""
    ));
}

// -----------------------------------------------------------------------
// Hashing
// -----------------------------------------------------------------------

fn tree(files: &[(&str, &[u8])]) -> Vec<(Vec<u8>, Vec<u8>)> {
    files
        .iter()
        .map(|(p, c)| (p.as_bytes().to_vec(), c.to_vec()))
        .collect()
}

#[test]
fn hash_dir_detects_content_change() {
    let h1 = hash_tree(&tree(&[("a.txt", b"hello")]));
    let h2 = hash_tree(&tree(&[("a.txt", b"world")]));
    assert_ne!(h1, h2);
}

#[test]
fn hash_dir_detects_rename() {
    let h1 = hash_tree(&tree(&[("a.txt", b"hello")]));
    let h2 = hash_tree(&tree(&[("b.txt", b"hello")]));
    assert_ne!(h1, h2);
}

#[test]
fn hash_dir_detects_new_file() {
    let h1 = hash_tree(&tree(&[("a.txt", b"hello")]));
    let h2 = hash_tree(&tree(&[("a.txt", b"hello"), ("b.txt", b"world")]));
    assert_ne!(h1, h2);
}

#[test]
fn hash_dir_is_deterministic() {
    let files = tree(&[("a.txt", b"hello"), ("b.txt", b"world")]);
    assert_eq!(hash_tree(&files), hash_tree(&files));
}

#[test]
fn hash_content_known_values() {
    // djb2 of nothing is its seed, 5381
    assert_eq!(hash_content(b""), "0000000000001505");
    // 5381 * 33 + 'a'
    assert_eq!(hash_content(b"a"), "000000000002b606");
    assert_eq!(hash_content(b"a").len(), 16);
}
