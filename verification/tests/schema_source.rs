use husako::config::{ClusterConfig, HusakoConfig};
use husako::schema_source::{
    cache_file_name, cache_key_of, cluster_server, crd_documents, derive_discovery_key, group_by_key,
    schema_key,
    simple_hash,
};

#[test]
fn derive_discovery_key_from_name() {
    assert_eq!(
        derive_discovery_key("io.cert-manager.v1.CertificateSpec"),
        "apis/cert-manager.io/v1"
    );
    assert_eq!(
        derive_discovery_key("io.cnpg.postgresql.v1.ClusterSpec"),
        "apis/postgresql.cnpg.io/v1"
    );
}

#[test]
fn simple_hash_deterministic() {
    let h1 = simple_hash("https://github.com/cert-manager/cert-manager");
    let h2 = simple_hash("https://github.com/cert-manager/cert-manager");
    assert_eq!(h1, h2);
    assert_eq!(h1.len(), 16);
}

#[test]
fn schema_key_from_group_version_kind() {
    assert_eq!(
        schema_key("io.cert-manager.v1.Certificate", Some(("cert-manager.io", "v1"))),
        "apis/cert-manager.io/v1"
    );
    assert_eq!(schema_key("x", Some(("", "v1"))), "api/v1");
    assert_eq!(
        schema_key("io.cert-manager.v1.CertificateSpec", None),
        "apis/cert-manager.io/v1"
    );
}

#[test]
fn group_by_key_keeps_first_order() {
    let pairs = vec![
        ("A".to_string(), "apis/a/v1".to_string()),
        ("B".to_string(), "apis/b/v1".to_string()),
        ("C".to_string(), "apis/a/v1".to_string()),
    ];
    let g = group_by_key(&pairs);
    assert_eq!(g.len(), 2);
    assert_eq!(g[0].0, "apis/a/v1");
    assert_eq!(g[0].1, vec!["A".to_string(), "C".to_string()]);
    assert_eq!(g[1].0, "apis/b/v1");
    assert_eq!(g[1].1, vec!["B".to_string()]);
}

#[test]
fn cache_file_names_round_trip() {
    let name = cache_file_name("apis/cert-manager.io/v1");
    assert_eq!(name, "apis__cert-manager.io__v1.json");
    assert_eq!(cache_key_of("apis__cert-manager.io__v1"), "apis/cert-manager.io/v1");
}

#[test]
fn cluster_server_choice() {
    let mut config = HusakoConfig::default();
    assert_eq!(
        cluster_server(&config, None),
        Err("no [cluster] section in config".to_string())
    );
    config.cluster = Some(ClusterConfig { server: "https://main:6443".to_string() });
    config.clusters.push((
        "dev".to_string(),
        ClusterConfig { server: "https://dev:6443".to_string() },
    ));
    assert_eq!(cluster_server(&config, None), Ok("https://main:6443".to_string()));
    assert_eq!(cluster_server(&config, Some("dev")), Ok("https://dev:6443".to_string()));
    assert_eq!(
        cluster_server(&config, Some("prod")),
        Err("cluster 'prod' not found in config".to_string())
    );
}

#[test]
fn crd_documents_in_name_order() {
    let files = vec![
        ("b.yaml".to_string(), "kind: B".to_string()),
        ("a.yml".to_string(), "kind: A".to_string()),
    ];
    assert_eq!(crd_documents(&files, "/crds"), Ok("kind: A\n---\nkind: B".to_string()));
    assert_eq!(
        crd_documents(&Vec::new(), "/crds"),
        Err("no .yaml/.yml files found in /crds".to_string())
    );
}

#[test]
fn crd_dir_reading_empty_dir() {
    let err = crd_documents(&Vec::new(), "/tmp/x/empty").unwrap_err();
    assert!(err.contains("no .yaml/.yml files"));
}

#[test]
fn git_cache_round_trip() {
    // the cache file `apis__example.com__v1.json` holds the key it was written for
    let name = cache_file_name("apis/example.com/v1");
    assert_eq!(name, "apis__example.com__v1.json");
    assert_eq!(cache_key_of(name.trim_end_matches(".json")), "apis/example.com/v1");
}
