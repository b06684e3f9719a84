use husako::add::{
    add_continue, add_start, after_slash, file_stem, format_source_detail, last_path_component,
    repo_name, AddAnswer, AddQuery, AddRequest, AddResult, AddStep,
};
use husako::config::{ChartSource, SchemaSource};
use husako::url_detect::SourceKind;

fn request(url: Option<&str>) -> AddRequest {
    AddRequest {
        url: url.map(|s| s.to_string()),
        extra: None,
        name: None,
        release: None,
        cluster: None,
        version: None,
        tag: None,
        branch: None,
        path_override: None,
        yes: false,
    }
}

#[test]
fn string_helpers() {
    assert_eq!(after_slash("bitnami/postgresql"), "postgresql");
    assert_eq!(after_slash("postgresql"), "postgresql");
    assert_eq!(last_path_component("oci://ghcr.io/org/chart:1.2?x=1#f"), "chart");
    assert_eq!(last_path_component("oci://ghcr.io/org/chart/"), "chart");
    assert_eq!(repo_name("https://github.com/cert-manager/cert-manager.git/"), "cert-manager");
    assert_eq!(file_stem("crds/my-crd.yaml", false), "my-crd");
    assert_eq!(file_stem("charts/nginx", true), "nginx");
}

#[test]
fn release_is_added_at_once() {
    let mut req = request(None);
    req.release = Some("1.35".to_string());
    match add_start(&req) {
        AddStep::Done(AddResult::Resource { name, source: SchemaSource::Release { version }, cluster_config: None }) => {
            assert_eq!(name, "kubernetes");
            assert_eq!(version, "1.35");
        }
        other => panic!("unexpected {other:?}"),
    }
}

#[test]
fn missing_url_and_unknown_input_fail() {
    match add_start(&request(None)) {
        AddStep::Failed(m) => assert!(m.starts_with("url required")),
        other => panic!("unexpected {other:?}"),
    }
    match add_start(&request(Some("foo"))) {
        AddStep::Failed(m) => assert!(m.starts_with("'foo' is not a recognized URL or package\nexamples:")),
        other => panic!("unexpected {other:?}"),
    }
}

#[test]
fn artifacthub_version_lookup() {
    let req = request(Some("bitnami/postgresql"));
    let q = match add_start(&req) {
        AddStep::Ask(q @ AddQuery::LatestArtifactHub { .. }) => q,
        other => panic!("unexpected {other:?}"),
    };
    match add_continue(&req, q, AddAnswer::Version(Ok("16.4.0".to_string()))) {
        AddStep::Done(r) => {
            assert!(matches!(&r, AddResult::Chart { name, .. } if name == "postgresql"));
            assert_eq!(format_source_detail(&r), "artifacthub  bitnami/postgresql @ 16.4.0");
        }
        other => panic!("unexpected {other:?}"),
    }
}

#[test]
fn git_url_looks_up_tag_then_clones() {
    let req = request(Some("https://github.com/cert-manager/cert-manager/deploy/crds"));
    let q = match add_start(&req) {
        AddStep::Ask(q @ AddQuery::LatestGitTag { .. }) => q,
        other => panic!("unexpected {other:?}"),
    };
    let q = match add_continue(&req, q, AddAnswer::MaybeVersion(Ok(Some("v1.17.2".to_string())))) {
        AddStep::Ask(q) => q,
        other => panic!("unexpected {other:?}"),
    };
    match &q {
        AddQuery::CloneAndDetect { repo, reference, path } => {
            assert_eq!(repo, "https://github.com/cert-manager/cert-manager");
            assert_eq!(reference, "v1.17.2");
            assert_eq!(path, "deploy/crds");
        }
        other => panic!("unexpected {other:?}"),
    }
    match add_continue(&req, q, AddAnswer::Kind(Ok(SourceKind::Resource))) {
        AddStep::Done(r) => {
            assert_eq!(format_source_detail(&r), "git  https://github.com/cert-manager/cert-manager @ v1.17.2");
            assert!(matches!(r, AddResult::Resource { name, .. } if name == "cert-manager"));
        }
        other => panic!("unexpected {other:?}"),
    }
}

#[test]
fn git_without_tags_fails() {
    let req = request(Some("https://github.com/org/repo"));
    let q = match add_start(&req) {
        AddStep::Ask(q) => q,
        other => panic!("unexpected {other:?}"),
    };
    match add_continue(&req, q, AddAnswer::MaybeVersion(Ok(None))) {
        AddStep::Failed(m) => assert_eq!(m, "no release tags found in 'https://github.com/org/repo'; use --tag or --branch"),
        other => panic!("unexpected {other:?}"),
    }
}

#[test]
fn registry_needs_chart_name() {
    let req = request(Some("https://charts.jetstack.io"));
    assert!(matches!(add_start(&req), AddStep::Failed(m) if m.starts_with("--name <chart>")));
    let mut req = request(Some("https://charts.jetstack.io"));
    req.extra = Some("cert-manager".to_string());
    let q = match add_start(&req) {
        AddStep::Ask(q) => q,
        other => panic!("unexpected {other:?}"),
    };
    match add_continue(&req, q, AddAnswer::Version(Ok("1.0.0".to_string()))) {
        AddStep::Done(r) => assert_eq!(
            format_source_detail(&r),
            "registry  cert-manager @ 1.0.0  (https://charts.jetstack.io)"
        ),
        other => panic!("unexpected {other:?}"),
    }
}

#[test]
fn oci_with_version_is_added_at_once() {
    let mut req = request(Some("oci://ghcr.io/org/pg"));
    req.version = Some("1.2.3".to_string());
    match add_start(&req) {
        AddStep::Done(AddResult::Chart { name, source: ChartSource::Oci { reference, version } }) => {
            assert_eq!(name, "pg");
            assert_eq!(reference, "oci://ghcr.io/org/pg");
            assert_eq!(version, "1.2.3");
        }
        other => panic!("unexpected {other:?}"),
    }
}

#[test]
fn cluster_flow_confirms_and_records_kubeconfig_server() {
    let mut req = request(None);
    req.cluster = Some("dev".to_string());
    let q = match add_start(&req) {
        AddStep::Ask(q @ AddQuery::ClusterServer { .. }) => q,
        other => panic!("unexpected {other:?}"),
    };
    let answer = AddAnswer::Servers { from_config: None, from_kubeconfig: Some("https://dev:6443".to_string()) };
    let q = match add_continue(&req, q, answer) {
        AddStep::Ask(q @ AddQuery::ConfirmCluster { .. }) => q,
        other => panic!("unexpected {other:?}"),
    };
    match add_continue(&req, q, AddAnswer::Confirmed(true)) {
        AddStep::Done(AddResult::Resource { name, source: SchemaSource::Cluster { cluster }, cluster_config: Some(c) }) => {
            assert_eq!(name, "dev");
            assert_eq!(cluster.as_deref(), Some("dev"));
            assert_eq!(c.server, "https://dev:6443");
        }
        other => panic!("unexpected {other:?}"),
    }
}

#[test]
fn cluster_not_configured() {
    let mut req = request(None);
    req.cluster = Some("dev".to_string());
    req.yes = true;
    let q = match add_start(&req) {
        AddStep::Ask(q) => q,
        other => panic!("unexpected {other:?}"),
    };
    match add_continue(&req, q, AddAnswer::Servers { from_config: None, from_kubeconfig: None }) {
        AddStep::Failed(m) => assert_eq!(
            m,
            "cluster \"dev\" is not configured \u{2014} add [clusters.dev] to husako.toml or ensure context \"dev\" exists in kubeconfig"
        ),
        other => panic!("unexpected {other:?}"),
    }
    let mut req = request(None);
    req.cluster = Some(String::new());
    req.yes = true;
    let q = match add_start(&req) {
        AddStep::Ask(q) => q,
        other => panic!("unexpected {other:?}"),
    };
    // under --yes the cluster is still shown, and going on needs no answer
    let q = match add_continue(&req, q, AddAnswer::Servers { from_config: Some("https://a".to_string()), from_kubeconfig: None }) {
        AddStep::Ask(q @ AddQuery::ConfirmCluster { ask: false, .. }) => q,
        other => panic!("unexpected {other:?}"),
    };
    match add_continue(&req, q, AddAnswer::Confirmed(true)) {
        AddStep::Done(AddResult::Resource { name, cluster_config: None, .. }) => assert_eq!(name, "cluster"),
        other => panic!("unexpected {other:?}"),
    }
}

#[test]
fn local_path_is_detected() {
    let req = request(Some("./crds/my-crd.yaml"));
    let q = match add_start(&req) {
        AddStep::Ask(q @ AddQuery::DetectLocal { .. }) => q,
        other => panic!("unexpected {other:?}"),
    };
    match add_continue(&req, q, AddAnswer::LocalKind { kind: Ok(SourceKind::Resource), is_dir: false }) {
        AddStep::Done(r) => {
            assert!(matches!(&r, AddResult::Resource { name, .. } if name == "my-crd"));
            assert_eq!(format_source_detail(&r), "file  ./crds/my-crd.yaml");
        }
        other => panic!("unexpected {other:?}"),
    }
}
