//! `husako add`: from what the user typed to the dependency that is added.
//! Looking versions up, cloning and reading files is done by the caller;
//! the decisions between those steps are taken here.
use vstd::prelude::*;

use crate::config::{ChartSource, SchemaSource};
use crate::text::{
    after_last, after_last_char, before_first, before_first_char, chars_of, push_str, string_from,
    trim_end_char, trim_end_char_matches, trim_end_matches, trim_end_seq,
};
use crate::url_detect::{detect_url, opt_view, spec_detect_url, Detected, SourceKind, UrlDetected};

verus! {

// ---------------------------------------------------------------------------
// Names derived from sources
// ---------------------------------------------------------------------------

/// The part after the last `/` (the whole text when there is none).
pub fn after_slash(s: &str) -> (r: String)
    ensures
        r@ == after_last(s@, '/'),
{
    let v = chars_of(s);
    string_from(&after_last_char(&v, '/'))
}

/// The last path segment of a reference, without query, fragment,
/// trailing slashes or `:tag`.
pub open spec fn spec_last_path_component(s: Seq<char>) -> Seq<char> {
    before_first(after_last(trim_end_char(before_first(before_first(s, '?'), '#'), '/'), '/'), ':')
}

pub fn last_path_component(s: &str) -> (r: String)
    ensures
        r@ == spec_last_path_component(s@),
{
    let v = chars_of(s);
    let a = before_first_char(&v, '?');
    let b = before_first_char(&a, '#');
    let c = trim_end_char_matches(&b, '/');
    let d = after_last_char(&c, '/');
    string_from(&before_first_char(&d, ':'))
}

/// The repository's name: the last segment of its URL, without `.git`.
pub open spec fn spec_repo_name(url: Seq<char>) -> Seq<char> {
    trim_end_seq(after_last(trim_end_char(url, '/'), '/'), ".git"@)
}

pub fn repo_name(url: &str) -> (r: String)
    ensures
        r@ == spec_repo_name(url@),
{
    let v = chars_of(url);
    let a = trim_end_char_matches(&v, '/');
    let b = after_last_char(&a, '/');
    let git = chars_of(".git");
    string_from(&trim_end_matches(&b, &git))
}

/// What `std::path::Path::file_name` gives for `path`, as text.
pub uninterp spec fn path_file_name(path: Seq<char>) -> Option<Seq<char>>;

/// What `std::path::Path::file_stem` gives for `path`, as text.
pub uninterp spec fn path_file_stem(path: Seq<char>) -> Option<Seq<char>>;

/// Calls `std::path::Path::file_name` (the last component of the path,
/// `None` when it ends in `..`) and keeps it when it is valid UTF-8. What it
/// is on given text is left to std.
#[verifier::external_body]
fn file_name_of(path: &str) -> (r: Option<String>)
    ensures
        opt_view(r) == path_file_name(path@),
{
    std::path::Path::new(path).file_name().and_then(|n| n.to_str()).map(|n| n.to_string())
}

/// Calls `std::path::Path::file_stem` (the file name without its last
/// extension) and keeps it when it is valid UTF-8. What it is on given text
/// is left to std.
#[verifier::external_body]
fn file_stem_of(path: &str) -> (r: Option<String>)
    ensures
        opt_view(r) == path_file_stem(path@),
{
    std::path::Path::new(path).file_stem().and_then(|n| n.to_str()).map(|n| n.to_string())
}

/// The name a local source is added under: a directory's name, or a file's
/// name without extension; the path itself when there is none.
pub open spec fn spec_file_stem(path: Seq<char>, is_dir: bool) -> Seq<char> {
    let n = if is_dir {
        path_file_name(path)
    } else {
        path_file_stem(path)
    };
    match n {
        Some(x) => x,
        None => path,
    }
}

pub fn file_stem(path: &str, is_dir: bool) -> (r: String)
    ensures
        r@ == spec_file_stem(path@, is_dir),
{
    let n = if is_dir {
        file_name_of(path)
    } else {
        file_stem_of(path)
    };
    match n {
        Some(x) => x,
        None => string_from(&chars_of(path)),
    }
}

// ---------------------------------------------------------------------------
// What is added
// ---------------------------------------------------------------------------

/// A cluster connection to write to `husako.toml` along with the resource.
#[derive(Debug)]
pub struct ClusterConfigToAdd {
    /// `None` for `[cluster]`, else the name under `[clusters]`.
    pub cluster_name: Option<String>,
    pub server: String,
}

/// The dependency to add.
#[derive(Debug)]
#[allow(inconsistent_fields)]
pub enum AddResult {
    Resource { name: String, source: SchemaSource, cluster_config: Option<ClusterConfigToAdd> },
    Chart { name: String, source: ChartSource },
}

/// The line that describes an added dependency's source.
pub open spec fn spec_source_detail(r: AddResult) -> Seq<char> {
    match r {
        AddResult::Resource { source, .. } => match source {
            SchemaSource::Release { version } => "release  "@ + version@,
            SchemaSource::Cluster { cluster } => "cluster  "@ + match cluster {
                Some(c) => c@,
                None => "default"@,
            },
            SchemaSource::Git { repo, tag, .. } => "git  "@ + repo@ + " @ "@ + tag@,
            SchemaSource::File { path } => "file  "@ + path@,
        },
        AddResult::Chart { source, .. } => match source {
            ChartSource::ArtifactHub { package, version } => "artifacthub  "@ + package@ + " @ "@
                + version@,
            ChartSource::Registry { repo, chart, version } => "registry  "@ + chart@ + " @ "@
                + version@ + "  ("@ + repo@ + ")"@,
            ChartSource::Oci { reference, version } => "oci  "@ + reference@ + " @ "@ + version@,
            ChartSource::Git { repo, tag, .. } => "git  "@ + repo@ + " @ "@ + tag@,
            ChartSource::File { path } => "file  "@ + path@,
        },
    }
}

/// Describes the source of an added dependency.
pub fn format_source_detail(result: &AddResult) -> (r: String)
    ensures
        r@ == spec_source_detail(*result),
{
    let mut out: Vec<char> = Vec::new();
    match result {
        AddResult::Resource { source, .. } => match source {
            SchemaSource::Release { version } => {
                push_str(&mut out, "release  ");
                push_str(&mut out, version.as_str());
            },
            SchemaSource::Cluster { cluster } => {
                push_str(&mut out, "cluster  ");
                match cluster {
                    Some(c) => push_str(&mut out, c.as_str()),
                    None => push_str(&mut out, "default"),
                }
            },
            SchemaSource::Git { repo, tag, .. } => {
                push_str(&mut out, "git  ");
                push_str(&mut out, repo.as_str());
                push_str(&mut out, " @ ");
                push_str(&mut out, tag.as_str());
            },
            SchemaSource::File { path } => {
                push_str(&mut out, "file  ");
                push_str(&mut out, path.as_str());
            },
        },
        AddResult::Chart { source, .. } => match source {
            ChartSource::ArtifactHub { package, version } => {
                push_str(&mut out, "artifacthub  ");
                push_str(&mut out, package.as_str());
                push_str(&mut out, " @ ");
                push_str(&mut out, version.as_str());
            },
            ChartSource::Registry { repo, chart, version } => {
                push_str(&mut out, "registry  ");
                push_str(&mut out, chart.as_str());
                push_str(&mut out, " @ ");
                push_str(&mut out, version.as_str());
                push_str(&mut out, "  (");
                push_str(&mut out, repo.as_str());
                push_str(&mut out, ")");
            },
            ChartSource::Oci { reference, version } => {
                push_str(&mut out, "oci  ");
                push_str(&mut out, reference.as_str());
                push_str(&mut out, " @ ");
                push_str(&mut out, version.as_str());
            },
            ChartSource::Git { repo, tag, .. } => {
                push_str(&mut out, "git  ");
                push_str(&mut out, repo.as_str());
                push_str(&mut out, " @ ");
                push_str(&mut out, tag.as_str());
            },
            ChartSource::File { path } => {
                push_str(&mut out, "file  ");
                push_str(&mut out, path.as_str());
            },
        },
    }
    let r = string_from(&out);
    assert(r@ =~= spec_source_detail(*result));
    r
}

// ---------------------------------------------------------------------------
// From the request to the dependency, step by step
// ---------------------------------------------------------------------------

/// What the user asked `husako add` for.
#[derive(Debug)]
pub struct AddRequest {
    /// A URL, package, OCI reference or local path.
    pub url: Option<String>,
    /// The chart name given after a Helm repository URL.
    pub extra: Option<String>,
    pub name: Option<String>,
    /// A Kubernetes release (`--release`).
    pub release: Option<String>,
    /// A cluster (`--cluster`); empty for the default one.
    pub cluster: Option<String>,
    /// A version, or version prefix to look the newest up by.
    pub version: Option<String>,
    pub tag: Option<String>,
    pub branch: Option<String>,
    /// The path inside a git repository (`--path`).
    pub path_override: Option<String>,
    /// Do not ask for confirmation.
    pub yes: bool,
}

/// Something only the caller can find out.
#[derive(Debug)]
pub enum AddQuery {
    /// The server of the cluster: from `husako.toml`, else from kubeconfig
    /// (`None` for the default cluster or context).
    ClusterServer { cluster: Option<String> },
    /// Show the cluster and its server, which is done also under `--yes`
    /// for the record; then, when `ask`, whether to go on with adding every
    /// CRD of the cluster (without asking, the answer is to go on).
    ConfirmCluster { cluster: Option<String>, server: String, kubeconfig_server: Option<String>, ask: bool },
    LatestArtifactHub { package: String, prefix: Option<String> },
    LatestOci { reference: String },
    LatestGitTag { repo: String, prefix: Option<String>, path: String },
    /// Clone `repo` at `reference` and tell what lies at `path`.
    CloneAndDetect { repo: String, reference: String, path: String },
    LatestRegistry { repo: String, chart: String, prefix: Option<String> },
    /// Tell what lies at a local path, and whether it is a directory.
    DetectLocal { path: String },
}

/// The caller's answer to a query.
#[derive(Debug)]
pub enum AddAnswer {
    Servers { from_config: Option<String>, from_kubeconfig: Option<String> },
    Confirmed(bool),
    Version(Result<String, String>),
    MaybeVersion(Result<Option<String>, String>),
    Kind(Result<SourceKind, String>),
    LocalKind { kind: Result<SourceKind, String>, is_dir: bool },
}

/// Where `husako add` stands.
#[derive(Debug)]
pub enum AddStep {
    Done(AddResult),
    Cancelled,
    Failed(String),
    Ask(AddQuery),
}

pub enum SourceView {
    Release(Seq<char>),
    Cluster(Option<Seq<char>>),
    Git(Seq<char>, Seq<char>, Seq<char>),
    File(Seq<char>),
    ArtifactHub(Seq<char>, Seq<char>),
    Registry(Seq<char>, Seq<char>, Seq<char>),
    Oci(Seq<char>, Seq<char>),
}

pub enum ResultView {
    /// Name, source, and the cluster connection to write (name, server).
    Resource(Seq<char>, SourceView, Option<(Option<Seq<char>>, Seq<char>)>),
    Chart(Seq<char>, SourceView),
}

pub enum QueryView {
    ClusterServer(Option<Seq<char>>),
    ConfirmCluster(Option<Seq<char>>, Seq<char>, Option<Seq<char>>, bool),
    LatestArtifactHub(Seq<char>, Option<Seq<char>>),
    LatestOci(Seq<char>),
    LatestGitTag(Seq<char>, Option<Seq<char>>, Seq<char>),
    CloneAndDetect(Seq<char>, Seq<char>, Seq<char>),
    LatestRegistry(Seq<char>, Seq<char>, Option<Seq<char>>),
    DetectLocal(Seq<char>),
}

pub enum StepView {
    Done(ResultView),
    Cancelled,
    Failed(Seq<char>),
    Ask(QueryView),
}

pub open spec fn resource_source_view(s: SchemaSource) -> SourceView {
    match s {
        SchemaSource::Release { version } => SourceView::Release(version@),
        SchemaSource::Cluster { cluster } => SourceView::Cluster(opt_view(cluster)),
        SchemaSource::Git { repo, tag, path } => SourceView::Git(repo@, tag@, path@),
        SchemaSource::File { path } => SourceView::File(path@),
    }
}

pub open spec fn chart_source_view(s: ChartSource) -> SourceView {
    match s {
        ChartSource::Registry { repo, chart, version } => SourceView::Registry(repo@, chart@, version@),
        ChartSource::ArtifactHub { package, version } => SourceView::ArtifactHub(package@, version@),
        ChartSource::File { path } => SourceView::File(path@),
        ChartSource::Git { repo, tag, path } => SourceView::Git(repo@, tag@, path@),
        ChartSource::Oci { reference, version } => SourceView::Oci(reference@, version@),
    }
}

pub open spec fn result_view(r: AddResult) -> ResultView {
    match r {
        AddResult::Resource { name, source, cluster_config } => ResultView::Resource(
            name@,
            resource_source_view(source),
            match cluster_config {
                Some(c) => Some((opt_view(c.cluster_name), c.server@)),
                None => None,
            },
        ),
        AddResult::Chart { name, source } => ResultView::Chart(name@, chart_source_view(source)),
    }
}

pub open spec fn query_view(q: AddQuery) -> QueryView {
    match q {
        AddQuery::ClusterServer { cluster } => QueryView::ClusterServer(opt_view(cluster)),
        AddQuery::ConfirmCluster { cluster, server, kubeconfig_server, ask } => QueryView::ConfirmCluster(
            opt_view(cluster),
            server@,
            opt_view(kubeconfig_server),
            ask,
        ),
        AddQuery::LatestArtifactHub { package, prefix } => QueryView::LatestArtifactHub(
            package@,
            opt_view(prefix),
        ),
        AddQuery::LatestOci { reference } => QueryView::LatestOci(reference@),
        AddQuery::LatestGitTag { repo, prefix, path } => QueryView::LatestGitTag(
            repo@,
            opt_view(prefix),
            path@,
        ),
        AddQuery::CloneAndDetect { repo, reference, path } => QueryView::CloneAndDetect(
            repo@,
            reference@,
            path@,
        ),
        AddQuery::LatestRegistry { repo, chart, prefix } => QueryView::LatestRegistry(
            repo@,
            chart@,
            opt_view(prefix),
        ),
        AddQuery::DetectLocal { path } => QueryView::DetectLocal(path@),
    }
}

pub open spec fn step_view(s: AddStep) -> StepView {
    match s {
        AddStep::Done(r) => StepView::Done(result_view(r)),
        AddStep::Cancelled => StepView::Cancelled,
        AddStep::Failed(m) => StepView::Failed(m@),
        AddStep::Ask(q) => StepView::Ask(query_view(q)),
    }
}

/// `o`, or `d` when it is `None`.
pub open spec fn or_else(o: Option<Seq<char>>, d: Seq<char>) -> Seq<char> {
    match o {
        Some(x) => x,
        None => d,
    }
}

pub open spec fn or_opt(a: Option<Seq<char>>, b: Option<Seq<char>>) -> Option<Seq<char>> {
    match a {
        Some(x) => Some(x),
        None => b,
    }
}

pub open spec fn url_required_message() -> Seq<char> {
    "url required, or use --release <version> / --cluster [name]\nsee: husako add --help"@
}

pub open spec fn unrecognized_message(input: Seq<char>) -> Seq<char> {
    "'"@ + input
        + "' is not a recognized URL or package\nexamples:\n  husako add bitnami/postgresql\n  husako add https://github.com/cert-manager/cert-manager\n  husako add --release 1.35"@
}

pub open spec fn chart_name_required_message() -> Seq<char> {
    "--name <chart> or second argument required for registry URL\nexamples:\n  husako add https://charts.example.com cert-manager\n  husako add https://charts.example.com --name cert-manager"@
}

/// The cluster a `--cluster` value names: none for the default one.
pub open spec fn cluster_of(value: Seq<char>) -> Option<Seq<char>> {
    if value.len() == 0 {
        None
    } else {
        Some(value)
    }
}

/// The first step of `husako add`.
pub open spec fn spec_add_start(req: AddRequest) -> StepView {
    match req.release {
        Some(ver) => StepView::Done(
            ResultView::Resource(or_else(opt_view(req.name), "kubernetes"@), SourceView::Release(ver@), None),
        ),
        None => match req.cluster {
            Some(c) => StepView::Ask(QueryView::ClusterServer(cluster_of(c@))),
            None => match req.url {
                None => StepView::Failed(url_required_message()),
                Some(u) => match spec_detect_url(u@) {
                    None => StepView::Failed(unrecognized_message(u@)),
                    Some(Detected::ArtifactHub(p)) => StepView::Ask(
                        QueryView::LatestArtifactHub(p, opt_view(req.version)),
                    ),
                    Some(Detected::Oci(r)) => match req.version {
                        Some(v) => StepView::Done(
                            ResultView::Chart(
                                or_else(opt_view(req.name), spec_last_path_component(r)),
                                SourceView::Oci(r, v@),
                            ),
                        ),
                        None => StepView::Ask(QueryView::LatestOci(r)),
                    },
                    Some(Detected::Git(repo, sub, br)) => {
                        let path = or_else(or_opt(opt_view(req.path_override), sub), "."@);
                        match or_opt(opt_view(req.branch), br) {
                            Some(b) => StepView::Ask(QueryView::CloneAndDetect(repo, b, path)),
                            None => match req.tag {
                                Some(t) => StepView::Ask(QueryView::CloneAndDetect(repo, t@, path)),
                                None => StepView::Ask(
                                    QueryView::LatestGitTag(repo, opt_view(req.version), path),
                                ),
                            },
                        }
                    },
                    Some(Detected::HelmRegistry(repo)) => match or_opt(
                        opt_view(req.name),
                        opt_view(req.extra),
                    ) {
                        None => StepView::Failed(chart_name_required_message()),
                        Some(chart) => StepView::Ask(
                            QueryView::LatestRegistry(repo, chart, opt_view(req.version)),
                        ),
                    },
                    Some(Detected::LocalPath(p)) => StepView::Ask(QueryView::DetectLocal(p)),
                },
            },
        },
    }
}

/// Writes `s` as `format!("{:?}", s)` does.
pub uninterp spec fn debug_text(s: Seq<char>) -> Seq<char>;

/// `format!("{:?}", s)`: the text in double quotes, with the escapes that
/// Rust's `Debug` for `str` writes. What they are is left to std.
#[verifier::external_body]
fn debug_quoted(s: &str) -> (r: String)
    ensures
        r@ == debug_text(s@),
{
    format!("{:?}", s)
}

pub open spec fn cluster_not_configured_message(value: Seq<char>) -> Seq<char> {
    if value.len() == 0 {
        "cluster is not configured \u{2014} add [cluster] to husako.toml or set a current-context in kubeconfig"@
    } else {
        "cluster "@ + debug_text(value) + " is not configured \u{2014} add [clusters."@ + value
            + "] to husako.toml or ensure context "@ + debug_text(value) + " exists in kubeconfig"@
    }
}

pub open spec fn cluster_result(req: AddRequest, cluster: Option<Seq<char>>, kube: Option<Seq<char>>) -> ResultView {
    ResultView::Resource(
        or_else(opt_view(req.name), or_else(cluster, "cluster"@)),
        SourceView::Cluster(cluster),
        match kube {
            Some(s) => Some((cluster, s)),
            None => None,
        },
    )
}

/// The step after the caller answered `q` with `a`.
pub open spec fn spec_add_continue(req: AddRequest, q: AddQuery, a: AddAnswer) -> StepView {
    match (q, a) {
        (AddQuery::ClusterServer { cluster }, AddAnswer::Servers { from_config, from_kubeconfig }) => {
            let kube = if from_config is None {
                opt_view(from_kubeconfig)
            } else {
                None
            };
            match or_opt(opt_view(from_config), kube) {
                None => StepView::Failed(cluster_not_configured_message(or_else(opt_view(cluster), Seq::empty()))),
                Some(server) => StepView::Ask(QueryView::ConfirmCluster(opt_view(cluster), server, kube, !req.yes)),
            }
        },
        (AddQuery::ConfirmCluster { cluster, kubeconfig_server, .. }, AddAnswer::Confirmed(yes)) => if yes {
            StepView::Done(cluster_result(req, opt_view(cluster), opt_view(kubeconfig_server)))
        } else {
            StepView::Cancelled
        },
        (AddQuery::LatestArtifactHub { package, .. }, AddAnswer::Version(v)) => match v {
            Ok(ver) => StepView::Done(
                ResultView::Chart(
                    or_else(opt_view(req.name), after_last(package@, '/')),
                    SourceView::ArtifactHub(package@, ver@),
                ),
            ),
            Err(e) => StepView::Failed(e@),
        },
        (AddQuery::LatestOci { reference }, AddAnswer::MaybeVersion(v)) => match v {
            Ok(Some(ver)) => StepView::Done(
                ResultView::Chart(
                    or_else(opt_view(req.name), spec_last_path_component(reference@)),
                    SourceView::Oci(reference@, ver@),
                ),
            ),
            Ok(None) => StepView::Failed(
                "could not detect latest version for '"@ + reference@ + "'; use --version"@,
            ),
            Err(e) => StepView::Failed(e@),
        },
        (AddQuery::LatestGitTag { repo, path, .. }, AddAnswer::MaybeVersion(v)) => match v {
            Ok(Some(t)) => StepView::Ask(QueryView::CloneAndDetect(repo@, t@, path@)),
            Ok(None) => StepView::Failed(
                "no release tags found in '"@ + repo@ + "'; use --tag or --branch"@,
            ),
            Err(e) => StepView::Failed(e@),
        },
        (AddQuery::CloneAndDetect { repo, reference, path }, AddAnswer::Kind(k)) => match k {
            Ok(SourceKind::Resource) => StepView::Done(
                ResultView::Resource(
                    or_else(opt_view(req.name), spec_repo_name(repo@)),
                    SourceView::Git(repo@, reference@, path@),
                    None,
                ),
            ),
            Ok(SourceKind::Chart) => StepView::Done(
                ResultView::Chart(
                    or_else(opt_view(req.name), spec_repo_name(repo@)),
                    SourceView::Git(repo@, reference@, path@),
                ),
            ),
            Err(e) => StepView::Failed(e@),
        },
        (AddQuery::LatestRegistry { repo, chart, .. }, AddAnswer::Version(v)) => match v {
            Ok(ver) => StepView::Done(
                ResultView::Chart(chart@, SourceView::Registry(repo@, chart@, ver@)),
            ),
            Err(e) => StepView::Failed(e@),
        },
        (AddQuery::DetectLocal { path }, AddAnswer::LocalKind { kind, is_dir }) => match kind {
            Ok(SourceKind::Resource) => StepView::Done(
                ResultView::Resource(
                    or_else(opt_view(req.name), spec_file_stem(path@, is_dir)),
                    SourceView::File(path@),
                    None,
                ),
            ),
            Ok(SourceKind::Chart) => StepView::Done(
                ResultView::Chart(
                    or_else(opt_view(req.name), spec_file_stem(path@, is_dir)),
                    SourceView::File(path@),
                ),
            ),
            Err(e) => StepView::Failed(e@),
        },
        _ => StepView::Failed(Seq::empty()),
    }
}

/// The answer is of the kind the query asks for.
pub open spec fn answers(q: AddQuery, a: AddAnswer) -> bool {
    match q {
        AddQuery::ClusterServer { .. } => a is Servers,
        AddQuery::ConfirmCluster { .. } => a is Confirmed,
        AddQuery::LatestArtifactHub { .. } => a is Version,
        AddQuery::LatestOci { .. } => a is MaybeVersion,
        AddQuery::LatestGitTag { .. } => a is MaybeVersion,
        AddQuery::CloneAndDetect { .. } => a is Kind,
        AddQuery::LatestRegistry { .. } => a is Version,
        AddQuery::DetectLocal { .. } => a is LocalKind,
    }
}

fn clone_opt(o: &Option<String>) -> (r: Option<String>)
    ensures
        opt_view(r) == opt_view(*o),
{
    match o {
        Some(s) => Some(s.clone()),
        None => None,
    }
}

fn name_or(name: &Option<String>, default: String) -> (r: String)
    ensures
        r@ == or_else(opt_view(*name), default@),
{
    match name {
        Some(n) => n.clone(),
        None => default,
    }
}

/// The first step of `husako add`: done already for a release, otherwise
/// the first thing to find out (or why the request cannot be served).
pub fn add_start(req: &AddRequest) -> (r: AddStep)
    ensures
        step_view(r) == spec_add_start(*req),
{
    if let Some(ver) = &req.release {
        let name = name_or(&req.name, String::from_str("kubernetes"));
        return AddStep::Done(
            AddResult::Resource {
                name,
                source: SchemaSource::Release { version: ver.clone() },
                cluster_config: None,
            },
        );
    }
    if let Some(c) = &req.cluster {
        let cluster = if c.as_str().unicode_len() == 0 {
            None
        } else {
            Some(c.clone())
        };
        return AddStep::Ask(AddQuery::ClusterServer { cluster });
    }
    let input = match &req.url {
        None => {
            return AddStep::Failed(
                String::from_str("url required, or use --release <version> / --cluster [name]\nsee: husako add --help"),
            );
        },
        Some(u) => u,
    };
    match detect_url(input.as_str()) {
        None => {
            let mut out: Vec<char> = Vec::new();
            push_str(&mut out, "'");
            push_str(&mut out, input.as_str());
            push_str(
                &mut out,
                "' is not a recognized URL or package\nexamples:\n  husako add bitnami/postgresql\n  husako add https://github.com/cert-manager/cert-manager\n  husako add --release 1.35",
            );
            let m = string_from(&out);
            assert(m@ =~= unrecognized_message(input@));
            AddStep::Failed(m)
        },
        Some(UrlDetected::ArtifactHub { package }) => AddStep::Ask(
            AddQuery::LatestArtifactHub { package, prefix: clone_opt(&req.version) },
        ),
        Some(UrlDetected::Oci { reference }) => match &req.version {
            Some(v) => {
                let name = name_or(&req.name, last_path_component(reference.as_str()));
                AddStep::Done(
                    AddResult::Chart { name, source: ChartSource::Oci { reference, version: v.clone() } },
                )
            },
            None => AddStep::Ask(AddQuery::LatestOci { reference }),
        },
        Some(UrlDetected::Git { repo, sub_path, branch }) => {
            let path = match &req.path_override {
                Some(p) => p.clone(),
                None => match sub_path {
                    Some(sp) => sp,
                    None => String::from_str("."),
                },
            };
            let effective = match &req.branch {
                Some(b) => Some(b.clone()),
                None => branch,
            };
            match effective {
                Some(b) => AddStep::Ask(AddQuery::CloneAndDetect { repo, reference: b, path }),
                None => match &req.tag {
                    Some(t) => AddStep::Ask(AddQuery::CloneAndDetect { repo, reference: t.clone(), path }),
                    None => AddStep::Ask(
                        AddQuery::LatestGitTag { repo, prefix: clone_opt(&req.version), path },
                    ),
                },
            }
        },
        Some(UrlDetected::HelmRegistry { repo }) => {
            let chart = match &req.name {
                Some(n) => Some(n.clone()),
                None => clone_opt(&req.extra),
            };
            match chart {
                None => AddStep::Failed(
                    String::from_str(
                        "--name <chart> or second argument required for registry URL\nexamples:\n  husako add https://charts.example.com cert-manager\n  husako add https://charts.example.com --name cert-manager",
                    ),
                ),
                Some(chart) => AddStep::Ask(
                    AddQuery::LatestRegistry { repo, chart, prefix: clone_opt(&req.version) },
                ),
            }
        },
        Some(UrlDetected::LocalPath { path }) => AddStep::Ask(AddQuery::DetectLocal { path }),
    }
}

fn cluster_done(req: &AddRequest, cluster: Option<String>, kube: Option<String>) -> (r: AddStep)
    ensures
        step_view(r) == StepView::Done(cluster_result(*req, opt_view(cluster), opt_view(kube))),
{
    let name = match &req.name {
        Some(n) => n.clone(),
        None => match &cluster {
            Some(c) => c.clone(),
            None => String::from_str("cluster"),
        },
    };
    let cluster_config = match kube {
        Some(server) => Some(ClusterConfigToAdd { cluster_name: clone_opt(&cluster), server }),
        None => None,
    };
    AddStep::Done(AddResult::Resource { name, source: SchemaSource::Cluster { cluster }, cluster_config })
}

/// The step after the caller answered `query` with `answer`.
pub fn add_continue(req: &AddRequest, query: AddQuery, answer: AddAnswer) -> (r: AddStep)
    requires
        answers(query, answer),
    ensures
        step_view(r) == spec_add_continue(*req, query, answer),
{
    let ghost q0 = query;
    let ghost a0 = answer;
    match (query, answer) {
        (AddQuery::ClusterServer { cluster }, AddAnswer::Servers { from_config, from_kubeconfig }) => {
            let kube = if from_config.is_none() {
                from_kubeconfig
            } else {
                None
            };
            let server = match &from_config {
                Some(s) => Some(s.clone()),
                None => clone_opt(&kube),
            };
            match server {
                None => {
                    let value = match &cluster {
                        Some(c) => c.clone(),
                        None => String::new(),
                    };
                    let mut out: Vec<char> = Vec::new();
                    if value.as_str().unicode_len() == 0 {
                        push_str(
                            &mut out,
                            "cluster is not configured \u{2014} add [cluster] to husako.toml or set a current-context in kubeconfig",
                        );
                    } else {
                        let q = debug_quoted(value.as_str());
                        push_str(&mut out, "cluster ");
                        push_str(&mut out, q.as_str());
                        push_str(&mut out, " is not configured \u{2014} add [clusters.");
                        push_str(&mut out, value.as_str());
                        push_str(&mut out, "] to husako.toml or ensure context ");
                        push_str(&mut out, q.as_str());
                        push_str(&mut out, " exists in kubeconfig");
                    }
                    let m = string_from(&out);
                    assert(m@ =~= cluster_not_configured_message(value@));
                    AddStep::Failed(m)
                },
                Some(server) => AddStep::Ask(
                    AddQuery::ConfirmCluster { cluster, server, kubeconfig_server: kube, ask: !req.yes },
                ),
            }
        },
        (AddQuery::ConfirmCluster { cluster, kubeconfig_server, .. }, AddAnswer::Confirmed(yes)) => {
            if yes {
                cluster_done(req, cluster, kubeconfig_server)
            } else {
                AddStep::Cancelled
            }
        },
        (AddQuery::LatestArtifactHub { package, .. }, AddAnswer::Version(v)) => match v {
            Ok(version) => {
                let name = name_or(&req.name, after_slash(package.as_str()));
                AddStep::Done(AddResult::Chart { name, source: ChartSource::ArtifactHub { package, version } })
            },
            Err(e) => AddStep::Failed(e),
        },
        (AddQuery::LatestOci { reference }, AddAnswer::MaybeVersion(v)) => match v {
            Ok(Some(version)) => {
                let name = name_or(&req.name, last_path_component(reference.as_str()));
                AddStep::Done(AddResult::Chart { name, source: ChartSource::Oci { reference, version } })
            },
            Ok(None) => {
                let mut out: Vec<char> = Vec::new();
                push_str(&mut out, "could not detect latest version for '");
                push_str(&mut out, reference.as_str());
                push_str(&mut out, "'; use --version");
                AddStep::Failed(string_from(&out))
            },
            Err(e) => AddStep::Failed(e),
        },
        (AddQuery::LatestGitTag { repo, path, .. }, AddAnswer::MaybeVersion(v)) => match v {
            Ok(Some(t)) => AddStep::Ask(AddQuery::CloneAndDetect { repo, reference: t, path }),
            Ok(None) => {
                let mut out: Vec<char> = Vec::new();
                push_str(&mut out, "no release tags found in '");
                push_str(&mut out, repo.as_str());
                push_str(&mut out, "'; use --tag or --branch");
                AddStep::Failed(string_from(&out))
            },
            Err(e) => AddStep::Failed(e),
        },
        (AddQuery::CloneAndDetect { repo, reference, path }, AddAnswer::Kind(k)) => match k {
            Ok(kind) => {
                let name = name_or(&req.name, repo_name(repo.as_str()));
                match kind {
                    SourceKind::Resource => AddStep::Done(
                        AddResult::Resource {
                            name,
                            source: SchemaSource::Git { repo, tag: reference, path },
                            cluster_config: None,
                        },
                    ),
                    SourceKind::Chart => AddStep::Done(
                        AddResult::Chart { name, source: ChartSource::Git { repo, tag: reference, path } },
                    ),
                }
            },
            Err(e) => AddStep::Failed(e),
        },
        (AddQuery::LatestRegistry { repo, chart, .. }, AddAnswer::Version(v)) => match v {
            Ok(version) => AddStep::Done(
                AddResult::Chart {
                    name: chart.clone(),
                    source: ChartSource::Registry { repo, chart, version },
                },
            ),
            Err(e) => AddStep::Failed(e),
        },
        (AddQuery::DetectLocal { path }, AddAnswer::LocalKind { kind, is_dir }) => match kind {
            Ok(k) => {
                let name = name_or(&req.name, file_stem(path.as_str(), is_dir));
                match k {
                    SourceKind::Resource => AddStep::Done(
                        AddResult::Resource { name, source: SchemaSource::File { path }, cluster_config: None },
                    ),
                    SourceKind::Chart => AddStep::Done(
                        AddResult::Chart { name, source: ChartSource::File { path } },
                    ),
                }
            },
            Err(e) => AddStep::Failed(e),
        },
        _ => {
            assert(!answers(q0, a0));
            AddStep::Failed(String::new())
        },
    }
}

} // verus!
