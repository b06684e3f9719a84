//! The `husako.toml` model, its validation rules, and the plugin manifest.
//!
//! Tables of the configuration are kept as lists of `(name, value)` pairs in
//! the order in which they are read.
use vstd::prelude::*;

use crate::table::{keyed, keys_unique};
use crate::text::{chars_of, contains_str, push_str, string_from, contains_seq};

verus! {

/// Name of the project configuration file.
pub const CONFIG_FILENAME: &'static str = "husako.toml";

/// Name of a plugin's manifest file.
pub const PLUGIN_MANIFEST: &'static str = "plugin.toml";

/// Errors of loading or validating a configuration.
#[derive(Debug)]
pub enum ConfigError {
    /// The file could not be read; `message` is the reason.
    Io { path: String, message: String },
    /// The file is not a valid configuration.
    Parse(String),
    /// The configuration breaks one of the rules of `validate`.
    Validation(String),
}

/// The text of an error, as it is shown to users.
pub open spec fn config_error_text(e: ConfigError) -> Seq<char> {
    match e {
        ConfigError::Io { path, message } => "failed to read "@ + path@ + ": "@ + message@,
        ConfigError::Parse(m) => "failed to parse husako.toml: "@ + m@,
        ConfigError::Validation(m) => "config validation error: "@ + m@,
    }
}

impl ConfigError {
    /// The text of the error, as it is shown to users.
    pub fn message(&self) -> (r: String)
        ensures
            r@ == config_error_text(*self),
    {
        let mut out: Vec<char> = Vec::new();
        match self {
            ConfigError::Io { path, message } => {
                push_str(&mut out, "failed to read ");
                push_str(&mut out, path.as_str());
                push_str(&mut out, ": ");
                push_str(&mut out, message.as_str());
            },
            ConfigError::Parse(m) => {
                push_str(&mut out, "failed to parse husako.toml: ");
                push_str(&mut out, m.as_str());
            },
            ConfigError::Validation(m) => {
                push_str(&mut out, "config validation error: ");
                push_str(&mut out, m.as_str());
            },
        }
        string_from(&out)
    }
}

/// Cluster connection configuration.
#[derive(Debug)]
pub struct ClusterConfig {
    pub server: String,
}

impl Clone for ClusterConfig {
    fn clone(&self) -> (r: Self)
        ensures
            r == *self,
    {
        ClusterConfig { server: self.server.clone() }
    }
}

/// A resource schema dependency.
#[derive(Debug)]
pub enum SchemaSource {
    /// OpenAPI specs of a Kubernetes release.
    Release { version: String },
    /// All specs of a live API server; `None` names the `[cluster]` section.
    Cluster { cluster: Option<String> },
    /// CRD manifests in a git repository at a tag.
    Git { repo: String, tag: String, path: String },
    /// CRD manifests in a local file or directory.
    File { path: String },
}

impl Clone for SchemaSource {
    fn clone(&self) -> (r: Self)
        ensures
            r == *self,
    {
        match self {
            SchemaSource::Release { version } => SchemaSource::Release { version: version.clone() },
            SchemaSource::Cluster { cluster } => SchemaSource::Cluster {
                cluster: match cluster {
                    Some(c) => Some(c.clone()),
                    None => None,
                },
            },
            SchemaSource::Git { repo, tag, path } => SchemaSource::Git {
                repo: repo.clone(),
                tag: tag.clone(),
                path: path.clone(),
            },
            SchemaSource::File { path } => SchemaSource::File { path: path.clone() },
        }
    }
}

/// A chart values schema source.
#[derive(Debug)]
pub enum ChartSource {
    /// An HTTP Helm chart repository.
    Registry { repo: String, chart: String, version: String },
    /// The ArtifactHub API.
    ArtifactHub { package: String, version: String },
    /// A local `values.schema.json` file.
    File { path: String },
    /// A git repository at a tag.
    Git { repo: String, tag: String, path: String },
    /// An OCI registry.
    Oci { reference: String, version: String },
}

impl Clone for ChartSource {
    fn clone(&self) -> (r: Self)
        ensures
            r == *self,
    {
        match self {
            ChartSource::Registry { repo, chart, version } => ChartSource::Registry {
                repo: repo.clone(),
                chart: chart.clone(),
                version: version.clone(),
            },
            ChartSource::ArtifactHub { package, version } => ChartSource::ArtifactHub {
                package: package.clone(),
                version: version.clone(),
            },
            ChartSource::File { path } => ChartSource::File { path: path.clone() },
            ChartSource::Git { repo, tag, path } => ChartSource::Git {
                repo: repo.clone(),
                tag: tag.clone(),
                path: path.clone(),
            },
            ChartSource::Oci { reference, version } => ChartSource::Oci {
                reference: reference.clone(),
                version: version.clone(),
            },
        }
    }
}

/// A plugin dependency.
#[derive(Debug)]
#[allow(inconsistent_fields)]
pub enum PluginSource {
    /// A git repository, optionally a sub-directory of it.
    Git { url: String, path: Option<String> },
    /// A local directory.
    Path { path: String },
}

/// Full `husako.toml` configuration.
#[derive(Debug)]
pub struct HusakoConfig {
    /// Entry file aliases: `dev = "env/dev.ts"`.
    pub entries: Vec<(String, String)>,
    /// Single cluster connection.
    pub cluster: Option<ClusterConfig>,
    /// Named cluster connections.
    pub clusters: Vec<(String, ClusterConfig)>,
    /// Resource schema dependencies.
    pub resources: Vec<(String, SchemaSource)>,
    /// Chart values schema sources.
    pub charts: Vec<(String, ChartSource)>,
    /// Plugin dependencies.
    pub plugins: Vec<(String, PluginSource)>,
}

impl HusakoConfig {
    /// Each table names every entry once, as the TOML tables it is read
    /// from do.
    pub open spec fn wf(self) -> bool {
        &&& keys_unique(keyed(self.entries@))
        &&& keys_unique(keyed(self.clusters@))
        &&& keys_unique(keyed(self.resources@))
        &&& keys_unique(keyed(self.charts@))
        &&& keys_unique(keyed(self.plugins@))
    }
}

impl Default for HusakoConfig {
    fn default() -> (r: Self)
        ensures
            r.wf(),
            r.entries@.len() == 0,
            r.cluster is None,
            r.clusters@.len() == 0,
            r.resources@.len() == 0,
            r.charts@.len() == 0,
            r.plugins@.len() == 0,
    {
        HusakoConfig {
            entries: Vec::new(),
            cluster: None,
            clusters: Vec::new(),
            resources: Vec::new(),
            charts: Vec::new(),
            plugins: Vec::new(),
        }
    }
}

/// Plugin manifest (`plugin.toml`).
#[derive(Debug)]
pub struct PluginManifest {
    pub plugin: PluginMeta,
    /// Resource dependency presets.
    pub resources: Vec<(String, SchemaSource)>,
    /// Chart dependency presets.
    pub charts: Vec<(String, ChartSource)>,
    /// Module import mappings: specifier and relative file path.
    pub modules: Vec<(String, String)>,
}

impl PluginManifest {
    /// Each table of the manifest names every entry once.
    pub open spec fn wf(self) -> bool {
        &&& keys_unique(keyed(self.resources@))
        &&& keys_unique(keyed(self.charts@))
        &&& keys_unique(keyed(self.modules@))
    }
}

/// The `[plugin]` table of a manifest.
#[derive(Debug)]
pub struct PluginMeta {
    pub name: String,
    pub version: String,
    pub description: Option<String>,
}

// ---------------------------------------------------------------------------
// Validation rules
// ---------------------------------------------------------------------------

/// An absolute path (one that starts at the root, `/`).
pub open spec fn is_absolute(p: Seq<char>) -> bool {
    p.len() > 0 && p[0] == '/'
}

/// The first `Some` among `f` applied to the items of `s`, in order.
pub open spec fn first_some<T>(s: Seq<T>, f: spec_fn(T) -> Option<Seq<char>>) -> Option<Seq<char>>
    decreases s.len(),
{
    if s.len() == 0 {
        None
    } else if f(s[0]) is Some {
        f(s[0])
    } else {
        first_some(s.drop_first(), f)
    }
}

/// The first present value of a sequence is that of a prefix when the prefix
/// has one, else that of the rest.
pub proof fn lemma_first_some_split<T>(s: Seq<T>, f: spec_fn(T) -> Option<Seq<char>>, i: int)
    requires
        0 <= i <= s.len(),
    ensures
        first_some(s, f) == (if first_some(s.take(i), f) is Some {
            first_some(s.take(i), f)
        } else {
            first_some(s.skip(i), f)
        }),
    decreases i,
{
    if i > 0 {
        lemma_first_some_split(s.drop_first(), f, i - 1);
        assert(s.take(i).drop_first() =~= s.drop_first().take(i - 1));
        assert(s.drop_first().skip(i - 1) =~= s.skip(i));
        assert(s.take(i)[0] == s[0]);
    } else {
        assert(s.skip(0) =~= s);
    }
}

proof fn lemma_first_some_step<T>(s: Seq<T>, f: spec_fn(T) -> Option<Seq<char>>, i: int)
    requires
        0 <= i < s.len(),
        first_some(s.take(i), f) is None,
    ensures
        f(s[i]) is Some ==> first_some(s, f) == f(s[i]),
        f(s[i]) is None ==> first_some(s.take(i + 1), f) is None,
{
    lemma_first_some_split(s, f, i);
    assert(s.skip(i)[0] == s[i]);
    lemma_first_some_split(s.take(i + 1), f, i);
    assert(s.take(i + 1).take(i) =~= s.take(i));
    assert(s.take(i + 1).skip(i) =~= seq![s[i]]);
    assert(seq![s[i]].drop_first() =~= Seq::<T>::empty());
    assert(first_some(Seq::<T>::empty(), f) is None);
    assert(seq![s[i]][0] == s[i]);
}

/// `entry '<alias>' has absolute path '<path>'; use a relative path`
pub open spec fn entry_error(e: (String, String)) -> Option<Seq<char>> {
    if is_absolute(e.1@) {
        Some("entry '"@ + e.0@ + "' has absolute path '"@ + e.1@ + "'; use a relative path"@)
    } else {
        None
    }
}

/// The list of named clusters has one named `name`.
pub open spec fn has_cluster(clusters: Seq<(String, ClusterConfig)>, name: Seq<char>) -> bool {
    exists|i: int| 0 <= i < clusters.len() && clusters[i].0@ == name
}

/// The rules on one resource dependency.
pub open spec fn resource_error(cfg: HusakoConfig, e: (String, SchemaSource)) -> Option<Seq<char>> {
    let name = e.0@;
    match e.1 {
        SchemaSource::Cluster { cluster: Some(c) } => if !has_cluster(cfg.clusters@, c@) {
            Some(
                "schema '"@ + name + "' references unknown cluster '"@ + c@
                    + "'; define it in [clusters."@ + c@ + "]"@,
            )
        } else {
            None
        },
        SchemaSource::Cluster { cluster: None } => if cfg.cluster is None && cfg.clusters@.len()
            == 0 {
            Some(
                "schema '"@ + name
                    + "' uses source = \"cluster\" but no [cluster] section is defined"@,
            )
        } else if cfg.cluster is None {
            Some(
                "schema '"@ + name
                    + "' uses source = \"cluster\" without a cluster name; specify which cluster to use, e.g. cluster = \"dev\""@,
            )
        } else {
            None
        },
        SchemaSource::File { path } => if is_absolute(path@) {
            Some("schema '"@ + name + "' has absolute path '"@ + path@ + "'; use a relative path"@)
        } else {
            None
        },
        _ => None,
    }
}

/// The rule on one chart dependency.
pub open spec fn chart_error(e: (String, ChartSource)) -> Option<Seq<char>> {
    match e.1 {
        ChartSource::File { path } => if is_absolute(path@) {
            Some("chart '"@ + e.0@ + "' has absolute path '"@ + path@ + "'; use a relative path"@)
        } else {
            None
        },
        _ => None,
    }
}

/// The rule on one plugin dependency.
pub open spec fn plugin_error(e: (String, PluginSource)) -> Option<Seq<char>> {
    match e.1 {
        PluginSource::Path { path } => if is_absolute(path@) {
            Some("plugin '"@ + e.0@ + "' has absolute path '"@ + path@ + "'; use a relative path"@)
        } else {
            None
        },
        _ => None,
    }
}

/// The message of the first rule that `cfg` breaks, checking in order:
/// entry paths are relative; `[cluster]` and `[clusters]` are not both used;
/// each resource's cluster reference resolves and its file path is relative;
/// chart file paths are relative; plugin paths are relative.
pub open spec fn config_violation(cfg: HusakoConfig) -> Option<Seq<char>> {
    let both = cfg.cluster is Some && cfg.clusters@.len() > 0;
    if first_some(cfg.entries@, |e: (String, String)| entry_error(e)) is Some {
        first_some(cfg.entries@, |e: (String, String)| entry_error(e))
    } else if both {
        Some("cannot use both [cluster] and [clusters]; use one or the other"@)
    } else if first_some(cfg.resources@, |e: (String, SchemaSource)| resource_error(cfg, e)) is Some {
        first_some(cfg.resources@, |e: (String, SchemaSource)| resource_error(cfg, e))
    } else if first_some(cfg.charts@, |e: (String, ChartSource)| chart_error(e)) is Some {
        first_some(cfg.charts@, |e: (String, ChartSource)| chart_error(e))
    } else {
        first_some(cfg.plugins@, |e: (String, PluginSource)| plugin_error(e))
    }
}

/// No item of `s` gives a value under `f` exactly when the first value is
/// missing.
pub proof fn lemma_first_some_none<T>(s: Seq<T>, f: spec_fn(T) -> Option<Seq<char>>)
    ensures
        first_some(s, f) is None <==> forall|i: int| 0 <= i < s.len() ==> f(#[trigger] s[i]) is None,
    decreases s.len(),
{
    if s.len() > 0 {
        lemma_first_some_none(s.drop_first(), f);
        if first_some(s, f) is None {
            assert forall|i: int| 0 <= i < s.len() implies f(#[trigger] s[i]) is None by {
                if i > 0 {
                    assert(s[i] == s.drop_first()[i - 1]);
                }
            }
        } else if f(s[0]) is None {
            let k = choose|k: int| 0 <= k < s.len() - 1 && f(#[trigger] s.drop_first()[k]) is Some;
            assert(s.drop_first()[k] == s[k + 1]);
        }
    }
}

/// What a valid `husako.toml` satisfies, rule by rule: entry paths,
/// resource file paths, chart file paths and plugin paths are relative;
/// `[cluster]` and `[clusters]` are not both used; a cluster resource that
/// names a cluster names one of `[clusters]`, and one that names none has
/// `[cluster]` to use.
pub open spec fn config_acceptable(cfg: HusakoConfig) -> bool {
    &&& forall|i: int| 0 <= i < cfg.entries@.len() ==> !is_absolute(#[trigger] cfg.entries@[i].1@)
    &&& !(cfg.cluster is Some && cfg.clusters@.len() > 0)
    &&& forall|i: int|
        0 <= i < cfg.resources@.len() ==> match #[trigger] cfg.resources@[i].1 {
            SchemaSource::Cluster { cluster: Some(c) } => has_cluster(cfg.clusters@, c@),
            SchemaSource::Cluster { cluster: None } => cfg.cluster is Some,
            SchemaSource::File { path } => !is_absolute(path@),
            _ => true,
        }
    &&& forall|i: int|
        0 <= i < cfg.charts@.len() ==> match #[trigger] cfg.charts@[i].1 {
            ChartSource::File { path } => !is_absolute(path@),
            _ => true,
        }
    &&& forall|i: int|
        0 <= i < cfg.plugins@.len() ==> match #[trigger] cfg.plugins@[i].1 {
            PluginSource::Path { path } => !is_absolute(path@),
            _ => true,
        }
}

/// A configuration is accepted exactly when it keeps every rule; in
/// particular a resource with `source = "cluster"` and no cluster name is
/// accepted when `[cluster]` is defined.
pub proof fn lemma_accepted_iff_rules_kept(cfg: HusakoConfig)
    ensures
        config_violation(cfg) is None <==> config_acceptable(cfg),
{
    let fe = |e: (String, String)| entry_error(e);
    let fr = |e: (String, SchemaSource)| resource_error(cfg, e);
    let fc = |e: (String, ChartSource)| chart_error(e);
    let fp = |e: (String, PluginSource)| plugin_error(e);
    lemma_first_some_none(cfg.entries@, fe);
    lemma_first_some_none(cfg.resources@, fr);
    lemma_first_some_none(cfg.charts@, fc);
    lemma_first_some_none(cfg.plugins@, fp);
    assert forall|i: int| 0 <= i < cfg.resources@.len() implies (fr(#[trigger] cfg.resources@[i]) is None
        <==> match cfg.resources@[i].1 {
        SchemaSource::Cluster { cluster: Some(c) } => has_cluster(cfg.clusters@, c@),
        SchemaSource::Cluster { cluster: None } => cfg.cluster is Some,
        SchemaSource::File { path } => !is_absolute(path@),
        _ => true,
    }) by {}
    assert forall|i: int| 0 <= i < cfg.charts@.len() implies (fc(#[trigger] cfg.charts@[i]) is None
        <==> match cfg.charts@[i].1 {
        ChartSource::File { path } => !is_absolute(path@),
        _ => true,
    }) by {}
    assert forall|i: int| 0 <= i < cfg.plugins@.len() implies (fp(#[trigger] cfg.plugins@[i]) is None
        <==> match cfg.plugins@[i].1 {
        PluginSource::Path { path } => !is_absolute(path@),
        _ => true,
    }) by {}
    assert forall|i: int| 0 <= i < cfg.entries@.len() implies (fe(#[trigger] cfg.entries@[i]) is None
        <==> !is_absolute(cfg.entries@[i].1@)) by {}
}

/// `p` is an absolute path.
fn is_absolute_path(p: &String) -> (r: bool)
    ensures
        r == is_absolute(p@),
{
    let v = chars_of(p.as_str());
    v.len() > 0 && v[0] == '/'
}

fn absolute_path_message(lead: &str, name: &String, path: &String) -> (r: String)
    ensures
        r@ == lead@ + name@ + "' has absolute path '"@ + path@ + "'; use a relative path"@,
{
    let mut out: Vec<char> = Vec::new();
    push_str(&mut out, lead);
    push_str(&mut out, name.as_str());
    push_str(&mut out, "' has absolute path '");
    push_str(&mut out, path.as_str());
    push_str(&mut out, "'; use a relative path");
    string_from(&out)
}

fn has_cluster_named(clusters: &Vec<(String, ClusterConfig)>, name: &String) -> (r: bool)
    ensures
        r == has_cluster(clusters@, name@),
{
    let mut i: usize = 0;
    while i < clusters.len()
        invariant
            i <= clusters.len(),
            forall|j: int| 0 <= j < i ==> clusters@[j].0@ != name@,
        decreases clusters.len() - i,
    {
        if clusters[i].0 == *name {
            return true;
        }
        i += 1;
    }
    false
}

/// Checks a configuration against the rules of `husako.toml`: entry paths,
/// file paths of resources and charts, and plugin paths are relative;
/// `[cluster]` and `[clusters]` are not both used; every resource with
/// `source = "cluster"` names a cluster that exists, or uses `[cluster]`.
/// The error reports the first rule broken.
#[verifier::loop_isolation(false)]
pub fn validate(config: &HusakoConfig) -> (r: Result<(), ConfigError>)
    ensures
        match config_violation(*config) {
            None => r is Ok,
            Some(m) => r matches Err(ConfigError::Validation(msg)) && msg@ == m,
        },
{
    let ghost fe = |e: (String, String)| entry_error(e);
    let mut i: usize = 0;
    while i < config.entries.len()
        invariant
            i <= config.entries.len(),
            fe == (|e: (String, String)| entry_error(e)),
            first_some(config.entries@.take(i as int), fe) is None,
        decreases config.entries.len() - i,
    {
        proof {
            lemma_first_some_step(config.entries@, fe, i as int);
        }
        let (alias, path) = &config.entries[i];
        if is_absolute_path(path) {
            let m = absolute_path_message("entry '", alias, path);
            return Err(ConfigError::Validation(m));
        }
        i += 1;
    }
    proof {
        lemma_first_some_split(config.entries@, fe, config.entries.len() as int);
        assert(config.entries@.take(config.entries.len() as int) =~= config.entries@);
    }
    if config.cluster.is_some() && config.clusters.len() > 0 {
        let m = String::from_str("cannot use both [cluster] and [clusters]; use one or the other");
        return Err(ConfigError::Validation(m));
    }
    let ghost fr = |e: (String, SchemaSource)| resource_error(*config, e);
    let mut i: usize = 0;
    while i < config.resources.len()
        invariant
            i <= config.resources.len(),
            fr == (|e: (String, SchemaSource)| resource_error(*config, e)),
            first_some(config.resources@.take(i as int), fr) is None,
        decreases config.resources.len() - i,
    {
        proof {
            lemma_first_some_step(config.resources@, fr, i as int);
        }
        let (name, source) = &config.resources[i];
        match source {
            SchemaSource::Cluster { cluster: Some(c) } => {
                if !has_cluster_named(&config.clusters, c) {
                    let mut out: Vec<char> = Vec::new();
                    push_str(&mut out, "schema '");
                    push_str(&mut out, name.as_str());
                    push_str(&mut out, "' references unknown cluster '");
                    push_str(&mut out, c.as_str());
                    push_str(&mut out, "'; define it in [clusters.");
                    push_str(&mut out, c.as_str());
                    push_str(&mut out, "]");
                    let m = string_from(&out);
                    assert(first_some(config.resources@, fr) == fr(config.resources@[i as int]));
                    assert(m@ =~= fr(config.resources@[i as int])->0);
                    return Err(ConfigError::Validation(m));
                }
            },
            SchemaSource::Cluster { cluster: None } => {
                if config.cluster.is_none() && config.clusters.len() == 0 {
                    let mut out: Vec<char> = Vec::new();
                    push_str(&mut out, "schema '");
                    push_str(&mut out, name.as_str());
                    push_str(
                        &mut out,
                        "' uses source = \"cluster\" but no [cluster] section is defined",
                    );
                    let m = string_from(&out);
                    assert(fr(config.resources@[i as int]) is Some);
                    assert(first_some(config.resources@, fr) == fr(config.resources@[i as int]));
                    assert(m@ =~= fr(config.resources@[i as int])->0);
                    return Err(ConfigError::Validation(m));
                }
                if config.cluster.is_none() {
                    let mut out: Vec<char> = Vec::new();
                    push_str(&mut out, "schema '");
                    push_str(&mut out, name.as_str());
                    push_str(
                        &mut out,
                        "' uses source = \"cluster\" without a cluster name; specify which cluster to use, e.g. cluster = \"dev\"",
                    );
                    let m = string_from(&out);
                    assert(first_some(config.resources@, fr) == fr(config.resources@[i as int]));
                    assert(m@ =~= fr(config.resources@[i as int])->0);
                    return Err(ConfigError::Validation(m));
                }
            },
            SchemaSource::File { path } => {
                if is_absolute_path(path) {
                    let m = absolute_path_message("schema '", name, path);
                    return Err(ConfigError::Validation(m));
                }
            },
            _ => {},
        }
        i += 1;
    }
    proof {
        lemma_first_some_split(config.resources@, fr, config.resources.len() as int);
        assert(config.resources@.take(config.resources.len() as int) =~= config.resources@);
    }
    let ghost fc = |e: (String, ChartSource)| chart_error(e);
    let mut i: usize = 0;
    while i < config.charts.len()
        invariant
            i <= config.charts.len(),
            fc == (|e: (String, ChartSource)| chart_error(e)),
            first_some(config.charts@.take(i as int), fc) is None,
        decreases config.charts.len() - i,
    {
        proof {
            lemma_first_some_step(config.charts@, fc, i as int);
        }
        let (name, source) = &config.charts[i];
        match source {
            ChartSource::File { path } => {
                if is_absolute_path(path) {
                    let m = absolute_path_message("chart '", name, path);
                    assert(first_some(config.charts@, fc) == fc(config.charts@[i as int]));
                    assert(m@ =~= fc(config.charts@[i as int])->0);
                    return Err(ConfigError::Validation(m));
                }
            },
            _ => {},
        }
        i += 1;
    }
    proof {
        lemma_first_some_split(config.charts@, fc, config.charts.len() as int);
        assert(config.charts@.take(config.charts.len() as int) =~= config.charts@);
    }
    let ghost fp = |e: (String, PluginSource)| plugin_error(e);
    let mut i: usize = 0;
    while i < config.plugins.len()
        invariant
            i <= config.plugins.len(),
            fp == (|e: (String, PluginSource)| plugin_error(e)),
            first_some(config.plugins@.take(i as int), fp) is None,
        decreases config.plugins.len() - i,
    {
        proof {
            lemma_first_some_step(config.plugins@, fp, i as int);
        }
        let (name, source) = &config.plugins[i];
        match source {
            PluginSource::Path { path } => {
                if is_absolute_path(path) {
                    let m = absolute_path_message("plugin '", name, path);
                    assert(first_some(config.plugins@, fp) == fp(config.plugins@[i as int]));
                    assert(m@ =~= fp(config.plugins@[i as int])->0);
                    return Err(ConfigError::Validation(m));
                }
            },
            _ => {},
        }
        i += 1;
    }
    proof {
        lemma_first_some_split(config.plugins@, fp, config.plugins.len() as int);
        assert(config.plugins@.take(config.plugins.len() as int) =~= config.plugins@);
    }
    Ok(())
}

/// The file still uses the deprecated `[schemas]` table and not `[resources]`,
/// which calls for a warning.
pub fn uses_deprecated_schemas_table(content: &str) -> (r: bool)
    ensures
        r == (contains_seq(content@, "[schemas]"@) && !contains_seq(content@, "[resources]"@)),
{
    let v = chars_of(content);
    contains_str(&v, "[schemas]") && !contains_str(&v, "[resources]")
}

} // verus!
