//! Project-level operations: templates, listing, outdated checks, updates,
//! summaries and details of dependencies.
use vstd::prelude::*;

use crate::config::{ChartSource, ConfigError, HusakoConfig, SchemaSource};
use crate::order::{is_name_order, name_order};
use crate::plugin::InstalledPlugin;
use crate::table::{find_key, keyed, lemma_key_pos, lookup};
use crate::text::{
    chars_of, contains_seq, contains_str, count_matches, count_matches_of, eq_str, has_prefix,
    has_suffix, push_str, replace_all, split, split_on, starts_with_str, string_from, trim_end_seq,
};
use crate::url_detect::opt_view;
use crate::version_check::{spec_versions_match, versions_match};

verus! {

// ---------------------------------------------------------------------------
// Templates of `husako new`
// ---------------------------------------------------------------------------

/// The project templates that `husako new` can write.
#[derive(Debug, Clone, Copy, PartialEq, Eq, Structural)]
pub enum TemplateName {
    Simple,
    Project,
    MultiEnv,
}

/// The name under which a template is chosen and shown.
pub open spec fn template_label(t: TemplateName) -> Seq<char> {
    match t {
        TemplateName::Simple => "simple"@,
        TemplateName::Project => "project"@,
        TemplateName::MultiEnv => "multi-env"@,
    }
}

/// The message for a template name that is not known.
pub open spec fn unknown_template_message(s: Seq<char>) -> Seq<char> {
    "unknown template '"@ + s + "'. Available: simple, project, multi-env"@
}

impl TemplateName {
    /// Reads a template from its name.
    pub fn parse(s: &str) -> (r: Result<TemplateName, String>)
        ensures
            r is Ok <==> (s@ == "simple"@ || s@ == "project"@ || s@ == "multi-env"@),
            r matches Ok(t) ==> template_label(t) == s@,
            r matches Err(m) ==> m@ == unknown_template_message(s@),
    {
        let v = chars_of(s);
        if eq_str(&v, "simple") {
            Ok(TemplateName::Simple)
        } else if eq_str(&v, "project") {
            Ok(TemplateName::Project)
        } else if eq_str(&v, "multi-env") {
            Ok(TemplateName::MultiEnv)
        } else {
            let mut out: Vec<char> = Vec::new();
            push_str(&mut out, "unknown template '");
            push_str(&mut out, s);
            push_str(&mut out, "'. Available: simple, project, multi-env");
            Err(string_from(&out))
        }
    }

    /// The template's name.
    pub fn to_string(&self) -> (r: String)
        ensures
            r@ == template_label(*self),
    {
        match self {
            TemplateName::Simple => String::from_str("simple"),
            TemplateName::Project => String::from_str("project"),
            TemplateName::MultiEnv => String::from_str("multi-env"),
        }
    }
}

impl core::str::FromStr for TemplateName {
    type Err = String;

    fn from_str(s: &str) -> (r: Result<Self, Self::Err>)
        ensures
            r is Ok <==> (s@ == "simple"@ || s@ == "project"@ || s@ == "multi-env"@),
            r matches Ok(t) ==> template_label(t) == s@,
            r matches Err(m) ==> m@ == unknown_template_message(s@),
    {
        TemplateName::parse(s)
    }
}

// ---------------------------------------------------------------------------
// Listing dependencies
// ---------------------------------------------------------------------------

/// An installed plugin as listed.
#[derive(Debug)]
pub struct PluginInfo {
    pub name: String,
    pub version: String,
    pub description: Option<String>,
    pub module_count: usize,
}

/// The dependencies of a project, by section.
#[derive(Debug)]
pub struct DependencyList {
    pub resources: Vec<DependencyInfo>,
    pub charts: Vec<DependencyInfo>,
    pub plugins: Vec<PluginInfo>,
}

/// One dependency as listed.
#[derive(Debug)]
pub struct DependencyInfo {
    pub name: String,
    pub source_type: &'static str,
    pub version: Option<String>,
    pub details: String,
}

/// `d` describes the resource dependency `name` with source `source`.
pub open spec fn is_resource_info(d: DependencyInfo, name: Seq<char>, source: SchemaSource) -> bool {
    &&& d.name@ == name
    &&& match source {
        SchemaSource::Release { version } => d.source_type@ == "release"@ && opt_view(d.version)
            == Some(version@) && d.details@ == Seq::<char>::empty(),
        SchemaSource::Cluster { cluster } => d.source_type@ == "cluster"@ && d.version is None
            && d.details@ == match cluster {
            Some(c) => "cluster: "@ + c@,
            None => Seq::<char>::empty(),
        },
        SchemaSource::Git { repo, tag, path } => d.source_type@ == "git"@ && opt_view(d.version)
            == Some(tag@) && d.details@ == repo@ + " ("@ + path@ + ")"@,
        SchemaSource::File { path } => d.source_type@ == "file"@ && d.version is None && d.details@
            == path@,
    }
}

/// `d` describes the chart dependency `name` with source `source`.
pub open spec fn is_chart_info(d: DependencyInfo, name: Seq<char>, source: ChartSource) -> bool {
    &&& d.name@ == name
    &&& match source {
        ChartSource::Registry { repo, chart, version } => d.source_type@ == "registry"@ && opt_view(
            d.version,
        ) == Some(version@) && d.details@ == repo@ + " ("@ + chart@ + ")"@,
        ChartSource::ArtifactHub { package, version } => d.source_type@ == "artifacthub"@
            && opt_view(d.version) == Some(version@) && d.details@ == package@,
        ChartSource::File { path } => d.source_type@ == "file"@ && d.version is None && d.details@
            == path@,
        ChartSource::Git { repo, tag, path } => d.source_type@ == "git"@ && opt_view(d.version)
            == Some(tag@) && d.details@ == repo@ + " ("@ + path@ + ")"@,
        ChartSource::Oci { reference, version } => d.source_type@ == "oci"@ && opt_view(d.version)
            == Some(version@) && d.details@ == reference@,
    }
}

/// `<a> (<b>)`
fn with_parenthesized(a: &String, b: &String) -> (r: String)
    ensures
        r@ == a@ + " ("@ + b@ + ")"@,
{
    let mut out: Vec<char> = Vec::new();
    push_str(&mut out, a.as_str());
    push_str(&mut out, " (");
    push_str(&mut out, b.as_str());
    push_str(&mut out, ")");
    string_from(&out)
}

fn resource_info(name: &String, source: &SchemaSource) -> (d: DependencyInfo)
    ensures
        is_resource_info(d, name@, *source),
{
    match source {
        SchemaSource::Release { version } => DependencyInfo {
            name: name.clone(),
            source_type: "release",
            version: Some(version.clone()),
            details: String::new(),
        },
        SchemaSource::Cluster { cluster } => {
            let details = match cluster {
                Some(c) => {
                    let mut out: Vec<char> = Vec::new();
                    push_str(&mut out, "cluster: ");
                    push_str(&mut out, c.as_str());
                    string_from(&out)
                },
                None => String::new(),
            };
            DependencyInfo { name: name.clone(), source_type: "cluster", version: None, details }
        },
        SchemaSource::Git { repo, tag, path } => DependencyInfo {
            name: name.clone(),
            source_type: "git",
            version: Some(tag.clone()),
            details: with_parenthesized(repo, path),
        },
        SchemaSource::File { path } => DependencyInfo {
            name: name.clone(),
            source_type: "file",
            version: None,
            details: path.clone(),
        },
    }
}

fn chart_info(name: &String, source: &ChartSource) -> (d: DependencyInfo)
    ensures
        is_chart_info(d, name@, *source),
{
    match source {
        ChartSource::Registry { repo, chart, version } => DependencyInfo {
            name: name.clone(),
            source_type: "registry",
            version: Some(version.clone()),
            details: with_parenthesized(repo, chart),
        },
        ChartSource::ArtifactHub { package, version } => DependencyInfo {
            name: name.clone(),
            source_type: "artifacthub",
            version: Some(version.clone()),
            details: package.clone(),
        },
        ChartSource::File { path } => DependencyInfo {
            name: name.clone(),
            source_type: "file",
            version: None,
            details: path.clone(),
        },
        ChartSource::Git { repo, tag, path } => DependencyInfo {
            name: name.clone(),
            source_type: "git",
            version: Some(tag.clone()),
            details: with_parenthesized(repo, path),
        },
        ChartSource::Oci { reference, version } => DependencyInfo {
            name: name.clone(),
            source_type: "oci",
            version: Some(version.clone()),
            details: reference.clone(),
        },
    }
}

/// The names of a table's entries.
pub open spec fn names_of<V>(m: Seq<(String, V)>) -> Seq<Seq<char>> {
    keyed(m).map_values(|e: (Seq<char>, V)| e.0)
}

/// `infos` lists the resources of `m` by name.
pub open spec fn lists_resources(infos: Seq<DependencyInfo>, m: Seq<(String, SchemaSource)>) -> bool {
    exists|p: Seq<int>|
        #![trigger is_name_order(names_of(m), p)]
        is_name_order(names_of(m), p) && infos.len() == p.len() && forall|i: int|
            0 <= i < p.len() ==> is_resource_info(#[trigger] infos[i], m[p[i]].0@, m[p[i]].1)
}

/// `infos` lists the charts of `m` by name.
pub open spec fn lists_charts(infos: Seq<DependencyInfo>, m: Seq<(String, ChartSource)>) -> bool {
    exists|p: Seq<int>|
        #![trigger is_name_order(names_of(m), p)]
        is_name_order(names_of(m), p) && infos.len() == p.len() && forall|i: int|
            0 <= i < p.len() ==> is_chart_info(#[trigger] infos[i], m[p[i]].0@, m[p[i]].1)
}

/// `info` describes the installed plugin `p`.
pub open spec fn is_plugin_info(info: PluginInfo, p: InstalledPlugin) -> bool {
    &&& info.name@ == p.name@
    &&& info.version@ == p.manifest.plugin.version@
    &&& opt_view(info.description) == opt_view(p.manifest.plugin.description)
    &&& info.module_count == p.manifest.modules@.len()
}

fn resource_infos(m: &Vec<(String, SchemaSource)>) -> (r: Vec<DependencyInfo>)
    ensures
        lists_resources(r@, m@),
{
    let p = name_order(m);
    let ghost pv = p@.map_values(|x: usize| x as int);
    assert(names_of(m@) == keyed(m@).map_values(|e: (Seq<char>, SchemaSource)| e.0));
    let mut r: Vec<DependencyInfo> = Vec::new();
    let mut i: usize = 0;
    while i < p.len()
        invariant
            i <= p.len(),
            pv == p@.map_values(|x: usize| x as int),
            is_name_order(names_of(m@), pv),
            r@.len() == i,
            forall|k: int| 0 <= k < i ==> is_resource_info(#[trigger] r@[k], m@[pv[k]].0@, m@[pv[k]].1),
        decreases p.len() - i,
    {
        assert(pv[i as int] == p@[i as int] as int);
        assert(0 <= pv[i as int] < names_of(m@).len());
        let k = p[i];
        let (name, source) = &m[k];
        let d = resource_info(name, source);
        r.push(d);
        i += 1;
    }
    r
}

fn chart_infos(m: &Vec<(String, ChartSource)>) -> (r: Vec<DependencyInfo>)
    ensures
        lists_charts(r@, m@),
{
    let p = name_order(m);
    let ghost pv = p@.map_values(|x: usize| x as int);
    assert(names_of(m@) == keyed(m@).map_values(|e: (Seq<char>, ChartSource)| e.0));
    let mut r: Vec<DependencyInfo> = Vec::new();
    let mut i: usize = 0;
    while i < p.len()
        invariant
            i <= p.len(),
            pv == p@.map_values(|x: usize| x as int),
            is_name_order(names_of(m@), pv),
            r@.len() == i,
            forall|k: int| 0 <= k < i ==> is_chart_info(#[trigger] r@[k], m@[pv[k]].0@, m@[pv[k]].1),
        decreases p.len() - i,
    {
        assert(pv[i as int] == p@[i as int] as int);
        assert(0 <= pv[i as int] < names_of(m@).len());
        let k = p[i];
        let (name, source) = &m[k];
        let d = chart_info(name, source);
        r.push(d);
        i += 1;
    }
    r
}

fn clone_opt(o: &Option<String>) -> (r: Option<String>)
    ensures
        opt_view(r) == opt_view(*o),
{
    match o {
        Some(s) => Some(s.clone()),
        None => None,
    }
}

fn plugin_infos(plugins: &[InstalledPlugin]) -> (r: Vec<PluginInfo>)
    ensures
        r@.len() == plugins@.len(),
        forall|i: int| 0 <= i < plugins@.len() ==> is_plugin_info(#[trigger] r@[i], plugins@[i]),
{
    let mut r: Vec<PluginInfo> = Vec::new();
    let mut i: usize = 0;
    while i < plugins.len()
        invariant
            i <= plugins@.len(),
            r@.len() == i,
            forall|k: int| 0 <= k < i ==> is_plugin_info(#[trigger] r@[k], plugins@[k]),
        decreases plugins@.len() - i,
    {
        let p = &plugins[i];
        r.push(
            PluginInfo {
                name: p.name.clone(),
                version: p.manifest.plugin.version.clone(),
                description: clone_opt(&p.manifest.plugin.description),
                module_count: p.manifest.modules.len(),
            },
        );
        i += 1;
    }
    r
}

/// Lists the dependencies of a project: its resources and charts, each
/// section sorted by name, and its installed plugins in the order given.
/// Without a configuration the two sections are empty.
pub fn list_dependencies(config: Option<&HusakoConfig>, plugins: &[InstalledPlugin]) -> (r: DependencyList)
    ensures
        match config {
            Some(cfg) => lists_resources(r.resources@, cfg.resources@) && lists_charts(
                r.charts@,
                cfg.charts@,
            ),
            None => r.resources@.len() == 0 && r.charts@.len() == 0,
        },
        r.plugins@.len() == plugins@.len(),
        forall|i: int| 0 <= i < plugins@.len() ==> is_plugin_info(#[trigger] r.plugins@[i], plugins@[i]),
{
    let (resources, charts) = match config {
        Some(cfg) => (resource_infos(&cfg.resources), chart_infos(&cfg.charts)),
        None => (Vec::new(), Vec::new()),
    };
    DependencyList { resources, charts, plugins: plugin_infos(plugins) }
}

// ---------------------------------------------------------------------------
// Outdated dependencies
// ---------------------------------------------------------------------------

/// The section of `husako.toml` a dependency is declared in.
#[derive(Debug, Clone, Copy, PartialEq, Eq, Structural)]
pub enum DepKind {
    Resource,
    Chart,
}

/// How `husako outdated` names a section.
pub open spec fn kind_label(k: DepKind) -> Seq<char> {
    match k {
        DepKind::Resource => "resource"@,
        DepKind::Chart => "chart"@,
    }
}

impl DepKind {
    pub fn label(&self) -> (r: &'static str)
        ensures
            r@ == kind_label(*self),
    {
        match self {
            DepKind::Resource => "resource",
            DepKind::Chart => "chart",
        }
    }
}

/// The question to ask about the newest version of a dependency.
#[derive(Debug)]
pub enum VersionQuery {
    /// The newest Kubernetes release.
    LatestRelease,
    /// The newest tag of a git repository.
    LatestGitTag { repo: String },
    /// The newest version of a chart in a Helm repository.
    LatestRegistry { repo: String, chart: String },
    /// The newest version of an Artifact Hub package.
    LatestArtifactHub { package: String },
    /// The newest tag of an OCI reference.
    LatestOci { reference: String },
}

/// A dependency whose newest version is to be looked up.
#[derive(Debug)]
pub struct OutdatedCheck {
    pub name: String,
    pub kind: DepKind,
    pub source_type: &'static str,
    pub current: String,
    pub query: VersionQuery,
}

/// The answer to a [`VersionQuery`]: the newest version, none (no tags), or
/// the error that the lookup gave.
pub type VersionAnswer = Result<Option<String>, String>;

/// A dependency compared with its newest version.
#[derive(Debug)]
pub struct OutdatedEntry {
    pub name: String,
    pub kind: &'static str,
    pub source_type: &'static str,
    pub current: String,
    pub latest: Option<String>,
    pub up_to_date: bool,
}

/// `c` is the check of resource `e`: releases and git sources are checked,
/// the others have no version to compare.
pub open spec fn is_resource_check(c: OutdatedCheck, e: (String, SchemaSource)) -> bool {
    &&& c.name@ == e.0@
    &&& c.kind == DepKind::Resource
    &&& match e.1 {
        SchemaSource::Release { version } => {
            &&& c.source_type@ == "release"@
            &&& c.current@ == version@
            &&& c.query is LatestRelease
        },
        SchemaSource::Git { repo, tag, .. } => {
            &&& c.source_type@ == "git"@
            &&& c.current@ == tag@
            &&& c.query matches VersionQuery::LatestGitTag { repo: r } && r@ == repo@
        },
        _ => false,
    }
}

pub open spec fn resource_checked(s: SchemaSource) -> bool {
    s is Release || s is Git
}

/// `c` is the check of chart `e`; charts from files have no version.
pub open spec fn is_chart_check(c: OutdatedCheck, e: (String, ChartSource)) -> bool {
    &&& c.name@ == e.0@
    &&& c.kind == DepKind::Chart
    &&& match e.1 {
        ChartSource::Registry { repo, chart, version } => {
            &&& c.source_type@ == "registry"@
            &&& c.current@ == version@
            &&& c.query matches VersionQuery::LatestRegistry { repo: r, chart: ch } && r@ == repo@
                && ch@ == chart@
        },
        ChartSource::ArtifactHub { package, version } => {
            &&& c.source_type@ == "artifacthub"@
            &&& c.current@ == version@
            &&& c.query matches VersionQuery::LatestArtifactHub { package: p } && p@ == package@
        },
        ChartSource::Git { repo, tag, .. } => {
            &&& c.source_type@ == "git"@
            &&& c.current@ == tag@
            &&& c.query matches VersionQuery::LatestGitTag { repo: r } && r@ == repo@
        },
        ChartSource::Oci { reference, version } => {
            &&& c.source_type@ == "oci"@
            &&& c.current@ == version@
            &&& c.query matches VersionQuery::LatestOci { reference: r } && r@ == reference@
        },
        ChartSource::File { .. } => false,
    }
}

pub open spec fn chart_checked(s: ChartSource) -> bool {
    !(s is File)
}

/// The positions, in order, of the resources that are checked.
pub open spec fn checked_resources(m: Seq<(String, SchemaSource)>) -> Seq<int>
    decreases m.len(),
{
    if m.len() == 0 {
        Seq::empty()
    } else if resource_checked(m.last().1) {
        checked_resources(m.drop_last()).push(m.len() - 1)
    } else {
        checked_resources(m.drop_last())
    }
}

/// The positions, in order, of the charts that are checked.
pub open spec fn checked_charts(m: Seq<(String, ChartSource)>) -> Seq<int>
    decreases m.len(),
{
    if m.len() == 0 {
        Seq::empty()
    } else if chart_checked(m.last().1) {
        checked_charts(m.drop_last()).push(m.len() - 1)
    } else {
        checked_charts(m.drop_last())
    }
}

/// `checks` are the checks of `cfg`: its resources, then its charts, each
/// in the order of the configuration.
pub open spec fn are_checks_of(checks: Seq<OutdatedCheck>, cfg: HusakoConfig) -> bool {
    let rs = checked_resources(cfg.resources@);
    let cs = checked_charts(cfg.charts@);
    &&& checks.len() == rs.len() + cs.len()
    &&& forall|i: int| 0 <= i < rs.len() ==> is_resource_check(#[trigger] checks[i], cfg.resources@[rs[i]])
    &&& forall|i: int|
        rs.len() <= i < checks.len() ==> is_chart_check(#[trigger] checks[i], cfg.charts@[cs[i - rs.len()]])
}

fn resource_check(name: &String, source: &SchemaSource) -> (r: Option<OutdatedCheck>)
    ensures
        r is Some <==> resource_checked(*source),
        r matches Some(c) ==> is_resource_check(c, (*name, *source)),
{
    match source {
        SchemaSource::Release { version } => Some(
            OutdatedCheck {
                name: name.clone(),
                kind: DepKind::Resource,
                source_type: "release",
                current: version.clone(),
                query: VersionQuery::LatestRelease,
            },
        ),
        SchemaSource::Git { repo, tag, .. } => Some(
            OutdatedCheck {
                name: name.clone(),
                kind: DepKind::Resource,
                source_type: "git",
                current: tag.clone(),
                query: VersionQuery::LatestGitTag { repo: repo.clone() },
            },
        ),
        _ => None,
    }
}

fn chart_check(name: &String, source: &ChartSource) -> (r: Option<OutdatedCheck>)
    ensures
        r is Some <==> chart_checked(*source),
        r matches Some(c) ==> is_chart_check(c, (*name, *source)),
{
    match source {
        ChartSource::Registry { repo, chart, version } => Some(
            OutdatedCheck {
                name: name.clone(),
                kind: DepKind::Chart,
                source_type: "registry",
                current: version.clone(),
                query: VersionQuery::LatestRegistry { repo: repo.clone(), chart: chart.clone() },
            },
        ),
        ChartSource::ArtifactHub { package, version } => Some(
            OutdatedCheck {
                name: name.clone(),
                kind: DepKind::Chart,
                source_type: "artifacthub",
                current: version.clone(),
                query: VersionQuery::LatestArtifactHub { package: package.clone() },
            },
        ),
        ChartSource::Git { repo, tag, .. } => Some(
            OutdatedCheck {
                name: name.clone(),
                kind: DepKind::Chart,
                source_type: "git",
                current: tag.clone(),
                query: VersionQuery::LatestGitTag { repo: repo.clone() },
            },
        ),
        ChartSource::Oci { reference, version } => Some(
            OutdatedCheck {
                name: name.clone(),
                kind: DepKind::Chart,
                source_type: "oci",
                current: version.clone(),
                query: VersionQuery::LatestOci { reference: reference.clone() },
            },
        ),
        ChartSource::File { .. } => None,
    }
}

/// The dependencies of `config` that have a version to compare, with the
/// lookup that gives their newest version: resources first, then charts.
pub fn outdated_checks(config: &HusakoConfig) -> (r: Vec<OutdatedCheck>)
    ensures
        are_checks_of(r@, *config),
{
    let ghost rm = config.resources@;
    let ghost cm = config.charts@;
    let mut r: Vec<OutdatedCheck> = Vec::new();
    let mut i: usize = 0;
    while i < config.resources.len()
        invariant
            i <= rm.len(),
            rm == config.resources@,
            r@.len() == checked_resources(rm.take(i as int)).len(),
            forall|k: int|
                0 <= k < r@.len() ==> is_resource_check(
                    #[trigger] r@[k],
                    rm[checked_resources(rm.take(i as int))[k]],
                ),
            forall|k: int|
                0 <= k < r@.len() ==> 0 <= #[trigger] checked_resources(rm.take(i as int))[k] < i,
        decreases rm.len() - i,
    {
        let ghost before = checked_resources(rm.take(i as int));
        assert(rm.take(i + 1).drop_last() =~= rm.take(i as int));
        let (name, source) = &config.resources[i];
        if let Some(c) = resource_check(name, source) {
            r.push(c);
        }
        proof {
            let after = checked_resources(rm.take(i + 1));
            assert forall|k: int| 0 <= k < r@.len() implies is_resource_check(#[trigger] r@[k], rm[after[k]]) && 0 <= after[k] < i + 1 by {
                if k < before.len() {
                    assert(after[k] == before[k]);
                }
            }
        }
        i += 1;
    }
    assert(rm.take(rm.len() as int) =~= rm);
    let nr = r.len();
    let mut j: usize = 0;
    while j < config.charts.len()
        invariant
            j <= cm.len(),
            cm == config.charts@,
            rm == config.resources@,
            nr == checked_resources(rm).len(),
            r@.len() == nr + checked_charts(cm.take(j as int)).len(),
            forall|k: int| 0 <= k < nr ==> is_resource_check(#[trigger] r@[k], rm[checked_resources(rm)[k]]),
            forall|k: int|
                nr <= k < r@.len() ==> is_chart_check(
                    #[trigger] r@[k],
                    cm[checked_charts(cm.take(j as int))[k - nr]],
                ),
            forall|k: int|
                0 <= k < r@.len() - nr ==> 0 <= #[trigger] checked_charts(cm.take(j as int))[k] < j,
        decreases cm.len() - j,
    {
        let ghost before = checked_charts(cm.take(j as int));
        assert(cm.take(j + 1).drop_last() =~= cm.take(j as int));
        let (name, source) = &config.charts[j];
        if let Some(c) = chart_check(name, source) {
            r.push(c);
        }
        proof {
            let after = checked_charts(cm.take(j + 1));
            assert forall|k: int| nr <= k < r@.len() implies is_chart_check(#[trigger] r@[k], cm[after[k - nr]]) by {
                if k - nr < before.len() {
                    assert(after[k - nr] == before[k - nr]);
                }
            }
            assert forall|k: int| 0 <= k < r@.len() - nr implies 0 <= #[trigger] after[k] < j + 1 by {
                if k < before.len() {
                    assert(after[k] == before[k]);
                }
            }
        }
        j += 1;
    }
    assert(cm.take(cm.len() as int) =~= cm);
    r
}

/// The outcome of one check: the entry it adds to the report, if any, and
/// how the task that ran it ends (`ok`) with which message.
#[derive(Debug)]
pub struct OutdatedOutcome {
    pub entry: Option<OutdatedEntry>,
    pub ok: bool,
    pub message: String,
}

/// `e` reports check `c` with newest version `latest`.
pub open spec fn is_entry_of(e: OutdatedEntry, c: OutdatedCheck, latest: Option<Seq<char>>, up_to_date: bool) -> bool {
    &&& e.name@ == c.name@
    &&& e.kind@ == kind_label(c.kind)
    &&& e.source_type@ == c.source_type@
    &&& e.current@ == c.current@
    &&& opt_view(e.latest) == latest
    &&& e.up_to_date == up_to_date
}

/// Whether `current` is the newest version `latest`: a Kubernetes release
/// matches by version prefix, every other source by equal text.
pub open spec fn is_current(c: OutdatedCheck, latest: Seq<char>) -> bool {
    if c.query is LatestRelease {
        spec_versions_match(c.current@, latest)
    } else {
        c.current@ == latest
    }
}

/// No tags were found for a chart from git or OCI: the chart is left out of
/// the report.
pub open spec fn dropped_when_untagged(c: OutdatedCheck) -> bool {
    c.kind == DepKind::Chart && (c.query is LatestGitTag || c.query is LatestOci)
}

/// The entry that check `c` adds to the report given `answer`.
pub open spec fn outcome_entry_ok(c: OutdatedCheck, answer: VersionAnswer, e: Option<OutdatedEntry>) -> bool {
    match answer {
        Ok(Some(latest)) => e matches Some(x) && is_entry_of(x, c, Some(latest@), is_current(c, latest@)),
        Ok(None) => if dropped_when_untagged(c) {
            e is None
        } else {
            e matches Some(x) && is_entry_of(x, c, None, false)
        },
        Err(_) => e matches Some(x) && is_entry_of(x, c, None, false),
    }
}

/// The message that ends the task of check `c`.
pub open spec fn outcome_message(c: OutdatedCheck, answer: VersionAnswer) -> Seq<char> {
    match answer {
        Ok(Some(latest)) => c.name@ + ": "@ + c.current@ + " \u{2192} "@ + latest@,
        Ok(None) => c.name@ + ": no tags"@,
        Err(err) => c.name@ + ": "@ + err@,
    }
}

impl OutdatedCheck {
    /// The message that starts the task of this check.
    pub fn start_message(&self) -> (r: String)
        ensures
            r@ == "Checking "@ + self.name@ + "..."@,
    {
        let mut out: Vec<char> = Vec::new();
        push_str(&mut out, "Checking ");
        push_str(&mut out, self.name.as_str());
        push_str(&mut out, "...");
        string_from(&out)
    }
}

/// What one check gives, once its lookup answered.
pub fn outdated_outcome(check: &OutdatedCheck, answer: &VersionAnswer) -> (r: OutdatedOutcome)
    ensures
        outcome_entry_ok(*check, *answer, r.entry),
        r.ok == !(answer is Err),
        r.message@ == outcome_message(*check, *answer),
{
    let mut msg: Vec<char> = Vec::new();
    push_str(&mut msg, check.name.as_str());
    match answer {
        Ok(Some(latest)) => {
            push_str(&mut msg, ": ");
            push_str(&mut msg, check.current.as_str());
            push_str(&mut msg, " \u{2192} ");
            push_str(&mut msg, latest.as_str());
            let up_to_date = match check.query {
                VersionQuery::LatestRelease => versions_match(check.current.as_str(), latest.as_str()),
                _ => {
                    let a = chars_of(check.current.as_str());
                    let b = chars_of(latest.as_str());
                    crate::text::seq_eq(&a, &b)
                },
            };
            let entry = OutdatedEntry {
                name: check.name.clone(),
                kind: check.kind.label(),
                source_type: check.source_type,
                current: check.current.clone(),
                latest: Some(latest.clone()),
                up_to_date,
            };
            OutdatedOutcome { entry: Some(entry), ok: true, message: string_from(&msg) }
        },
        Ok(None) => {
            push_str(&mut msg, ": no tags");
            let dropped = match check.kind {
                DepKind::Chart => match check.query {
                    VersionQuery::LatestGitTag { .. } => true,
                    VersionQuery::LatestOci { .. } => true,
                    _ => false,
                },
                DepKind::Resource => false,
            };
            let entry = if dropped {
                None
            } else {
                Some(
                    OutdatedEntry {
                        name: check.name.clone(),
                        kind: check.kind.label(),
                        source_type: check.source_type,
                        current: check.current.clone(),
                        latest: None,
                        up_to_date: false,
                    },
                )
            };
            OutdatedOutcome { entry, ok: true, message: string_from(&msg) }
        },
        Err(err) => {
            push_str(&mut msg, ": ");
            push_str(&mut msg, err.as_str());
            let entry = OutdatedEntry {
                name: check.name.clone(),
                kind: check.kind.label(),
                source_type: check.source_type,
                current: check.current.clone(),
                latest: None,
                up_to_date: false,
            };
            OutdatedOutcome { entry: Some(entry), ok: false, message: string_from(&msg) }
        },
    }
}

/// Positions `0..n` of the checks whose outcome adds an entry to the report.
pub open spec fn reported(checks: Seq<OutdatedCheck>, answers: Seq<VersionAnswer>, n: int) -> Seq<int>
    decreases n,
{
    if n <= 0 {
        Seq::empty()
    } else if answers[n - 1] matches Ok(None) && dropped_when_untagged(checks[n - 1]) {
        reported(checks, answers, n - 1)
    } else {
        reported(checks, answers, n - 1).push(n - 1)
    }
}

/// `entries` is the report of `checks` answered by `answers`, in order.
pub open spec fn is_report(entries: Seq<OutdatedEntry>, checks: Seq<OutdatedCheck>, answers: Seq<VersionAnswer>) -> bool {
    let ks = reported(checks, answers, checks.len() as int);
    &&& entries.len() == ks.len()
    &&& forall|i: int|
        0 <= i < ks.len() ==> outcome_entry_ok(
            checks[ks[i]],
            answers[ks[i]],
            Some(#[trigger] entries[i]),
        )
}

/// The report of `husako outdated` for `config`, from the answers to its
/// checks (`outdated_checks(config)`, answered in order). Without a
/// configuration the report is empty.
pub fn check_outdated(config: Option<&HusakoConfig>, answers: &Vec<VersionAnswer>) -> (r: Vec<OutdatedEntry>)
    requires
        config matches Some(cfg) ==> answers@.len() == checked_resources(cfg.resources@).len()
            + checked_charts(cfg.charts@).len(),
    ensures
        match config {
            None => r@.len() == 0,
            Some(cfg) => exists|checks: Seq<OutdatedCheck>|
                #![trigger are_checks_of(checks, *cfg)]
                are_checks_of(checks, *cfg) && is_report(r@, checks, answers@),
        },
{
    let cfg = match config {
        None => {
            return Vec::new();
        },
        Some(c) => c,
    };
    let checks = outdated_checks(cfg);
    let mut r: Vec<OutdatedEntry> = Vec::new();
    let mut i: usize = 0;
    while i < checks.len()
        invariant
            i <= checks@.len(),
            checks@.len() == answers@.len(),
            r@.len() == reported(checks@, answers@, i as int).len(),
            forall|k: int|
                0 <= k < r@.len() ==> outcome_entry_ok(
                    checks@[reported(checks@, answers@, i as int)[k]],
                    answers@[reported(checks@, answers@, i as int)[k]],
                    Some(#[trigger] r@[k]),
                ),
        decreases checks@.len() - i,
    {
        let ghost before = reported(checks@, answers@, i as int);
        let outcome = outdated_outcome(&checks[i], &answers[i]);
        let ghost after = reported(checks@, answers@, i + 1);
        match outcome.entry {
            Some(e) => {
                r.push(e);
            },
            None => {},
        }
        proof {
            assert forall|k: int| 0 <= k < r@.len() implies outcome_entry_ok(
                checks@[after[k]],
                answers@[after[k]],
                Some(#[trigger] r@[k]),
            ) by {
                if k < before.len() {
                    assert(after[k] == before[k]);
                }
            }
        }
        i += 1;
    }
    r
}

// ---------------------------------------------------------------------------
// Updating dependencies
// ---------------------------------------------------------------------------

/// What `husako update` is asked to do.
#[derive(Debug)]
pub struct UpdateOptions {
    pub project_root: String,
    /// Update only the dependency of this name (the section flags are then
    /// not looked at).
    pub name: Option<String>,
    pub resources_only: bool,
    pub charts_only: bool,
    /// Report what would change without writing anything.
    pub dry_run: bool,
}

/// A dependency moved to a new version.
#[derive(Debug)]
pub struct UpdatedEntry {
    pub name: String,
    pub kind: &'static str,
    pub old_version: String,
    pub new_version: String,
}

/// What `husako update` did: the updated dependencies, those already up to
/// date, and those that failed with the reason.
#[derive(Debug)]
pub struct UpdateResult {
    pub updated: Vec<UpdatedEntry>,
    pub skipped: Vec<String>,
    pub failed: Vec<(String, String)>,
}

/// The entry is one that `options` asks to update.
pub open spec fn is_selected(options: UpdateOptions, e: OutdatedEntry) -> bool {
    match options.name {
        Some(target) => e.name@ == target@,
        None => !(options.resources_only && e.kind@ != "resource"@) && !(options.charts_only
            && e.kind@ != "chart"@),
    }
}

/// The entry is to be written to `husako.toml`: selected, with a newer
/// version known, and no dry run.
pub open spec fn spec_needs_edit(options: UpdateOptions, e: OutdatedEntry) -> bool {
    is_selected(options, e) && e.latest is Some && !e.up_to_date && !options.dry_run
}

/// The reason given when the newest version is not known.
pub open spec fn unknown_latest_message() -> Seq<char> {
    "could not determine latest version"@
}

/// `(name, old, new)` of the entries `0..n` that were updated: in a dry run
/// every selected entry with a newer version, otherwise those of them whose
/// edit succeeded.
pub open spec fn updated_upto(options: UpdateOptions, es: Seq<OutdatedEntry>, edited: Seq<bool>, n: int) -> Seq<int>
    decreases n,
{
    if n <= 0 {
        Seq::empty()
    } else {
        let e = es[n - 1];
        let prev = updated_upto(options, es, edited, n - 1);
        if is_selected(options, e) && e.latest is Some && !e.up_to_date && (options.dry_run
            || edited[n - 1]) {
            prev.push(n - 1)
        } else {
            prev
        }
    }
}

/// The positions among `0..n` of the selected entries that are up to date.
pub open spec fn skipped_upto(options: UpdateOptions, es: Seq<OutdatedEntry>, n: int) -> Seq<int>
    decreases n,
{
    if n <= 0 {
        Seq::empty()
    } else {
        let e = es[n - 1];
        let prev = skipped_upto(options, es, n - 1);
        if is_selected(options, e) && e.latest is Some && e.up_to_date {
            prev.push(n - 1)
        } else {
            prev
        }
    }
}

/// The positions among `0..n` of the selected entries whose newest version
/// is not known.
pub open spec fn failed_upto(options: UpdateOptions, es: Seq<OutdatedEntry>, n: int) -> Seq<int>
    decreases n,
{
    if n <= 0 {
        Seq::empty()
    } else {
        let e = es[n - 1];
        let prev = failed_upto(options, es, n - 1);
        if is_selected(options, e) && e.latest is None {
            prev.push(n - 1)
        } else {
            prev
        }
    }
}

/// `u` records the update of `e`.
pub open spec fn is_update_of(u: UpdatedEntry, e: OutdatedEntry) -> bool {
    &&& u.name@ == e.name@
    &&& u.kind@ == e.kind@
    &&& u.old_version@ == e.current@
    &&& e.latest matches Some(l) && u.new_version@ == l@
}

fn str_is(s: &str, lit: &str) -> (r: bool)
    ensures
        r == (s@ == lit@),
{
    let v = chars_of(s);
    eq_str(&v, lit)
}

/// Whether `options` asks to update `entry`.
pub fn is_selected_entry(options: &UpdateOptions, entry: &OutdatedEntry) -> (r: bool)
    ensures
        r == is_selected(*options, *entry),
{
    match &options.name {
        Some(target) => {
            let a = chars_of(entry.name.as_str());
            let b = chars_of(target.as_str());
            crate::text::seq_eq(&a, &b)
        },
        None => {
            if options.resources_only && !str_is(entry.kind, "resource") {
                return false;
            }
            if options.charts_only && !str_is(entry.kind, "chart") {
                return false;
            }
            true
        },
    }
}

/// Whether `entry` is to be written to `husako.toml` under `options`.
pub fn needs_edit(options: &UpdateOptions, entry: &OutdatedEntry) -> (r: bool)
    ensures
        r == spec_needs_edit(*options, *entry),
{
    is_selected_entry(options, entry) && entry.latest.is_some() && !entry.up_to_date
        && !options.dry_run
}

/// The result of `husako update` over the report `outdated`. `edited[i]`
/// tells whether writing the new version of `outdated[i]` to `husako.toml`
/// succeeded; it is looked at only where [`needs_edit`] holds.
pub fn update_dependencies(options: &UpdateOptions, outdated: &Vec<OutdatedEntry>, edited: &Vec<bool>) -> (r: UpdateResult)
    requires
        edited@.len() == outdated@.len(),
    ensures
        ({
            let us = updated_upto(*options, outdated@, edited@, outdated@.len() as int);
            &&& r.updated@.len() == us.len()
            &&& forall|i: int| 0 <= i < us.len() ==> is_update_of(#[trigger] r.updated@[i], outdated@[us[i]])
        }),
        ({
            let ss = skipped_upto(*options, outdated@, outdated@.len() as int);
            &&& r.skipped@.len() == ss.len()
            &&& forall|i: int| 0 <= i < ss.len() ==> (#[trigger] r.skipped@[i])@ == outdated@[ss[i]].name@
        }),
        ({
            let fs = failed_upto(*options, outdated@, outdated@.len() as int);
            &&& r.failed@.len() == fs.len()
            &&& forall|i: int|
                0 <= i < fs.len() ==> (#[trigger] r.failed@[i]).0@ == outdated@[fs[i]].name@
                    && r.failed@[i].1@ == unknown_latest_message()
        }),
{
    let mut updated: Vec<UpdatedEntry> = Vec::new();
    let mut skipped: Vec<String> = Vec::new();
    let mut failed: Vec<(String, String)> = Vec::new();
    let ghost es = outdated@;
    let mut i: usize = 0;
    while i < outdated.len()
        invariant
            i <= es.len(),
            es == outdated@,
            edited@.len() == es.len(),
            ({
                let us = updated_upto(*options, es, edited@, i as int);
                &&& updated@.len() == us.len()
                &&& forall|k: int| 0 <= k < us.len() ==> is_update_of(#[trigger] updated@[k], es[us[k]])
            }),
            ({
                let ss = skipped_upto(*options, es, i as int);
                &&& skipped@.len() == ss.len()
                &&& forall|k: int| 0 <= k < ss.len() ==> (#[trigger] skipped@[k])@ == es[ss[k]].name@
            }),
            ({
                let fs = failed_upto(*options, es, i as int);
                &&& failed@.len() == fs.len()
                &&& forall|k: int|
                    0 <= k < fs.len() ==> (#[trigger] failed@[k]).0@ == es[fs[k]].name@
                        && failed@[k].1@ == unknown_latest_message()
            }),
        decreases es.len() - i,
    {
        let ghost us0 = updated_upto(*options, es, edited@, i as int);
        let ghost ss0 = skipped_upto(*options, es, i as int);
        let ghost fs0 = failed_upto(*options, es, i as int);
        let ghost us1 = updated_upto(*options, es, edited@, i + 1);
        let ghost ss1 = skipped_upto(*options, es, i + 1);
        let ghost fs1 = failed_upto(*options, es, i + 1);
        let e = &outdated[i];
        if is_selected_entry(options, e) {
            match &e.latest {
                None => {
                    failed.push((e.name.clone(), String::from_str("could not determine latest version")));
                },
                Some(latest) => {
                    if e.up_to_date {
                        skipped.push(e.name.clone());
                    } else if options.dry_run || edited[i] {
                        updated.push(
                            UpdatedEntry {
                                name: e.name.clone(),
                                kind: e.kind,
                                old_version: e.current.clone(),
                                new_version: latest.clone(),
                            },
                        );
                    }
                },
            }
        }
        proof {
            assert forall|k: int| 0 <= k < us1.len() implies is_update_of(#[trigger] updated@[k], es[us1[k]]) by {
                if k < us0.len() {
                    assert(us1[k] == us0[k]);
                }
            }
            assert forall|k: int| 0 <= k < ss1.len() implies (#[trigger] skipped@[k])@ == es[ss1[k]].name@ by {
                if k < ss0.len() {
                    assert(ss1[k] == ss0[k]);
                }
            }
            assert forall|k: int|
                0 <= k < fs1.len() implies (#[trigger] failed@[k]).0@ == es[fs1[k]].name@
                    && failed@[k].1@ == unknown_latest_message() by {
                if k < fs0.len() {
                    assert(fs1[k] == fs0[k]);
                }
            }
        }
        i += 1;
    }
    UpdateResult { updated, skipped, failed }
}

// ---------------------------------------------------------------------------
// Project summary and dependency details
// ---------------------------------------------------------------------------

/// The overview of a project shown by `husako info`.
#[derive(Debug)]
pub struct ProjectSummary {
    pub project_root: String,
    pub config_valid: bool,
    pub resources: Vec<DependencyInfo>,
    pub charts: Vec<DependencyInfo>,
    pub cache_size: u64,
    pub type_file_count: usize,
    pub types_size: u64,
}

/// The overview of a project, from the outcome of loading its configuration
/// and the sizes measured on disk. A configuration that failed to load makes
/// the summary invalid and lists no dependencies.
pub fn project_summary(
    project_root: &String,
    config: &Result<Option<HusakoConfig>, ConfigError>,
    cache_size: u64,
    type_file_count: usize,
    types_size: u64,
) -> (r: ProjectSummary)
    ensures
        r.project_root@ == project_root@,
        r.config_valid == config is Ok,
        match config {
            Ok(Some(cfg)) => lists_resources(r.resources@, cfg.resources@) && lists_charts(
                r.charts@,
                cfg.charts@,
            ),
            _ => r.resources@.len() == 0 && r.charts@.len() == 0,
        },
        r.cache_size == cache_size,
        r.type_file_count == type_file_count,
        r.types_size == types_size,
{
    let (config_valid, resources, charts) = match config {
        Ok(Some(cfg)) => (true, resource_infos(&cfg.resources), chart_infos(&cfg.charts)),
        Ok(None) => (true, Vec::new(), Vec::new()),
        Err(_) => (false, Vec::new(), Vec::new()),
    };
    ProjectSummary {
        project_root: project_root.clone(),
        config_valid,
        resources,
        charts,
        cache_size,
        type_file_count,
        types_size,
    }
}

/// `root` joined with the path `rel` (as `Path::join`: an absolute `rel`
/// replaces `root`).
pub open spec fn path_join(root: Seq<char>, rel: Seq<char>) -> Seq<char> {
    if rel.len() > 0 && rel[0] == '/' {
        rel
    } else if root.len() == 0 {
        rel
    } else if root.last() == '/' {
        root + rel
    } else {
        root + seq!['/'] + rel
    }
}

pub fn join_path(root: &String, rel: &Vec<char>) -> (r: String)
    ensures
        r@ == path_join(root@, rel@),
{
    if rel.len() > 0 && rel[0] == '/' {
        return string_from(rel);
    }
    let mut out = chars_of(root.as_str());
    if out.len() > 0 && out[out.len() - 1] != '/' {
        out.push('/');
    }
    crate::text::push_all(&mut out, rel);
    string_from(&out)
}

/// Where the cached release of a resource lies; other sources have no cache.
pub open spec fn resource_cache_path(root: Seq<char>, source: SchemaSource) -> Option<Seq<char>> {
    match source {
        SchemaSource::Release { version } => Some(
            path_join(root, ".husako/cache/release/v"@ + version@ + ".0"@),
        ),
        _ => None,
    }
}

/// A dependency found by name, with what is known of it before looking on disk.
#[derive(Debug)]
pub enum DependencyTarget {
    Resource { info: DependencyInfo, cache_path: Option<String> },
    Chart { info: DependencyInfo },
}

/// `dependency '<name>' not found`
pub open spec fn not_found_message(name: Seq<char>) -> Seq<char> {
    "dependency '"@ + name + "' not found"@
}

/// Finds the dependency `name`: among the resources first, then among the
/// charts.
pub fn locate_dependency(project_root: &String, config: Option<&HusakoConfig>, name: &String) -> (r: Result<DependencyTarget, ConfigError>)
    ensures
        match config {
            None => r matches Err(ConfigError::Validation(m)) && m@ == "no husako.toml found"@,
            Some(cfg) => match lookup(keyed(cfg.resources@), name@) {
                Some(src) => r matches Ok(DependencyTarget::Resource { info, cache_path })
                    && is_resource_info(info, name@, src) && opt_view(cache_path)
                    == resource_cache_path(project_root@, src),
                None => match lookup(keyed(cfg.charts@), name@) {
                    Some(src) => r matches Ok(DependencyTarget::Chart { info }) && is_chart_info(
                        info,
                        name@,
                        src,
                    ),
                    None => r matches Err(ConfigError::Validation(m)) && m@ == not_found_message(
                        name@,
                    ),
                },
            },
        },
{
    let cfg = match config {
        None => {
            return Err(ConfigError::Validation(String::from_str("no husako.toml found")));
        },
        Some(c) => c,
    };
    let i = find_key(&cfg.resources, name);
    proof {
        lemma_key_pos(keyed(cfg.resources@), name@);
    }
    if i < cfg.resources.len() {
        let source = &cfg.resources[i].1;
        assert(keyed(cfg.resources@)[i as int].1 == cfg.resources@[i as int].1);
        let info = resource_info(name, source);
        let cache_path = match source {
            SchemaSource::Release { version } => {
                let mut rel: Vec<char> = Vec::new();
                push_str(&mut rel, ".husako/cache/release/v");
                push_str(&mut rel, version.as_str());
                push_str(&mut rel, ".0");
                Some(join_path(project_root, &rel))
            },
            _ => None,
        };
        return Ok(DependencyTarget::Resource { info, cache_path });
    }
    let j = find_key(&cfg.charts, name);
    proof {
        lemma_key_pos(keyed(cfg.charts@), name@);
    }
    if j < cfg.charts.len() {
        assert(keyed(cfg.charts@)[j as int].1 == cfg.charts@[j as int].1);
        let info = chart_info(name, &cfg.charts[j].1);
        return Ok(DependencyTarget::Chart { info });
    }
    let mut out: Vec<char> = Vec::new();
    push_str(&mut out, "dependency '");
    push_str(&mut out, name.as_str());
    push_str(&mut out, "' not found");
    Err(ConfigError::Validation(string_from(&out)))
}

/// The details of one dependency shown by `husako info <name>`.
#[derive(Debug)]
pub struct DependencyDetail {
    pub info: DependencyInfo,
    pub cache_path: Option<String>,
    pub cache_size: u64,
    pub type_files: Vec<(String, u64)>,
    pub schema_property_count: Option<(usize, usize)>,
    pub group_versions: Vec<(String, Vec<String>)>,
}

/// The group-version that a generated declaration file is named after:
/// `apps__v1.d.ts` gives `apps/v1`. Other files give none.
pub open spec fn spec_group_version_of(file_name: Seq<char>) -> Option<Seq<char>> {
    if has_suffix(file_name, ".d.ts"@) {
        Some(
            replace_all(
                trim_end_seq(file_name.take(file_name.len() - 3), ".d"@),
                "__"@,
                "/"@,
            ),
        )
    } else {
        None
    }
}

/// The group-version a declaration file stands for, if it is one.
pub fn group_version_of(file_name: &String) -> (r: Option<String>)
    ensures
        opt_view(r) == spec_group_version_of(file_name@),
{
    let v = chars_of(file_name.as_str());
    let suffix = chars_of(".d.ts");
    if !crate::text::ends_with(&v, &suffix) {
        return None;
    }
    proof {
        reveal_strlit(".d.ts");
    }
    let stem = crate::text::slice(&v, 0, v.len() - 3);
    assert(stem@ =~= file_name@.take(file_name@.len() - 3));
    let dot_d = chars_of(".d");
    let trimmed = crate::text::trim_end_matches(&stem, &dot_d);
    let from = chars_of("__");
    let to = chars_of("/");
    let gv = crate::text::replace(&trimmed, &from, &to);
    Some(string_from(&gv))
}

/// The files among directory entries `(name, size of a file)`, with their
/// paths under `dir`, in the order of the entries.
pub open spec fn dir_files(dir: Seq<char>, entries: Seq<(String, Option<u64>)>) -> Seq<(Seq<char>, u64)>
    decreases entries.len(),
{
    if entries.len() == 0 {
        Seq::empty()
    } else {
        let prev = dir_files(dir, entries.drop_last());
        match entries.last().1 {
            Some(size) => prev.push((path_join(dir, entries.last().0@), size)),
            None => prev,
        }
    }
}

/// The group-versions named by directory entries, in the order of the entries.
pub open spec fn dir_group_versions(entries: Seq<(String, Option<u64>)>) -> Seq<Seq<char>>
    decreases entries.len(),
{
    if entries.len() == 0 {
        Seq::empty()
    } else {
        let prev = dir_group_versions(entries.drop_last());
        match spec_group_version_of(entries.last().0@) {
            Some(gv) => prev.push(gv),
            None => prev,
        }
    }
}

/// The pair views of a list of `(text, number)`.
pub open spec fn text_pairs(v: Seq<(String, u64)>) -> Seq<(Seq<char>, u64)> {
    v.map_values(|e: (String, u64)| (e.0@, e.1))
}

/// The texts of a list of `(text, number)`.
pub open spec fn texts_of(items: Seq<(Seq<char>, u64)>) -> Seq<Seq<char>> {
    items.map_values(|e: (Seq<char>, u64)| e.0)
}

/// `sorted` holds the items of `items` ordered by their text (stably).
pub open spec fn sorted_by_text(sorted: Seq<(Seq<char>, u64)>, items: Seq<(Seq<char>, u64)>) -> bool {
    exists|p: Seq<int>|
        #![trigger is_name_order(texts_of(items), p)]
        is_name_order(texts_of(items), p) && sorted.len() == p.len()
            && forall|i: int| 0 <= i < p.len() ==> #[trigger] sorted[i] == items[p[i]]
}

/// `sorted` holds the texts of `items` in order (stably).
pub open spec fn sorted_texts(sorted: Seq<Seq<char>>, items: Seq<Seq<char>>) -> bool {
    exists|p: Seq<int>|
        #![trigger is_name_order(items, p)]
        is_name_order(items, p) && sorted.len() == p.len() && forall|i: int|
            0 <= i < p.len() ==> #[trigger] sorted[i] == items[p[i]]
}

fn sort_files(v: &Vec<(String, u64)>) -> (r: Vec<(String, u64)>)
    ensures
        sorted_by_text(text_pairs(r@), text_pairs(v@)),
{
    let p = name_order(v);
    let ghost pv = p@.map_values(|x: usize| x as int);
    let ghost items = text_pairs(v@);
    assert(texts_of(items) =~= keyed(v@).map_values(|e: (Seq<char>, u64)| e.0));
    let mut r: Vec<(String, u64)> = Vec::new();
    let mut i: usize = 0;
    while i < p.len()
        invariant
            i <= p.len(),
            pv == p@.map_values(|x: usize| x as int),
            items == text_pairs(v@),
            is_name_order(texts_of(items), pv),
            r@.len() == i,
            forall|k: int| 0 <= k < i ==> #[trigger] text_pairs(r@)[k] == items[pv[k]],
        decreases p.len() - i,
    {
        assert(pv[i as int] == p@[i as int] as int);
        let k = p[i];
        let name = v[k].0.clone();
        assert(name@ == v@[k as int].0@);
        assert(items[k as int] == (v@[k as int].0@, v@[k as int].1));
        let ghost prev = r@;
        r.push((name, v[k].1));
        proof {
            assert forall|m: int| 0 <= m < i + 1 implies #[trigger] text_pairs(r@)[m] == items[pv[m]] by {
                if m < i {
                    assert(r@[m] == prev[m]);
                    assert(text_pairs(prev)[m] == items[pv[m]]);
                } else {
                    assert(r@[m] == (name, v@[k as int].1));
                }
            }
        }
        i += 1;
    }
    r
}

/// The texts of a list of `(text, list)`.
pub open spec fn firsts(v: Seq<(String, Vec<String>)>) -> Seq<Seq<char>> {
    v.map_values(|e: (String, Vec<String>)| e.0@)
}

fn sort_texts(v: &Vec<(String, Vec<String>)>) -> (r: Vec<(String, Vec<String>)>)
    ensures
        sorted_texts(firsts(r@), firsts(v@)),
        forall|i: int| 0 <= i < r@.len() ==> (#[trigger] r@[i]).1@.len() == 0,
{
    let p = name_order(v);
    let ghost pv = p@.map_values(|x: usize| x as int);
    let ghost items = firsts(v@);
    assert(items =~= keyed(v@).map_values(|e: (Seq<char>, Vec<String>)| e.0));
    let mut r: Vec<(String, Vec<String>)> = Vec::new();
    let mut i: usize = 0;
    while i < p.len()
        invariant
            i <= p.len(),
            pv == p@.map_values(|x: usize| x as int),
            items == firsts(v@),
            is_name_order(items, pv),
            r@.len() == i,
            forall|k: int| 0 <= k < i ==> (#[trigger] r@[k]).0@ == items[pv[k]],
            forall|k: int| 0 <= k < i ==> (#[trigger] r@[k]).1@.len() == 0,
        decreases p.len() - i,
    {
        assert(pv[i as int] == p@[i as int] as int);
        let k = p[i];
        r.push((v[k].0.clone(), Vec::new()));
        i += 1;
    }
    assert(firsts(r@).len() == pv.len());
    assert forall|k: int| 0 <= k < pv.len() implies #[trigger] firsts(r@)[k] == items[pv[k]] by {
        assert(firsts(r@)[k] == r@[k].0@);
    }
    r
}

/// The details of a resource dependency: `entries` are the entries of its
/// types directory `types_dir`, each with its size when it is a file, and
/// `cache_size` the size of its cache on disk. Type files are listed by
/// path; group-versions are read off the declaration files, sorted.
pub fn resource_detail(
    info: DependencyInfo,
    cache_path: Option<String>,
    cache_size: u64,
    types_dir: &String,
    entries: &Vec<(String, Option<u64>)>,
) -> (r: DependencyDetail)
    ensures
        r.info == info,
        opt_view(r.cache_path) == opt_view(cache_path),
        r.cache_size == cache_size,
        sorted_by_text(text_pairs(r.type_files@), dir_files(types_dir@, entries@)),
        r.schema_property_count is None,
        sorted_texts(
            firsts(r.group_versions@),
            dir_group_versions(entries@),
        ),
        forall|i: int| 0 <= i < r.group_versions@.len() ==> (#[trigger] r.group_versions@[i]).1@.len() == 0,
{
    let mut files: Vec<(String, u64)> = Vec::new();
    let mut gvs: Vec<(String, Vec<String>)> = Vec::new();
    let mut i: usize = 0;
    while i < entries.len()
        invariant
            i <= entries@.len(),
            text_pairs(files@) == dir_files(types_dir@, entries@.take(i as int)),
            firsts(gvs@) == dir_group_versions(entries@.take(i as int)),
        decreases entries@.len() - i,
    {
        assert(entries@.take(i + 1).drop_last() =~= entries@.take(i as int));
        let (name, size) = &entries[i];
        match size {
            Some(sz) => {
                let rel = chars_of(name.as_str());
                let path = join_path(types_dir, &rel);
                files.push((path, *sz));
                assert(text_pairs(files@) =~= text_pairs(files@.drop_last()).push((path@, *sz)));
            },
            None => {},
        }
        match group_version_of(name) {
            Some(gv) => {
                gvs.push((gv, Vec::new()));
                assert(firsts(gvs@) =~= firsts(gvs@.drop_last()).push(gv@));
            },
            None => {},
        }
        i += 1;
    }
    assert(entries@.take(entries@.len() as int) =~= entries@);
    DependencyDetail {
        info,
        cache_path,
        cache_size,
        type_files: sort_files(&files),
        schema_property_count: None,
        group_versions: sort_texts(&gvs),
    }
}

/// A line of a chart's declaration file that declares a top-level property:
/// indented by two spaces exactly, with a `: ` and none of the words that
/// start a declaration.
pub open spec fn is_top_level_property(l: Seq<char>) -> bool {
    &&& has_prefix(l, "  "@)
    &&& !has_prefix(l, "    "@)
    &&& (contains_seq(l, "?: "@) || contains_seq(l, ": "@))
    &&& !contains_seq(l, "export"@)
    &&& !contains_seq(l, "class"@)
    &&& !contains_seq(l, "interface"@)
}

/// Number of lines among `ls` that declare a top-level property.
pub open spec fn count_top_level(ls: Seq<Seq<char>>) -> nat
    decreases ls.len(),
{
    if ls.len() == 0 {
        0
    } else {
        count_top_level(ls.drop_last()) + if is_top_level_property(ls.last()) {
            1nat
        } else {
            0nat
        }
    }
}

/// The property counts of a chart's values declaration: every `?: ` and
/// every `: ` counted (so an optional property counts twice), and the
/// top-level properties. Lines are taken between line feeds; a carriage
/// return before a line feed changes neither count.
pub open spec fn spec_chart_schema_props(content: Seq<char>) -> (nat, nat) {
    (
        count_matches(content, "?: "@) + count_matches(content, ": "@),
        count_top_level(split_on(content, '\n')),
    )
}

/// Counts the properties declared in a chart's values declaration file.
pub fn chart_schema_props(content: &String) -> (r: (usize, usize))
    ensures
        r.0 == spec_chart_schema_props(content@).0,
        r.1 == spec_chart_schema_props(content@).1,
{
    let v = chars_of(content.as_str());
    let optional = chars_of("?: ");
    let plain = chars_of(": ");
    proof {
        reveal_strlit("?: ");
        reveal_strlit(": ");
    }
    let a = count_matches_of(&v, &optional);
    let b = count_matches_of(&v, &plain);
    assert(optional@.len() == 3 && plain@.len() == 2);
    assert(a * 3 <= v@.len() && b * 2 <= v@.len()) by {
        assert(a * optional@.len() == a * 3);
        assert(b * plain@.len() == b * 2);
    }
    let n = v.len();
    assert(a + b <= n);
    let lines = split(&v, '\n');
    let ghost ls = lines.deep_view();
    let mut top: usize = 0;
    let mut i: usize = 0;
    while i < lines.len()
        invariant
            i <= lines.len(),
            ls == lines.deep_view(),
            top == count_top_level(ls.take(i as int)),
            top <= i,
        decreases lines.len() - i,
    {
        assert(ls.take(i + 1).drop_last() =~= ls.take(i as int));
        let l = &lines[i];
        assert(ls[i as int] == l@);
        if starts_with_str(l, "  ") && !starts_with_str(l, "    ") && (contains_str(l, "?: ")
            || contains_str(l, ": ")) && !contains_str(l, "export") && !contains_str(l, "class")
            && !contains_str(l, "interface") {
            top += 1;
        }
        i += 1;
    }
    assert(ls.take(ls.len() as int) =~= ls);
    (a + b, top)
}

/// The details of a chart dependency: `dts_size` and `js_size` are the
/// sizes of its generated `.d.ts` and `.js` files where they exist, and
/// `dts_content` the text of the first where it could be read.
pub fn chart_detail(
    info: DependencyInfo,
    types_dir: &String,
    chart_name: &String,
    dts_size: Option<u64>,
    js_size: Option<u64>,
    dts_content: Option<&String>,
) -> (r: DependencyDetail)
    ensures
        r.info == info,
        r.cache_path is None,
        r.cache_size == 0,
        text_pairs(r.type_files@) == {
            let d = match dts_size {
                Some(s) => seq![(path_join(types_dir@, chart_name@ + ".d.ts"@), s)],
                None => Seq::empty(),
            };
            let j = match js_size {
                Some(s) => seq![(path_join(types_dir@, chart_name@ + ".js"@), s)],
                None => Seq::empty(),
            };
            d + j
        },
        match dts_content {
            Some(c) => r.schema_property_count matches Some(n) && n.0 == spec_chart_schema_props(c@).0
                && n.1 == spec_chart_schema_props(c@).1,
            None => r.schema_property_count is None,
        },
        r.group_versions@.len() == 0,
{
    let mut files: Vec<(String, u64)> = Vec::new();
    let ghost mut expect: Seq<(Seq<char>, u64)> = Seq::empty();
    match dts_size {
        Some(s) => {
            let mut rel = chars_of(chart_name.as_str());
            push_str(&mut rel, ".d.ts");
            let path = join_path(types_dir, &rel);
            files.push((path, s));
            proof {
                expect = seq![(path_join(types_dir@, chart_name@ + ".d.ts"@), s)];
            }
        },
        None => {},
    }
    assert(text_pairs(files@) =~= expect);
    match js_size {
        Some(s) => {
            let mut rel = chars_of(chart_name.as_str());
            push_str(&mut rel, ".js");
            let path = join_path(types_dir, &rel);
            files.push((path, s));
            assert(text_pairs(files@) =~= expect + seq![(path_join(types_dir@, chart_name@ + ".js"@), s)]);
        },
        None => {
            assert(expect + Seq::<(Seq<char>, u64)>::empty() =~= expect);
        },
    }
    let counts = match dts_content {
        Some(c) => Some(chart_schema_props(c)),
        None => None,
    };
    DependencyDetail {
        info,
        cache_path: None,
        cache_size: 0,
        type_files: files,
        schema_property_count: counts,
        group_versions: Vec::new(),
    }
}

// ---------------------------------------------------------------------------
// Laws
// ---------------------------------------------------------------------------

/// A template's name reads back as the same template: the names are among
/// those `parse` accepts, and no two templates share a name.
pub proof fn lemma_template_name_round_trip(t: TemplateName, u: TemplateName)
    ensures
        template_label(t) == "simple"@ || template_label(t) == "project"@ || template_label(t)
            == "multi-env"@,
        template_label(t) == template_label(u) ==> t == u,
{
    reveal_strlit("simple");
    reveal_strlit("project");
    reveal_strlit("multi-env");
    if template_label(t) == template_label(u) && t != u {
        assert(template_label(t).len() != template_label(u).len() || template_label(t)[0]
            != template_label(u)[0]);
    }
}

/// Number of the entries among `es[0..n]` that `options` selects.
pub open spec fn selected_count(options: UpdateOptions, es: Seq<OutdatedEntry>, n: int) -> nat
    decreases n,
{
    if n <= 0 {
        0
    } else {
        selected_count(options, es, n - 1) + if is_selected(options, es[n - 1]) {
            1nat
        } else {
            0nat
        }
    }
}

/// Every selected entry ends in at most one of the three lists of an
/// update, and in a dry run in exactly one: updated, skipped or failed.
pub proof fn lemma_update_accounts_for_selected(
    options: UpdateOptions,
    es: Seq<OutdatedEntry>,
    edited: Seq<bool>,
    n: int,
)
    requires
        0 <= n <= es.len(),
    ensures
        updated_upto(options, es, edited, n).len() + skipped_upto(options, es, n).len()
            + failed_upto(options, es, n).len() <= selected_count(options, es, n),
        options.dry_run ==> updated_upto(options, es, edited, n).len() + skipped_upto(
            options,
            es,
            n,
        ).len() + failed_upto(options, es, n).len() == selected_count(options, es, n),
    decreases n,
{
    if n > 0 {
        lemma_update_accounts_for_selected(options, es, edited, n - 1);
    }
}

/// An update never moves an entry that is already up to date, nor one whose
/// newest version is unknown.
pub proof fn lemma_update_only_outdated(options: UpdateOptions, es: Seq<OutdatedEntry>, edited: Seq<bool>, n: int)
    requires
        0 <= n <= es.len(),
    ensures
        forall|k: int|
            0 <= k < updated_upto(options, es, edited, n).len() ==> {
                let e = es[#[trigger] updated_upto(options, es, edited, n)[k]];
                is_selected(options, e) && e.latest is Some && !e.up_to_date
            },
    decreases n,
{
    if n > 0 {
        lemma_update_only_outdated(options, es, edited, n - 1);
        let prev = updated_upto(options, es, edited, n - 1);
        let cur = updated_upto(options, es, edited, n);
        assert forall|k: int| 0 <= k < cur.len() implies {
            let e = es[#[trigger] cur[k]];
            is_selected(options, e) && e.latest is Some && !e.up_to_date
        } by {
            if k < prev.len() {
                assert(cur[k] == prev[k]);
            }
        }
    }
}

/// In a report of `husako outdated`, an entry is up to date only when its
/// newest version is known.
pub proof fn lemma_up_to_date_has_latest(entries: Seq<OutdatedEntry>, checks: Seq<OutdatedCheck>, answers: Seq<VersionAnswer>)
    requires
        is_report(entries, checks, answers),
    ensures
        forall|i: int| 0 <= i < entries.len() && (#[trigger] entries[i]).up_to_date ==> entries[i].latest is Some,
{
    let ks = reported(checks, answers, checks.len() as int);
    assert forall|i: int| 0 <= i < entries.len() && (#[trigger] entries[i]).up_to_date implies entries[i].latest is Some by {
        assert(outcome_entry_ok(checks[ks[i]], answers[ks[i]], Some(entries[i])));
    }
}

} // verus!
