//! Editing `husako.toml`: the entries written for a dependency, which field
//! an update of its version rewrites, and what a removal reports. The
//! document itself is edited by the caller, keeping its formatting.
use vstd::prelude::*;

use crate::config::{ChartSource, PluginSource, SchemaSource};
use crate::table::{keys_unique, key_pos, lookup, lemma_key_pos, lemma_key_pos_at};
use crate::text::{push_str, string_from};

verus! {

/// The views of `(key, value)` fields.
pub open spec fn fields_view(v: Seq<(String, String)>) -> Seq<(Seq<char>, Seq<char>)> {
    v.map_values(|e: (String, String)| (e.0@, e.1@))
}

/// The fields of a resource dependency's inline table, in order.
pub open spec fn resource_fields(source: SchemaSource) -> Seq<(Seq<char>, Seq<char>)> {
    match source {
        SchemaSource::Release { version } => seq![("source"@, "release"@), ("version"@, version@)],
        SchemaSource::Cluster { cluster } => match cluster {
            Some(c) => seq![("source"@, "cluster"@), ("cluster"@, c@)],
            None => seq![("source"@, "cluster"@)],
        },
        SchemaSource::Git { repo, tag, path } => seq![
            ("source"@, "git"@),
            ("repo"@, repo@),
            ("tag"@, tag@),
            ("path"@, path@),
        ],
        SchemaSource::File { path } => seq![("source"@, "file"@), ("path"@, path@)],
    }
}

/// The fields of a chart dependency's inline table, in order.
pub open spec fn chart_fields(source: ChartSource) -> Seq<(Seq<char>, Seq<char>)> {
    match source {
        ChartSource::Registry { repo, chart, version } => seq![
            ("source"@, "registry"@),
            ("repo"@, repo@),
            ("chart"@, chart@),
            ("version"@, version@),
        ],
        ChartSource::ArtifactHub { package, version } => seq![
            ("source"@, "artifacthub"@),
            ("package"@, package@),
            ("version"@, version@),
        ],
        ChartSource::File { path } => seq![("source"@, "file"@), ("path"@, path@)],
        ChartSource::Git { repo, tag, path } => seq![
            ("source"@, "git"@),
            ("repo"@, repo@),
            ("tag"@, tag@),
            ("path"@, path@),
        ],
        ChartSource::Oci { reference, version } => seq![
            ("source"@, "oci"@),
            ("reference"@, reference@),
            ("version"@, version@),
        ],
    }
}

/// The fields of a plugin's inline table, in order.
pub open spec fn plugin_fields(source: PluginSource) -> Seq<(Seq<char>, Seq<char>)> {
    match source {
        PluginSource::Git { url, path } => match path {
            Some(p) => seq![("source"@, "git"@), ("url"@, url@), ("path"@, p@)],
            None => seq![("source"@, "git"@), ("url"@, url@)],
        },
        PluginSource::Path { path } => seq![("source"@, "path"@), ("path"@, path@)],
    }
}

/// In a table whose names are unique, each entry is what its name looks up.
proof fn lemma_lookup_unique_at(f: Seq<(Seq<char>, Seq<char>)>, i: int)
    requires
        keys_unique(f),
        0 <= i < f.len(),
    ensures
        lookup(f, f[i].0) == Some(f[i].1),
{
    lemma_key_pos_at(f, f[i].0, i);
}

/// The names differ pairwise, by length or by first letter.
proof fn lemma_names_apart(f: Seq<(Seq<char>, Seq<char>)>)
    requires
        forall|i: int, j: int|
            0 <= i < j < f.len() ==> #[trigger] f[i].0.len() != #[trigger] f[j].0.len() || (f[i].0.len() > 0
                && f[j].0.len() > 0 && f[i].0[0] != f[j].0[0]),
    ensures
        keys_unique(f),
{
    assert forall|i: int, j: int| 0 <= i < f.len() && 0 <= j < f.len() && i != j implies f[i].0 != f[j].0 by {
        if i < j {
            assert(f[i].0.len() != f[j].0.len() || f[i].0[0] != f[j].0[0]);
        } else {
            assert(f[j].0.len() != f[i].0.len() || f[j].0[0] != f[i].0[0]);
        }
    }
}

/// The fields written for a chart source name each field of the source
/// once and carry its value, after a `source` field naming its kind, so the
/// source can be read back from them.
pub proof fn lemma_chart_fields_hold_the_source(source: ChartSource)
    ensures
        ({
            let f = chart_fields(source);
            &&& keys_unique(f)
            &&& match source {
                ChartSource::Registry { repo, chart, version } => f.len() == 4 && lookup(f, "source"@)
                    == Some("registry"@) && lookup(f, "repo"@) == Some(repo@) && lookup(f, "chart"@)
                    == Some(chart@) && lookup(f, "version"@) == Some(version@),
                ChartSource::ArtifactHub { package, version } => f.len() == 3 && lookup(f, "source"@)
                    == Some("artifacthub"@) && lookup(f, "package"@) == Some(package@) && lookup(
                    f,
                    "version"@,
                ) == Some(version@),
                ChartSource::File { path } => f.len() == 2 && lookup(f, "source"@) == Some("file"@)
                    && lookup(f, "path"@) == Some(path@),
                ChartSource::Git { repo, tag, path } => f.len() == 4 && lookup(f, "source"@) == Some(
                    "git"@,
                ) && lookup(f, "repo"@) == Some(repo@) && lookup(f, "tag"@) == Some(tag@) && lookup(
                    f,
                    "path"@,
                ) == Some(path@),
                ChartSource::Oci { reference, version } => f.len() == 3 && lookup(f, "source"@)
                    == Some("oci"@) && lookup(f, "reference"@) == Some(reference@) && lookup(
                    f,
                    "version"@,
                ) == Some(version@),
            }
        }),
{
    reveal_strlit("source");
    reveal_strlit("repo");
    reveal_strlit("tag");
    reveal_strlit("path");
    reveal_strlit("chart");
    reveal_strlit("version");
    reveal_strlit("package");
    reveal_strlit("reference");
    reveal_strlit("cluster");
    reveal_strlit("url");
    let f = chart_fields(source);
    lemma_names_apart(f);
    assert forall|i: int| 0 <= i < f.len() implies lookup(f, #[trigger] f[i].0) == Some(f[i].1) by {
        lemma_lookup_unique_at(f, i);
    }
}

/// The fields written for a resource source name each field of the source
/// once and carry its value, after a `source` field naming its kind.
pub proof fn lemma_resource_fields_hold_the_source(source: SchemaSource)
    ensures
        ({
            let f = resource_fields(source);
            &&& keys_unique(f)
            &&& match source {
                SchemaSource::Release { version } => f.len() == 2 && lookup(f, "source"@) == Some(
                    "release"@,
                ) && lookup(f, "version"@) == Some(version@),
                SchemaSource::Cluster { cluster } => lookup(f, "source"@) == Some("cluster"@) && match cluster {
                    Some(c) => f.len() == 2 && lookup(f, "cluster"@) == Some(c@),
                    None => f.len() == 1,
                },
                SchemaSource::Git { repo, tag, path } => f.len() == 4 && lookup(f, "source"@) == Some(
                    "git"@,
                ) && lookup(f, "repo"@) == Some(repo@) && lookup(f, "tag"@) == Some(tag@) && lookup(
                    f,
                    "path"@,
                ) == Some(path@),
                SchemaSource::File { path } => f.len() == 2 && lookup(f, "source"@) == Some("file"@)
                    && lookup(f, "path"@) == Some(path@),
            }
        }),
{
    reveal_strlit("source");
    reveal_strlit("repo");
    reveal_strlit("tag");
    reveal_strlit("path");
    reveal_strlit("chart");
    reveal_strlit("version");
    reveal_strlit("package");
    reveal_strlit("reference");
    reveal_strlit("cluster");
    reveal_strlit("url");
    let f = resource_fields(source);
    lemma_names_apart(f);
    assert forall|i: int| 0 <= i < f.len() implies lookup(f, #[trigger] f[i].0) == Some(f[i].1) by {
        lemma_lookup_unique_at(f, i);
    }
}

/// The fields written for a plugin name each field of its source once and
/// carry its value, after a `source` field naming its kind.
pub proof fn lemma_plugin_fields_hold_the_source(source: PluginSource)
    ensures
        ({
            let f = plugin_fields(source);
            &&& keys_unique(f)
            &&& match source {
                PluginSource::Git { url, path } => lookup(f, "source"@) == Some("git"@) && lookup(f, "url"@)
                    == Some(url@) && match path {
                    Some(p) => f.len() == 3 && lookup(f, "path"@) == Some(p@),
                    None => f.len() == 2,
                },
                PluginSource::Path { path } => f.len() == 2 && lookup(f, "source"@) == Some("path"@)
                    && lookup(f, "path"@) == Some(path@),
            }
        }),
{
    reveal_strlit("source");
    reveal_strlit("repo");
    reveal_strlit("tag");
    reveal_strlit("path");
    reveal_strlit("chart");
    reveal_strlit("version");
    reveal_strlit("package");
    reveal_strlit("reference");
    reveal_strlit("cluster");
    reveal_strlit("url");
    let f = plugin_fields(source);
    lemma_names_apart(f);
    assert forall|i: int| 0 <= i < f.len() implies lookup(f, #[trigger] f[i].0) == Some(f[i].1) by {
        lemma_lookup_unique_at(f, i);
    }
}

fn field(k: &str, v: &str) -> (r: (String, String))
    ensures
        r.0@ == k@,
        r.1@ == v@,
{
    (String::from_str(k), String::from_str(v))
}

/// The fields written for a resource dependency.
pub fn source_fields(source: &SchemaSource) -> (r: Vec<(String, String)>)
    ensures
        fields_view(r@) == resource_fields(*source),
{
    let mut r: Vec<(String, String)> = Vec::new();
    match source {
        SchemaSource::Release { version } => {
            r.push(field("source", "release"));
            r.push(field("version", version.as_str()));
        },
        SchemaSource::Cluster { cluster } => {
            r.push(field("source", "cluster"));
            if let Some(c) = cluster {
                r.push(field("cluster", c.as_str()));
            }
        },
        SchemaSource::Git { repo, tag, path } => {
            r.push(field("source", "git"));
            r.push(field("repo", repo.as_str()));
            r.push(field("tag", tag.as_str()));
            r.push(field("path", path.as_str()));
        },
        SchemaSource::File { path } => {
            r.push(field("source", "file"));
            r.push(field("path", path.as_str()));
        },
    }
    assert(fields_view(r@) =~= resource_fields(*source));
    r
}

/// The fields written for a chart dependency.
pub fn chart_source_fields(source: &ChartSource) -> (r: Vec<(String, String)>)
    ensures
        fields_view(r@) == chart_fields(*source),
{
    let mut r: Vec<(String, String)> = Vec::new();
    match source {
        ChartSource::Registry { repo, chart, version } => {
            r.push(field("source", "registry"));
            r.push(field("repo", repo.as_str()));
            r.push(field("chart", chart.as_str()));
            r.push(field("version", version.as_str()));
        },
        ChartSource::ArtifactHub { package, version } => {
            r.push(field("source", "artifacthub"));
            r.push(field("package", package.as_str()));
            r.push(field("version", version.as_str()));
        },
        ChartSource::File { path } => {
            r.push(field("source", "file"));
            r.push(field("path", path.as_str()));
        },
        ChartSource::Git { repo, tag, path } => {
            r.push(field("source", "git"));
            r.push(field("repo", repo.as_str()));
            r.push(field("tag", tag.as_str()));
            r.push(field("path", path.as_str()));
        },
        ChartSource::Oci { reference, version } => {
            r.push(field("source", "oci"));
            r.push(field("reference", reference.as_str()));
            r.push(field("version", version.as_str()));
        },
    }
    assert(fields_view(r@) =~= chart_fields(*source));
    r
}

/// The fields written for a plugin.
pub fn plugin_source_fields(source: &PluginSource) -> (r: Vec<(String, String)>)
    ensures
        fields_view(r@) == plugin_fields(*source),
{
    let mut r: Vec<(String, String)> = Vec::new();
    match source {
        PluginSource::Git { url, path } => {
            r.push(field("source", "git"));
            r.push(field("url", url.as_str()));
            if let Some(p) = path {
                r.push(field("path", p.as_str()));
            }
        },
        PluginSource::Path { path } => {
            r.push(field("source", "path"));
            r.push(field("path", path.as_str()));
        },
    }
    assert(fields_view(r@) =~= plugin_fields(*source));
    r
}

/// Which field holds the version of an entry with keys `keys`: `version`
/// when there is one, else `tag`; an entry with neither is not updated.
pub open spec fn spec_version_key(keys: Seq<Seq<char>>) -> Option<Seq<char>> {
    if keys.contains("version"@) {
        Some("version"@)
    } else if keys.contains("tag"@) {
        Some("tag"@)
    } else {
        None
    }
}

fn has_text(keys: &Vec<String>, lit: &str) -> (r: bool)
    ensures
        r == keys@.map_values(|k: String| k@).contains(lit@),
{
    let ghost ks = keys@.map_values(|k: String| k@);
    let mut i: usize = 0;
    while i < keys.len()
        invariant
            i <= keys@.len(),
            ks == keys@.map_values(|k: String| k@),
            forall|j: int| 0 <= j < i ==> ks[j] != lit@,
        decreases keys@.len() - i,
    {
        let v = crate::text::chars_of(keys[i].as_str());
        if crate::text::eq_str(&v, lit) {
            assert(ks[i as int] == lit@);
            return true;
        }
        i += 1;
    }
    false
}

/// The field that an update of an entry's version rewrites.
pub fn version_key(keys: &Vec<String>) -> (r: Option<&'static str>)
    ensures
        match r {
            Some(k) => spec_version_key(keys@.map_values(|k: String| k@)) == Some(k@),
            None => spec_version_key(keys@.map_values(|k: String| k@)) is None,
        },
{
    if has_text(keys, "version") {
        Some("version")
    } else if has_text(keys, "tag") {
        Some("tag")
    } else {
        None
    }
}

// ---------------------------------------------------------------------------
// Adding and removing dependencies
// ---------------------------------------------------------------------------

/// The dependency that `husako remove` took out, and its section.
#[derive(Debug)]
pub struct RemoveResult {
    pub name: String,
    pub section: &'static str,
}

/// The message for a dependency in neither section.
pub open spec fn not_a_dependency_text(name: Seq<char>) -> Seq<char> {
    "dependency '"@ + name + "' not found in [resources] or [charts]"@
}

/// The outcome of removing `name`: from `[resources]` when it was found
/// there, else from `[charts]`, else an error.
pub fn remove_dependency(name: &str, from_resources: bool, from_charts: bool) -> (r: Result<
    RemoveResult,
    String,
>)
    ensures
        from_resources ==> (r matches Ok(x) && x.name@ == name@ && x.section@ == "resources"@),
        !from_resources && from_charts ==> (r matches Ok(x) && x.name@ == name@ && x.section@
            == "charts"@),
        !from_resources && !from_charts ==> (r matches Err(e) && e@ == not_a_dependency_text(
            name@,
        )),
{
    if from_resources {
        Ok(RemoveResult { name: String::from_str(name), section: "resources" })
    } else if from_charts {
        Ok(RemoveResult { name: String::from_str(name), section: "charts" })
    } else {
        let mut v: Vec<char> = Vec::new();
        push_str(&mut v, "dependency '");
        push_str(&mut v, name);
        push_str(&mut v, "' not found in [resources] or [charts]");
        Err(string_from(&v))
    }
}

/// A dependency to add: a resource schema or a chart.
#[derive(Debug)]
#[allow(inconsistent_fields)]
pub enum AddTarget {
    Resource { name: String, source: SchemaSource },
    Chart { name: String, source: ChartSource },
}

/// An entry to write into `husako.toml`: its section, its name, and the
/// fields of its inline table in order.
#[derive(Debug)]
pub struct EntryEdit {
    pub section: &'static str,
    pub name: String,
    pub fields: Vec<(String, String)>,
}

/// The entry that adding `target` writes: under `[resources]` or `[charts]`,
/// named as the target, with the fields of its source. The entry replaces
/// one of the same name.
pub fn add_dependency(target: &AddTarget) -> (r: EntryEdit)
    ensures
        match target {
            AddTarget::Resource { name, source } => r.section@ == "resources"@ && r.name@ == name@
                && fields_view(r.fields@) == resource_fields(*source),
            AddTarget::Chart { name, source } => r.section@ == "charts"@ && r.name@ == name@
                && fields_view(r.fields@) == chart_fields(*source),
        },
{
    match target {
        AddTarget::Resource { name, source } => EntryEdit {
            section: "resources",
            name: name.clone(),
            fields: source_fields(source),
        },
        AddTarget::Chart { name, source } => EntryEdit {
            section: "charts",
            name: name.clone(),
            fields: chart_source_fields(source),
        },
    }
}

} // verus!
