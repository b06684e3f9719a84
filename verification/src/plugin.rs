//! Plugins: merging their dependency presets into the configuration and
//! mapping their modules for TypeScript.
use vstd::prelude::*;

use crate::config::{config_error_text, ChartSource, ConfigError, HusakoConfig, PluginManifest, PluginSource, SchemaSource};
use crate::order::{is_name_order, name_order};
use crate::project::{join_path, path_join};
use crate::table::{
    has_key, insert_absent, insert_if_absent, keyed, keys_unique, key_pos, lemma_insert_absent_keeps,
    lemma_key_pos, upsert,
};
use crate::text::{chars_of, push_all, push_str, replace, replace_all, string_from};

verus! {

/// Installed plugin data collected during installation.
#[derive(Debug)]
pub struct InstalledPlugin {
    pub name: String,
    pub manifest: PluginManifest,
    /// The directory the plugin is installed in.
    pub dir: String,
}

/// The name under which a plugin's preset `name` is added: `<plugin>:<name>`.
pub open spec fn preset_key(plugin: Seq<char>, name: Seq<char>) -> Seq<char> {
    plugin + seq![':'] + name
}

/// `m` with the presets of one plugin added in order, each under its
/// namespaced name unless that name is already taken.
pub open spec fn add_presets<V>(m: Seq<(Seq<char>, V)>, plugin: Seq<char>, presets: Seq<(String, V)>) -> Seq<(Seq<char>, V)>
    decreases presets.len(),
{
    if presets.len() == 0 {
        m
    } else {
        insert_absent(
            add_presets(m, plugin, presets.drop_last()),
            preset_key(plugin, presets.last().0@),
            presets.last().1,
        )
    }
}

/// The resources table after adding the resource presets of `plugins` in order.
pub open spec fn merged_resources(m: Seq<(Seq<char>, SchemaSource)>, plugins: Seq<InstalledPlugin>) -> Seq<(Seq<char>, SchemaSource)>
    decreases plugins.len(),
{
    if plugins.len() == 0 {
        m
    } else {
        add_presets(
            merged_resources(m, plugins.drop_last()),
            plugins.last().name@,
            plugins.last().manifest.resources@,
        )
    }
}

/// The charts table after adding the chart presets of `plugins` in order.
pub open spec fn merged_charts(m: Seq<(Seq<char>, ChartSource)>, plugins: Seq<InstalledPlugin>) -> Seq<(Seq<char>, ChartSource)>
    decreases plugins.len(),
{
    if plugins.len() == 0 {
        m
    } else {
        add_presets(
            merged_charts(m, plugins.drop_last()),
            plugins.last().name@,
            plugins.last().manifest.charts@,
        )
    }
}

fn namespaced(plugin: &String, name: &String) -> (r: String)
    ensures
        r@ == preset_key(plugin@, name@),
{
    let mut v: Vec<char> = Vec::new();
    push_str(&mut v, plugin.as_str());
    v.push(':');
    push_str(&mut v, name.as_str());
    assert(v@ =~= preset_key(plugin@, name@));
    string_from(&v)
}

/// Merge plugin resource and chart presets into the config. Each preset is
/// added under the namespaced name `<plugin>:<preset>`, unless the config
/// already has an entry of that name; nothing else changes.
pub fn merge_plugin_presets(config: &mut HusakoConfig, plugins: &[InstalledPlugin])
    ensures
        keyed(final(config).resources@) == merged_resources(keyed(old(config).resources@), plugins@),
        keyed(final(config).charts@) == merged_charts(keyed(old(config).charts@), plugins@),
        final(config).entries == old(config).entries,
        final(config).cluster == old(config).cluster,
        final(config).clusters == old(config).clusters,
        final(config).plugins == old(config).plugins,
        old(config).wf() ==> final(config).wf(),
{
    let ghost base_r = keyed(config.resources@);
    let ghost base_c = keyed(config.charts@);
    let mut i: usize = 0;
    while i < plugins.len()
        invariant
            i <= plugins.len(),
            keyed(config.resources@) == merged_resources(base_r, plugins@.take(i as int)),
            keyed(config.charts@) == merged_charts(base_c, plugins@.take(i as int)),
            config.entries == old(config).entries,
            config.cluster == old(config).cluster,
            config.clusters == old(config).clusters,
            config.plugins == old(config).plugins,
            base_r == keyed(old(config).resources@),
            base_c == keyed(old(config).charts@),
        decreases plugins.len() - i,
    {
        let plugin = &plugins[i];
        let ghost before_r = keyed(config.resources@);
        let ghost before_c = keyed(config.charts@);
        let presets = &plugin.manifest.resources;
        let mut j: usize = 0;
        while j < presets.len()
            invariant
                j <= presets.len(),
                keyed(config.resources@) == add_presets(before_r, plugin.name@, presets@.take(j as int)),
                keyed(config.charts@) == before_c,
                config.entries == old(config).entries,
                config.cluster == old(config).cluster,
                config.clusters == old(config).clusters,
                config.plugins == old(config).plugins,
            decreases presets.len() - j,
        {
            let key = namespaced(&plugin.name, &presets[j].0);
            let value = presets[j].1.clone();
            insert_if_absent(&mut config.resources, key, value);
            assert(presets@.take(j + 1).drop_last() =~= presets@.take(j as int));
            j += 1;
        }
        assert(presets@.take(presets.len() as int) =~= presets@);
        let presets = &plugin.manifest.charts;
        let mut j: usize = 0;
        while j < presets.len()
            invariant
                j <= presets.len(),
                keyed(config.charts@) == add_presets(before_c, plugin.name@, presets@.take(j as int)),
                keyed(config.resources@) == add_presets(before_r, plugin.name@, plugin.manifest.resources@),
                config.entries == old(config).entries,
                config.cluster == old(config).cluster,
                config.clusters == old(config).clusters,
                config.plugins == old(config).plugins,
            decreases presets.len() - j,
        {
            let key = namespaced(&plugin.name, &presets[j].0);
            let value = presets[j].1.clone();
            insert_if_absent(&mut config.charts, key, value);
            assert(presets@.take(j + 1).drop_last() =~= presets@.take(j as int));
            j += 1;
        }
        assert(presets@.take(presets.len() as int) =~= presets@);
        assert(plugins@.take(i + 1).drop_last() =~= plugins@.take(i as int));
        assert(plugins@.take(i + 1).last() == plugins@[i as int]);
        i += 1;
    }
    assert(plugins@.take(plugins.len() as int) =~= plugins@);
    proof {
        lemma_merge_keeps_and_adds(base_r, plugins@);
        lemma_merged_charts_unique(base_c, plugins@);
    }
}

proof fn lemma_add_presets_keeps<V>(m: Seq<(Seq<char>, V)>, plugin: Seq<char>, presets: Seq<(String, V)>)
    ensures
        add_presets(m, plugin, presets).len() >= m.len(),
        add_presets(m, plugin, presets).subrange(0, m.len() as int) == m,
        keys_unique(m) ==> keys_unique(add_presets(m, plugin, presets)),
        forall|j: int| 0 <= j < presets.len() ==> has_key(add_presets(m, plugin, presets), preset_key(plugin, #[trigger] presets[j].0@)),
    decreases presets.len(),
{
    if presets.len() > 0 {
        let prev = add_presets(m, plugin, presets.drop_last());
        lemma_add_presets_keeps(m, plugin, presets.drop_last());
        lemma_insert_absent_keeps(prev, preset_key(plugin, presets.last().0@), presets.last().1);
        let next = add_presets(m, plugin, presets);
        assert(next.subrange(0, m.len() as int) =~= prev.subrange(0, m.len() as int));
        assert forall|j: int| 0 <= j < presets.len() implies has_key(next, preset_key(plugin, #[trigger] presets[j].0@)) by {
            if j < presets.len() - 1 {
                assert(presets.drop_last()[j] == presets[j]);
                let k = preset_key(plugin, presets[j].0@);
                let w = choose|w: int| 0 <= w < prev.len() && prev[w].0 == k;
                assert(next.subrange(0, prev.len() as int)[w] == prev[w]);
            }
        }
    }
}

/// Merging chart presets keeps the names of the charts unique.
proof fn lemma_merged_charts_unique(m: Seq<(Seq<char>, ChartSource)>, plugins: Seq<InstalledPlugin>)
    ensures
        keys_unique(m) ==> keys_unique(merged_charts(m, plugins)),
    decreases plugins.len(),
{
    if plugins.len() > 0 {
        lemma_merged_charts_unique(m, plugins.drop_last());
        lemma_add_presets_keeps(merged_charts(m, plugins.drop_last()), plugins.last().name@, plugins.last().manifest.charts@);
    }
}

/// Merging presets keeps every entry the configuration had, in place, and
/// afterwards every preset of every plugin is present under its namespaced
/// name. When no two entries shared a name before, none do after.
pub proof fn lemma_merge_keeps_and_adds(m: Seq<(Seq<char>, SchemaSource)>, plugins: Seq<InstalledPlugin>)
    ensures
        merged_resources(m, plugins).len() >= m.len(),
        merged_resources(m, plugins).subrange(0, m.len() as int) == m,
        keys_unique(m) ==> keys_unique(merged_resources(m, plugins)),
        forall|p: int, j: int|
            0 <= p < plugins.len() && 0 <= j < plugins[p].manifest.resources@.len() ==> has_key(
                merged_resources(m, plugins),
                preset_key(plugins[p].name@, #[trigger] plugins[p].manifest.resources@[j].0@),
            ),
    decreases plugins.len(),
{
    if plugins.len() > 0 {
        let prev = merged_resources(m, plugins.drop_last());
        let last = plugins.last();
        lemma_merge_keeps_and_adds(m, plugins.drop_last());
        lemma_add_presets_keeps(prev, last.name@, last.manifest.resources@);
        let next = merged_resources(m, plugins);
        assert(next.subrange(0, m.len() as int) =~= prev.subrange(0, m.len() as int));
        assert forall|p: int, j: int|
            0 <= p < plugins.len() && 0 <= j < plugins[p].manifest.resources@.len() implies has_key(
                next,
                preset_key(plugins[p].name@, #[trigger] plugins[p].manifest.resources@[j].0@),
            ) by {
            if p < plugins.len() - 1 {
                assert(plugins.drop_last()[p] == plugins[p]);
                let k = preset_key(plugins[p].name@, plugins[p].manifest.resources@[j].0@);
                let w = choose|w: int| 0 <= w < prev.len() && prev[w].0 == k;
                assert(next.subrange(0, prev.len() as int)[w] == prev[w]);
            }
        }
    }
}

/// The `.d.ts` path, relative to the project root, of a plugin module whose
/// JavaScript file is `rel` inside the plugin.
pub open spec fn module_dts_path(plugin: Seq<char>, rel: Seq<char>) -> Seq<char> {
    ".husako/plugins/"@ + plugin + "/"@ + replace_all(rel, ".js"@, ".d.ts"@)
}

/// The two sides of a table of texts, as character sequences.
pub open spec fn pairs_view(m: Seq<(String, String)>) -> Seq<(Seq<char>, Seq<char>)> {
    m.map_values(|e: (String, String)| (e.0@, e.1@))
}

/// The module mappings of one plugin added to `m`; a specifier seen again
/// takes the newer path.
pub open spec fn add_module_paths(m: Seq<(Seq<char>, Seq<char>)>, plugin: Seq<char>, modules: Seq<(String, String)>) -> Seq<(Seq<char>, Seq<char>)>
    decreases modules.len(),
{
    if modules.len() == 0 {
        m
    } else {
        upsert(
            add_module_paths(m, plugin, modules.drop_last()),
            modules.last().0@,
            module_dts_path(plugin, modules.last().1@),
        )
    }
}

/// The module mappings of `plugins`, in order.
pub open spec fn all_module_paths(plugins: Seq<InstalledPlugin>) -> Seq<(Seq<char>, Seq<char>)>
    decreases plugins.len(),
{
    if plugins.len() == 0 {
        Seq::empty()
    } else {
        add_module_paths(
            all_module_paths(plugins.drop_last()),
            plugins.last().name@,
            plugins.last().manifest.modules@,
        )
    }
}

fn set_path(m: &mut Vec<(String, String)>, k: String, v: String)
    ensures
        pairs_view(final(m)@) == upsert(pairs_view(old(m)@), k@, v@),
{
    let mut i: usize = 0;
    while i < m.len() && !(m[i].0 == k)
        invariant
            i <= m.len(),
            m@ == old(m)@,
            forall|j: int| 0 <= j < i ==> pairs_view(m@)[j].0 != k@,
        decreases m.len() - i,
    {
        i += 1;
    }
    proof {
        lemma_key_pos(pairs_view(m@), k@);
        if i < m.len() {
            assert(pairs_view(m@)[i as int].0 == k@);
        }
    }
    let ghost kv = k@;
    let ghost vv = v@;
    if i == m.len() {
        assert(key_pos(pairs_view(m@), kv) == m.len()) by {
            if key_pos(pairs_view(m@), kv) < m.len() {
                assert(pairs_view(m@)[key_pos(pairs_view(m@), kv)].0 == kv);
            }
        }
        m.push((k, v));
        assert(pairs_view(m@) =~= pairs_view(old(m)@).push((kv, vv)));
    } else {
        assert(key_pos(pairs_view(m@), kv) == i) by {
            if key_pos(pairs_view(m@), kv) < i {
                assert(pairs_view(m@)[key_pos(pairs_view(m@), kv)].0 == kv);
            }
        }
        m.set(i, (k, v));
        assert(pairs_view(m@) =~= pairs_view(old(m)@).update(i as int, (kv, vv)));
    }
}

/// Build plugin module path mappings for tsconfig.json: each import
/// specifier of each plugin maps to `.husako/plugins/<plugin>/<path>`, where
/// `<path>` is the module's file with `.js` replaced by `.d.ts`.
pub fn plugin_tsconfig_paths(plugins: &[InstalledPlugin]) -> (r: Vec<(String, String)>)
    ensures
        pairs_view(r@) == all_module_paths(plugins@),
{
    let mut paths: Vec<(String, String)> = Vec::new();
    let js = chars_of(".js");
    let dts = chars_of(".d.ts");
    let mut i: usize = 0;
    assert(pairs_view(paths@) =~= Seq::<(Seq<char>, Seq<char>)>::empty());
    while i < plugins.len()
        invariant
            i <= plugins.len(),
            js@ == ".js"@,
            dts@ == ".d.ts"@,
            pairs_view(paths@) == all_module_paths(plugins@.take(i as int)),
        decreases plugins.len() - i,
    {
        let plugin = &plugins[i];
        let modules = &plugin.manifest.modules;
        let ghost before = pairs_view(paths@);
        let mut j: usize = 0;
        while j < modules.len()
            invariant
                j <= modules.len(),
                js@ == ".js"@,
                dts@ == ".d.ts"@,
                pairs_view(paths@) == add_module_paths(before, plugin.name@, modules@.take(j as int)),
            decreases modules.len() - j,
        {
            let (specifier, rel_path) = &modules[j];
            let rel = chars_of(rel_path.as_str());
            let d = replace(&rel, &js, &dts);
            let mut ts: Vec<char> = Vec::new();
            push_str(&mut ts, ".husako/plugins/");
            push_str(&mut ts, plugin.name.as_str());
            push_str(&mut ts, "/");
            push_all(&mut ts, &d);
            assert(ts@ =~= module_dts_path(plugin.name@, rel_path@));
            set_path(&mut paths, specifier.clone(), string_from(&ts));
            assert(modules@.take(j + 1).drop_last() =~= modules@.take(j as int));
            j += 1;
        }
        assert(modules@.take(modules.len() as int) =~= modules@);
        assert(plugins@.take(i + 1).drop_last() =~= plugins@.take(i as int));
        i += 1;
    }
    assert(plugins@.take(plugins.len() as int) =~= plugins@);
    paths
}

/// The module files of one plugin installed in `dir` added to `m`; a
/// specifier seen again takes the newer file.
pub open spec fn add_module_files(m: Seq<(Seq<char>, Seq<char>)>, dir: Seq<char>, modules: Seq<(String, String)>) -> Seq<(Seq<char>, Seq<char>)>
    decreases modules.len(),
{
    if modules.len() == 0 {
        m
    } else {
        upsert(
            add_module_files(m, dir, modules.drop_last()),
            modules.last().0@,
            path_join(dir, modules.last().1@),
        )
    }
}

/// The module files of `plugins`, in order.
pub open spec fn all_module_files(plugins: Seq<InstalledPlugin>) -> Seq<(Seq<char>, Seq<char>)>
    decreases plugins.len(),
{
    if plugins.len() == 0 {
        Seq::empty()
    } else {
        add_module_files(
            all_module_files(plugins.drop_last()),
            plugins.last().dir@,
            plugins.last().manifest.modules@,
        )
    }
}

/// The files that the runtime loads for plugin imports: each import
/// specifier of each installed plugin maps to its module's file inside the
/// plugin's directory.
pub fn plugin_module_files(plugins: &[InstalledPlugin]) -> (r: Vec<(String, String)>)
    ensures
        pairs_view(r@) == all_module_files(plugins@),
{
    let mut files: Vec<(String, String)> = Vec::new();
    let mut i: usize = 0;
    assert(pairs_view(files@) =~= Seq::<(Seq<char>, Seq<char>)>::empty());
    while i < plugins.len()
        invariant
            i <= plugins.len(),
            pairs_view(files@) == all_module_files(plugins@.take(i as int)),
        decreases plugins.len() - i,
    {
        let plugin = &plugins[i];
        let modules = &plugin.manifest.modules;
        let ghost before = pairs_view(files@);
        let mut j: usize = 0;
        while j < modules.len()
            invariant
                j <= modules.len(),
                pairs_view(files@) == add_module_files(before, plugin.dir@, modules@.take(j as int)),
            decreases modules.len() - j,
        {
            let (specifier, rel_path) = &modules[j];
            let rel = chars_of(rel_path.as_str());
            let file = join_path(&plugin.dir, &rel);
            set_path(&mut files, specifier.clone(), file);
            assert(modules@.take(j + 1).drop_last() =~= modules@.take(j as int));
            j += 1;
        }
        assert(modules@.take(modules.len() as int) =~= modules@);
        assert(plugins@.take(i + 1).drop_last() =~= plugins@.take(i as int));
        i += 1;
    }
    assert(plugins@.take(plugins.len() as int) =~= plugins@);
    files
}

// ---------------------------------------------------------------------------
// Installing plugins
// ---------------------------------------------------------------------------

/// Where plugin `name` is installed under the project root.
pub open spec fn plugin_dir(project_root: Seq<char>, name: Seq<char>) -> Seq<char> {
    path_join(path_join(project_root, ".husako/plugins"@), name)
}

/// One plugin to install: into `target_dir`, from a git URL or from
/// `source_dir` (a path source, under the project root).
#[derive(Debug)]
pub struct PluginInstall {
    pub name: String,
    pub source: PluginSource,
    pub target_dir: String,
    pub source_dir: Option<String>,
}

/// `i` installs the plugin `e` of a project at `root`.
pub open spec fn is_install_of(i: PluginInstall, e: (String, PluginSource), root: Seq<char>) -> bool {
    &&& i.name@ == e.0@
    &&& i.source == e.1
    &&& i.target_dir@ == plugin_dir(root, e.0@)
    &&& match e.1 {
        PluginSource::Path { path } => i.source_dir matches Some(d) && d@ == path_join(root, path@),
        PluginSource::Git { .. } => i.source_dir is None,
    }
}

/// The installs to make for the plugins of `config`, in order.
pub fn plugin_installs(config: &HusakoConfig, project_root: &String) -> (r: Vec<PluginInstall>)
    ensures
        r@.len() == config.plugins@.len(),
        forall|i: int| 0 <= i < r@.len() ==> is_install_of(#[trigger] r@[i], config.plugins@[i], project_root@),
{
    let base = join_path(project_root, &chars_of(".husako/plugins"));
    let mut r: Vec<PluginInstall> = Vec::new();
    let mut i: usize = 0;
    while i < config.plugins.len()
        invariant
            i <= config.plugins@.len(),
            base@ == path_join(project_root@, ".husako/plugins"@),
            r@.len() == i,
            forall|k: int| 0 <= k < i ==> is_install_of(#[trigger] r@[k], config.plugins@[k], project_root@),
        decreases config.plugins@.len() - i,
    {
        let (name, source) = &config.plugins[i];
        let target_dir = join_path(&base, &chars_of(name.as_str()));
        let source_dir = match source {
            PluginSource::Path { path } => Some(join_path(project_root, &chars_of(path.as_str()))),
            PluginSource::Git { .. } => None,
        };
        let src = match source {
            PluginSource::Git { url, path } => PluginSource::Git {
                url: url.clone(),
                path: match path {
                    Some(p) => Some(p.clone()),
                    None => None,
                },
            },
            PluginSource::Path { path } => PluginSource::Path { path: path.clone() },
        };
        r.push(PluginInstall { name: name.clone(), source: src, target_dir, source_dir });
        i += 1;
    }
    r
}

/// How installing one plugin went.
#[derive(Debug)]
pub enum InstallOutcome {
    /// Installed; its manifest was read.
    Installed(PluginManifest),
    /// Cloning or copying failed, with the reason.
    InstallFailed(String),
    /// Installed, but the manifest could not be loaded.
    ManifestInvalid(ConfigError),
}

/// Why `install_plugins` stopped.
#[derive(Debug)]
pub enum PluginInstallError {
    Install(String),
    Manifest(ConfigError),
}

impl InstallOutcome {
    pub open spec fn failed(self) -> bool {
        !(self is Installed)
    }
}

/// The message that ends the task of installing plugin `name`.
pub open spec fn install_message(name: Seq<char>, o: InstallOutcome) -> Seq<char> {
    match o {
        InstallOutcome::Installed(m) => name + ": installed (v"@ + m.plugin.version@ + ")"@,
        InstallOutcome::InstallFailed(e) => name + ": "@ + e@,
        InstallOutcome::ManifestInvalid(e) => name + ": invalid manifest: "@ + config_error_text(e),
    }
}

/// How the task of installing plugin `name` ends: whether it went well,
/// and the message.
pub fn install_report(name: &String, outcome: &InstallOutcome) -> (r: (bool, String))
    ensures
        r.0 == !outcome.failed(),
        r.1@ == install_message(name@, *outcome),
{
    let mut out = chars_of(name.as_str());
    let ok = match outcome {
        InstallOutcome::Installed(m) => {
            push_str(&mut out, ": installed (v");
            push_str(&mut out, m.plugin.version.as_str());
            push_str(&mut out, ")");
            true
        },
        InstallOutcome::InstallFailed(e) => {
            push_str(&mut out, ": ");
            push_str(&mut out, e.as_str());
            false
        },
        InstallOutcome::ManifestInvalid(e) => {
            push_str(&mut out, ": invalid manifest: ");
            let t = e.message();
            push_str(&mut out, t.as_str());
            false
        },
    };
    let m = string_from(&out);
    assert(m@ =~= install_message(name@, *outcome));
    (ok, m)
}

/// Position of the first failed outcome, or the number of outcomes when
/// none failed.
pub open spec fn first_failed(os: Seq<InstallOutcome>) -> int
    decreases os.len(),
{
    if os.len() == 0 {
        0
    } else if os[0].failed() {
        0
    } else {
        1 + first_failed(os.drop_first())
    }
}

/// The first failure is a failure, and every outcome before it succeeded.
pub proof fn lemma_first_failed(os: Seq<InstallOutcome>)
    ensures
        0 <= first_failed(os) <= os.len(),
        first_failed(os) < os.len() ==> os[first_failed(os)].failed(),
        forall|j: int| 0 <= j < first_failed(os) ==> !(#[trigger] os[j]).failed(),
    decreases os.len(),
{
    if os.len() > 0 && !os[0].failed() {
        lemma_first_failed(os.drop_first());
        assert forall|j: int| 0 <= j < first_failed(os) implies !(#[trigger] os[j]).failed() by {
            if j > 0 {
                assert(os[j] == os.drop_first()[j - 1]);
            }
        }
    }
}

/// The error that a failed outcome stops installing with.
pub open spec fn failure_of(o: InstallOutcome) -> Option<PluginInstallError> {
    match o {
        InstallOutcome::InstallFailed(m) => Some(PluginInstallError::Install(m)),
        InstallOutcome::ManifestInvalid(c) => Some(PluginInstallError::Manifest(c)),
        InstallOutcome::Installed(_) => None,
    }
}

/// Installs the plugins of `config`: `results` tells, in order, how
/// installing each went, up to the first that failed. The first failure is
/// the error; without one, every plugin is installed.
#[verifier::loop_isolation(false)]
pub fn install_plugins(config: &HusakoConfig, project_root: &String, results: Vec<InstallOutcome>) -> (r: Result<Vec<InstalledPlugin>, PluginInstallError>)
    requires
        results@.len() <= config.plugins@.len(),
        results@.len() < config.plugins@.len() ==> first_failed(results@) < results@.len(),
    ensures
        r is Ok <==> first_failed(results@) == results@.len(),
        r matches Ok(list) ==> {
            &&& list@.len() == config.plugins@.len()
            &&& forall|i: int|
                0 <= i < list@.len() ==> {
                    &&& (#[trigger] list@[i]).name@ == config.plugins@[i].0@
                    &&& results@[i] == InstallOutcome::Installed(list@[i].manifest)
                    &&& list@[i].dir@ == plugin_dir(project_root@, config.plugins@[i].0@)
                }
        },
        r matches Err(e) ==> failure_of(results@[first_failed(results@)]) == Some(e),
{
    let ghost os = results@;
    proof {
        lemma_first_failed(os);
    }
    assert(os.skip(0) =~= os);
    let base = join_path(project_root, &chars_of(".husako/plugins"));
    let mut installed: Vec<InstalledPlugin> = Vec::new();
    let mut outcomes = results;
    let mut i: usize = 0;
    let n = outcomes.len();
    while i < n
        invariant
            n == os.len(),
            n <= config.plugins@.len(),
            n < config.plugins@.len() ==> first_failed(os) < n,
            0 <= first_failed(os) <= n,
            first_failed(os) < n ==> os[first_failed(os)].failed(),
            forall|j: int| 0 <= j < first_failed(os) ==> !(#[trigger] os[j]).failed(),
            i <= n,
            outcomes@ == os.skip(i as int),
            base@ == path_join(project_root@, ".husako/plugins"@),
            installed@.len() == i,
            forall|j: int| 0 <= j < i ==> !(#[trigger] os[j]).failed(),
            forall|j: int|
                0 <= j < i ==> {
                    &&& (#[trigger] installed@[j]).name@ == config.plugins@[j].0@
                    &&& os[j] == InstallOutcome::Installed(installed@[j].manifest)
                    &&& installed@[j].dir@ == plugin_dir(project_root@, config.plugins@[j].0@)
                },
        decreases n - i,
    {
        let o = outcomes.remove(0);
        assert(o == os[i as int]);
        assert(outcomes@ =~= os.skip(i + 1));
        match o {
            InstallOutcome::Installed(manifest) => {
                let name = config.plugins[i].0.clone();
                let dir = join_path(&base, &chars_of(name.as_str()));
                installed.push(InstalledPlugin { name, manifest, dir });
            },
            InstallOutcome::InstallFailed(m) => {
                assert(first_failed(os) == i);
                return Err(PluginInstallError::Install(m));
            },
            InstallOutcome::ManifestInvalid(c) => {
                assert(first_failed(os) == i);
                return Err(PluginInstallError::Manifest(c));
            },
        }
        i += 1;
    }
    assert(first_failed(os) == n);
    Ok(installed)
}

/// `plugin '<name>': source directory not found: <dir>`
pub fn source_missing_message(name: &String, source_dir: &String) -> (r: String)
    ensures
        r@ == "plugin '"@ + name@ + "': source directory not found: "@ + source_dir@,
{
    let mut out: Vec<char> = Vec::new();
    push_str(&mut out, "plugin '");
    push_str(&mut out, name.as_str());
    push_str(&mut out, "': source directory not found: ");
    push_str(&mut out, source_dir.as_str());
    string_from(&out)
}

/// `plugin '<name>': <what> failed: <reason>`, for `what` one of `copy`
/// and `git clone`.
pub fn install_failed_message(name: &String, what: &str, reason: &String) -> (r: String)
    ensures
        r@ == "plugin '"@ + name@ + "': "@ + what@ + " failed: "@ + reason@,
{
    let mut out: Vec<char> = Vec::new();
    push_str(&mut out, "plugin '");
    push_str(&mut out, name.as_str());
    push_str(&mut out, "': ");
    push_str(&mut out, what);
    push_str(&mut out, " failed: ");
    push_str(&mut out, reason.as_str());
    string_from(&out)
}

// ---------------------------------------------------------------------------
// Listing installed plugins
// ---------------------------------------------------------------------------

/// The names of plugins.
pub open spec fn plugin_names(ps: Seq<InstalledPlugin>) -> Seq<Seq<char>> {
    ps.map_values(|p: InstalledPlugin| p.name@)
}

/// The installed plugins found on disk, sorted by name (stably).
pub fn sort_plugins(found: Vec<InstalledPlugin>) -> (r: Vec<InstalledPlugin>)
    ensures
        exists|p: Seq<int>|
            #![trigger is_name_order(plugin_names(found@), p)]
            is_name_order(plugin_names(found@), p) && r@.len() == p.len() && forall|i: int|
                0 <= i < p.len() ==> #[trigger] r@[i] == found@[p[i]],
{
    let ghost fs = found@;
    let n = found.len();
    let mut names: Vec<(String, usize)> = Vec::new();
    let mut i: usize = 0;
    while i < n
        invariant
            n == fs.len(),
            fs == found@,
            i <= n,
            names@.len() == i,
            forall|k: int| 0 <= k < i ==> (#[trigger] names@[k]).0@ == fs[k].name@,
        decreases n - i,
    {
        names.push((found[i].name.clone(), i));
        i += 1;
    }
    let order = name_order(&names);
    let ghost pv = order@.map_values(|x: usize| x as int);
    assert(keyed(names@).map_values(|e: (Seq<char>, usize)| e.0) =~= plugin_names(fs));
    let mut slots: Vec<Option<InstalledPlugin>> = Vec::new();
    let mut rest = found;
    let mut j: usize = 0;
    while j < n
        invariant
            n == fs.len(),
            j <= n,
            rest@ == fs.skip(j as int),
            slots@.len() == j,
            forall|k: int| 0 <= k < j ==> #[trigger] slots@[k] == Some(fs[k]),
        decreases n - j,
    {
        assert(rest@.len() > 0) by {
            assert(fs.skip(j as int).len() == n - j);
        }
        let item = rest.remove(0);
        assert(item == fs[j as int]);
        assert(rest@ =~= fs.skip(j + 1));
        slots.push(Some(item));
        j += 1;
    }
    let mut r: Vec<InstalledPlugin> = Vec::new();
    let mut k: usize = 0;
    while k < order.len()
        invariant
            n == fs.len(),
            pv == order@.map_values(|x: usize| x as int),
            is_name_order(plugin_names(fs), pv),
            k <= order@.len(),
            slots@.len() == n,
            r@.len() == k,
            forall|m: int| 0 <= m < k ==> #[trigger] r@[m] == fs[pv[m]],
            forall|m: int| k <= m < pv.len() ==> #[trigger] slots@[pv[m]] == Some(fs[pv[m]]),
        decreases order@.len() - k,
    {
        assert(pv[k as int] == order@[k as int] as int);
        let idx = order[k];
        let ghost before = slots@;
        let item = slots.remove(idx);
        slots.insert(idx, None);
        assert(slots@ =~= before.update(idx as int, None));
        assert(item == Some(fs[idx as int]));
        if let Some(x) = item {
            r.push(x);
        }
        proof {
            assert forall|m: int| k + 1 <= m < pv.len() implies #[trigger] slots@[pv[m]] == Some(fs[pv[m]]) by {
                assert(pv[m] != pv[k as int]);
                assert(before[pv[m]] == Some(fs[pv[m]]));
            }
        }
        k += 1;
    }
    r
}

} // verus!
