//! The files that `husako new`, `husako init`, `husako clean`,
//! and `husako generate` write or remove in a project: which
//! template files exist, how the config template is filled in, how
//! `.gitignore` gains its `.husako/` line, what a clean removes, and the
//! import paths written to `tsconfig.json`. The caller reads and writes the
//! files.
use vstd::prelude::*;

use crate::plugin::pairs_view;
use crate::project::TemplateName;
use crate::table::{has_key, key_pos, lemma_key_pos, upsert};
use crate::text::{
    char_pos, chars_of, eq_str, lemma_char_pos, push_str, replace, replace_all, slice, split_on,
    string_from,
};
use crate::versions::{lines, lines_of, without_cr};

verus! {

// ---------------------------------------------------------------------------
// Templates
// ---------------------------------------------------------------------------

/// The files a template writes besides `.gitignore` and `husako.toml`, by
/// path relative to the project directory.
pub open spec fn template_paths(t: TemplateName) -> Seq<Seq<char>> {
    match t {
        TemplateName::Simple => seq!["entry.ts"@],
        TemplateName::Project => seq![
            "env/dev.ts"@,
            "deployments/nginx.ts"@,
            "lib/index.ts"@,
            "lib/metadata.ts"@,
        ],
        TemplateName::MultiEnv => seq![
            "base/nginx.ts"@,
            "base/service.ts"@,
            "dev/main.ts"@,
            "staging/main.ts"@,
            "release/main.ts"@,
        ],
    }
}

/// The files a template writes besides `.gitignore` and `husako.toml`, in
/// the order they are written.
pub fn template_files(t: TemplateName) -> (r: Vec<&'static str>)
    ensures
        r@.map_values(|p: &str| p@) == template_paths(t),
{
    let r: Vec<&'static str> = match t {
        TemplateName::Simple => vec!["entry.ts"],
        TemplateName::Project => vec![
            "env/dev.ts",
            "deployments/nginx.ts",
            "lib/index.ts",
            "lib/metadata.ts",
        ],
        TemplateName::MultiEnv => vec![
            "base/nginx.ts",
            "base/service.ts",
            "dev/main.ts",
            "staging/main.ts",
            "release/main.ts",
        ],
    };
    assert(r@.map_values(|p: &str| p@) =~= template_paths(t));
    r
}

/// What `husako new` creates: a new project directory from a template.
#[derive(Debug)]
pub struct ScaffoldOptions {
    pub directory: String,
    pub template: TemplateName,
    pub k8s_version: String,
}

/// What `husako init` sets up: a template in an existing directory.
#[derive(Debug)]
pub struct InitOptions {
    pub directory: String,
    pub template: TemplateName,
    pub k8s_version: String,
}

/// The message for a `husako new` into a directory that has files.
pub open spec fn not_empty_text(dir: Seq<char>) -> Seq<char> {
    "directory '"@ + dir + "' is not empty"@
}

/// The message for `husako new` into a directory that is not empty.
pub fn not_empty_message(dir: &str) -> (r: String)
    ensures
        r@ == not_empty_text(dir@),
{
    let mut v: Vec<char> = Vec::new();
    push_str(&mut v, "directory '");
    push_str(&mut v, dir);
    push_str(&mut v, "' is not empty");
    string_from(&v)
}

/// The message for `husako init` where `husako.toml` exists already.
pub fn config_exists_message() -> (r: String)
    ensures
        r@ == "husako.toml already exists. Use 'husako new <dir>' to create a new project."@,
{
    String::from_str("husako.toml already exists. Use 'husako new <dir>' to create a new project.")
}

/// The placeholder of the Kubernetes version in a config template.
pub open spec fn version_placeholder() -> Seq<char> {
    "%K8S_VERSION%"@
}

/// A config template with every version placeholder replaced by `k8s_version`.
pub fn config_text(template: &str, k8s_version: &str) -> (r: String)
    ensures
        r@ == replace_all(template@, version_placeholder(), k8s_version@),
{
    let t = chars_of(template);
    let from = chars_of("%K8S_VERSION%");
    let to = chars_of(k8s_version);
    let out = replace(&t, &from, &to);
    string_from(&out)
}

// ---------------------------------------------------------------------------
// .gitignore
// ---------------------------------------------------------------------------

/// The characters that `char::is_whitespace` accepts (Unicode White_Space).
pub open spec fn is_space(c: char) -> bool {
    ('\t' <= c && c <= '\r') || c == ' ' || c == '\u{85}' || c == '\u{a0}' || c == '\u{1680}' || (
    '\u{2000}' <= c && c <= '\u{200a}') || c == '\u{2028}' || c == '\u{2029}' || c == '\u{202f}'
        || c == '\u{205f}' || c == '\u{3000}'
}

fn space(c: char) -> (r: bool)
    ensures
        r == is_space(c),
{
    ('\t' <= c && c <= '\r') || c == ' ' || c == '\u{85}' || c == '\u{a0}' || c == '\u{1680}' || (
    '\u{2000}' <= c && c <= '\u{200a}') || c == '\u{2028}' || c == '\u{2029}' || c == '\u{202f}'
        || c == '\u{205f}' || c == '\u{3000}'
}

/// `s` without leading whitespace.
pub open spec fn trim_start_space(s: Seq<char>) -> Seq<char>
    decreases s.len(),
{
    if s.len() > 0 && is_space(s[0]) {
        trim_start_space(s.drop_first())
    } else {
        s
    }
}

/// `s` without trailing whitespace.
pub open spec fn trim_end_space(s: Seq<char>) -> Seq<char>
    decreases s.len(),
{
    if s.len() > 0 && is_space(s.last()) {
        trim_end_space(s.drop_last())
    } else {
        s
    }
}

/// `s` without leading and trailing whitespace (as `str::trim`).
pub open spec fn trim_space(s: Seq<char>) -> Seq<char> {
    trim_end_space(trim_start_space(s))
}

proof fn lemma_trim_start_at(s: Seq<char>, i: int)
    requires
        0 <= i <= s.len(),
        forall|k: int| 0 <= k < i ==> is_space(#[trigger] s[k]),
        i == s.len() || !is_space(s[i]),
    ensures
        trim_start_space(s) == s.skip(i),
    decreases i,
{
    if i == 0 {
        assert(s.skip(0) =~= s);
    } else {
        let t = s.drop_first();
        assert forall|k: int| 0 <= k < i - 1 implies is_space(#[trigger] t[k]) by {
            assert(t[k] == s[k + 1]);
        }
        lemma_trim_start_at(t, i - 1);
        assert(t.skip(i - 1) =~= s.skip(i));
    }
}

proof fn lemma_trim_end_at(s: Seq<char>, j: int)
    requires
        0 <= j <= s.len(),
        forall|k: int| j <= k < s.len() ==> is_space(#[trigger] s[k]),
        j == 0 || !is_space(s[j - 1]),
    ensures
        trim_end_space(s) == s.take(j),
    decreases s.len() - j,
{
    if j == s.len() {
        assert(s.take(j) =~= s);
    } else {
        let t = s.drop_last();
        assert forall|k: int| j <= k < t.len() implies is_space(#[trigger] t[k]) by {
            assert(t[k] == s[k]);
        }
        lemma_trim_end_at(t, j);
        assert(t.take(j) =~= s.take(j));
    }
}

/// `s` without leading whitespace.
pub(crate) fn trimmed_start(s: &Vec<char>) -> (r: Vec<char>)
    ensures
        r@ == trim_start_space(s@),
{
    let mut i: usize = 0;
    while i < s.len() && space(s[i])
        invariant
            i <= s@.len(),
            forall|k: int| 0 <= k < i ==> is_space(#[trigger] s@[k]),
        decreases s@.len() - i,
    {
        i += 1;
    }
    proof {
        lemma_trim_start_at(s@, i as int);
    }
    let t = slice(s, i, s.len());
    assert(t@ =~= s@.skip(i as int));
    t
}

/// `s` without leading and trailing whitespace.
pub(crate) fn trimmed(s: &Vec<char>) -> (r: Vec<char>)
    ensures
        r@ == trim_space(s@),
{
    let mut i: usize = 0;
    while i < s.len() && space(s[i])
        invariant
            i <= s@.len(),
            forall|k: int| 0 <= k < i ==> is_space(#[trigger] s@[k]),
        decreases s@.len() - i,
    {
        i += 1;
    }
    proof {
        lemma_trim_start_at(s@, i as int);
    }
    let t = slice(s, i, s.len());
    assert(t@ =~= s@.skip(i as int));
    let mut j: usize = t.len();
    while j > 0 && space(t[j - 1])
        invariant
            j <= t@.len(),
            forall|k: int| j <= k < t@.len() ==> is_space(#[trigger] t@[k]),
        decreases j,
    {
        j -= 1;
    }
    proof {
        lemma_trim_end_at(t@, j as int);
    }
    let r = slice(&t, 0, j);
    assert(r@ =~= t@.take(j as int));
    r
}

/// The line that keeps generated files out of version control.
pub open spec fn ignore_line() -> Seq<char> {
    ".husako/"@
}

/// Some line of `content`, trimmed, is `.husako/`.
pub open spec fn ignores_husako(content: Seq<char>) -> bool {
    exists|i: int|
        0 <= i < lines_of(content).len() && trim_space(#[trigger] lines_of(content)[i])
            == ignore_line()
}

/// `content` with the `.husako/` line appended, on a line of its own.
pub open spec fn with_ignore_line(content: Seq<char>) -> Seq<char> {
    let base = if content.len() > 0 && content.last() != '\n' {
        content.push('\n')
    } else {
        content
    };
    base + ".husako/\n"@
}

/// The new text of an existing `.gitignore`: `None` when a line of it, trimmed,
/// already reads `.husako/`; else the text with that line appended.
pub fn gitignore_update(content: &str) -> (r: Option<String>)
    ensures
        ignores_husako(content@) ==> r is None,
        !ignores_husako(content@) ==> (r matches Some(t) && t@ == with_ignore_line(content@)),
{
    let ls = lines(content);
    let ghost all = lines_of(content@);
    let mut i: usize = 0;
    while i < ls.len()
        invariant
            i <= ls@.len(),
            ls.deep_view() == all,
            all == lines_of(content@),
            forall|k: int| 0 <= k < i ==> trim_space(#[trigger] all[k]) != ignore_line(),
        decreases ls@.len() - i,
    {
        let t = trimmed(&ls[i]);
        assert(ls@[i as int]@ == all[i as int]);
        if eq_str(&t, ".husako/") {
            assert(trim_space(all[i as int]) == ignore_line());
            return None;
        }
        i += 1;
    }
    let mut out = chars_of(content);
    if out.len() > 0 && out[out.len() - 1] != '\n' {
        out.push('\n');
    }
    push_str(&mut out, ".husako/\n");
    Some(string_from(&out))
}

proof fn lemma_char_pos_at(s: Seq<char>, c: char, j: int)
    requires
        0 <= j <= s.len(),
        j < s.len() ==> s[j] == c,
        forall|k: int| 0 <= k < j ==> s[k] != c,
    ensures
        char_pos(s, c) == j,
{
    lemma_char_pos(s, c);
    let i = char_pos(s, c);
    if i < j {
        assert(s[i] != c);
    }
    if j < i {
        assert(s[j] == c);
    }
}

proof fn lemma_split_nonempty(s: Seq<char>, c: char)
    ensures
        split_on(s, c).len() >= 1,
    decreases s.len(),
{
    lemma_char_pos(s, c);
    let i = char_pos(s, c);
    if i < s.len() {
        lemma_split_nonempty(s.skip(i + 1), c);
    }
}

/// Splitting text that follows a separator-ended text continues the
/// pieces of the first: its last (empty) piece gives way to those of the second.
proof fn lemma_split_concat(y: Seq<char>, z: Seq<char>, c: char)
    requires
        y.len() == 0 || y.last() == c,
    ensures
        split_on(y + z, c) == split_on(y, c).drop_last() + split_on(z, c),
    decreases y.len(),
{
    if y.len() == 0 {
        assert(y + z =~= z);
        assert(split_on(y, c) =~= seq![y]);
        assert(split_on(y, c).drop_last() + split_on(z, c) =~= split_on(z, c));
    } else {
        let s = y + z;
        lemma_char_pos(y, c);
        let j = char_pos(y, c);
        assert(j < y.len()) by {
            assert(y[y.len() - 1] == c);
        }
        lemma_char_pos_at(s, c, j);
        let y2 = y.skip(j + 1);
        assert(s.take(j) =~= y.take(j));
        assert(s.skip(j + 1) =~= y2 + z);
        if y2.len() > 0 {
            assert(y2.last() == y.last());
        }
        lemma_split_concat(y2, z, c);
        lemma_split_nonempty(y2, c);
        assert(split_on(s, c) == seq![y.take(j)] + split_on(y2 + z, c));
        assert(split_on(y, c) == seq![y.take(j)] + split_on(y2, c));
        assert(split_on(s, c) =~= split_on(y, c).drop_last() + split_on(z, c));
    }
}

/// Adding the `.husako/` line is done once: the text it gives already ignores
/// `.husako/`, so a second update leaves it alone.
pub proof fn lemma_ignore_line_sticks(content: Seq<char>)
    ensures
        ignores_husako(with_ignore_line(content)),
{
    reveal_strlit(".husako/\n");
    let base = if content.len() > 0 && content.last() != '\n' {
        content.push('\n')
    } else {
        content
    };
    let l = ".husako/\n"@;
    let x = base + l;
    assert(x == with_ignore_line(content));
    lemma_split_concat(base, l, '\n');
    lemma_char_pos_at(l, '\n', 8);
    let line = l.take(8);
    assert(l.skip(9) =~= Seq::<char>::empty());
    assert(split_on(Seq::<char>::empty(), '\n') =~= seq![Seq::<char>::empty()]);
    assert(split_on(l, '\n') =~= seq![line, Seq::<char>::empty()]);
    let p = split_on(base, '\n').drop_last();
    let parts = split_on(x, '\n');
    assert(parts =~= p + seq![line, Seq::<char>::empty()]);
    assert(parts.last().len() == 0);
    let ls = lines_of(x);
    assert(parts.drop_last() =~= p.push(line));
    assert(ls == parts.drop_last().map_values(|t: Seq<char>| without_cr(t)));
    let k = ls.len() - 1;
    assert(ls[k] == without_cr(line));
    assert(line.last() == '/');
    assert(without_cr(line) == line);
    assert(line[0] == '.');
    assert(trim_start_space(line) == line);
    assert(trim_end_space(line) == line);
    assert(line =~= ignore_line()) by {
        reveal_strlit(".husako/");
    }
    assert(trim_space(ls[k]) == ignore_line());
}

// ---------------------------------------------------------------------------
// husako clean
// ---------------------------------------------------------------------------

/// What `husako clean` is asked to remove.
#[derive(Debug)]
pub struct CleanOptions {
    pub project_root: String,
    pub cache: bool,
    pub types: bool,
}

/// What `husako clean` removed, and the sizes in bytes of what it removed.
#[derive(Debug)]
pub struct CleanResult {
    pub cache_removed: bool,
    pub types_removed: bool,
    pub cache_size: u64,
    pub types_size: u64,
}

/// What a clean removes: the cache directory, the generated types
/// directory, and whether `.husako/` goes as a whole.
#[derive(Debug, Clone, Copy, PartialEq, Eq, Structural)]
pub struct CleanPlan {
    /// The cache directory is measured and reported removed.
    pub cache: bool,
    /// The types directory is measured and reported removed.
    pub types: bool,
    /// The whole `.husako/` directory is removed (a clean of both); else
    /// the cache and types directories are removed one by one as chosen.
    pub whole_dir: bool,
}

/// Decides what a clean removes, from what was asked (`cache`, `types`)
/// and which directories exist. A clean of both removes the whole
/// `.husako/` directory, reporting each part that existed.
pub fn clean_plan(options: &CleanOptions, cache_exists: bool, types_exists: bool, dir_exists: bool) -> (r:
    CleanPlan)
    ensures
        ({
            let cache = options.cache;
            let types = options.types;
            &&& cache && types ==> r == (CleanPlan {
                cache: cache_exists,
                types: types_exists,
                whole_dir: dir_exists,
            })
            &&& !(cache && types) ==> r == (CleanPlan {
                cache: cache && cache_exists,
                types: types && types_exists,
                whole_dir: false,
            })
        }),
{
    let cache = options.cache;
    let types = options.types;
    if cache && types {
        CleanPlan { cache: cache_exists, types: types_exists, whole_dir: dir_exists }
    } else {
        CleanPlan { cache: cache && cache_exists, types: types && types_exists, whole_dir: false }
    }
}

/// The report of a clean carried out by `plan`, with the sizes measured
/// before removal (a part not removed reports size zero).
pub fn clean_result(plan: CleanPlan, cache_size: u64, types_size: u64) -> (r: CleanResult)
    ensures
        r.cache_removed == plan.cache,
        r.types_removed == plan.types,
        r.cache_size == (if plan.cache { cache_size } else { 0 }),
        r.types_size == (if plan.types { types_size } else { 0 }),
{
    CleanResult {
        cache_removed: plan.cache,
        types_removed: plan.types,
        cache_size: if plan.cache { cache_size } else { 0 },
        types_size: if plan.types { types_size } else { 0 },
    }
}

// ---------------------------------------------------------------------------
// tsconfig.json
// ---------------------------------------------------------------------------

/// Every pair set in turn: a name seen again takes the newer path.
pub open spec fn upsert_all(m: Seq<(Seq<char>, Seq<char>)>, pairs: Seq<(Seq<char>, Seq<char>)>) -> Seq<
    (Seq<char>, Seq<char>),
>
    decreases pairs.len(),
{
    if pairs.len() == 0 {
        m
    } else {
        let before = upsert_all(m, pairs.drop_last());
        upsert(before, pairs.last().0, pairs.last().1)
    }
}

/// The import paths of generated types: `husako`, `husako/_base` and
/// `k8s/*`, `helm/*` when charts are configured, then each plugin module.
pub open spec fn import_paths(has_charts: bool, plugin_paths: Seq<(Seq<char>, Seq<char>)>) -> Seq<
    (Seq<char>, Seq<char>),
> {
    let base = seq![
        ("husako"@, ".husako/types/husako.d.ts"@),
        ("husako/_base"@, ".husako/types/husako/_base.d.ts"@),
        ("k8s/*"@, ".husako/types/k8s/*"@),
    ];
    let with_helm = if has_charts {
        upsert(base, "helm/*"@, ".husako/types/helm/*"@)
    } else {
        base
    };
    upsert_all(with_helm, plugin_paths)
}

proof fn lemma_upsert_keeps_keys(m: Seq<(Seq<char>, Seq<char>)>, k: Seq<char>, v: Seq<char>, key: Seq<char>)
    ensures
        has_key(m, key) ==> has_key(upsert(m, k, v), key),
        has_key(upsert(m, k, v), k),
{
    lemma_key_pos(m, k);
    let r = upsert(m, k, v);
    if has_key(m, key) {
        let i = choose|i: int| 0 <= i < m.len() && m[i].0 == key;
        if key_pos(m, k) < m.len() {
            if i == key_pos(m, k) {
                assert(r[i].0 == key);
            } else {
                assert(r[i] == m[i]);
            }
        } else {
            assert(r[i] == m[i]);
        }
    }
    if key_pos(m, k) < m.len() {
        assert(r[key_pos(m, k)].0 == k);
    } else {
        assert(r[m.len() as int].0 == k);
    }
}

proof fn lemma_upsert_all_keeps_keys(m: Seq<(Seq<char>, Seq<char>)>, pairs: Seq<(Seq<char>, Seq<char>)>, key: Seq<char>)
    ensures
        has_key(m, key) ==> has_key(upsert_all(m, pairs), key),
    decreases pairs.len(),
{
    if pairs.len() > 0 {
        lemma_upsert_all_keeps_keys(m, pairs.drop_last(), key);
        lemma_upsert_keeps_keys(upsert_all(m, pairs.drop_last()), pairs.last().0, pairs.last().1, key);
    }
}

/// The import paths always map `husako`, `husako/_base` and `k8s/*`, and map
/// `helm/*` when charts are configured, whatever the plugins add.
pub proof fn lemma_import_paths_keep_base(has_charts: bool, plugin_paths: Seq<(Seq<char>, Seq<char>)>)
    ensures
        has_key(import_paths(has_charts, plugin_paths), "husako"@),
        has_key(import_paths(has_charts, plugin_paths), "husako/_base"@),
        has_key(import_paths(has_charts, plugin_paths), "k8s/*"@),
        has_charts ==> has_key(import_paths(has_charts, plugin_paths), "helm/*"@),
{
    let base = seq![
        ("husako"@, ".husako/types/husako.d.ts"@),
        ("husako/_base"@, ".husako/types/husako/_base.d.ts"@),
        ("k8s/*"@, ".husako/types/k8s/*"@),
    ];
    assert(base[0].0 == "husako"@);
    assert(base[1].0 == "husako/_base"@);
    assert(base[2].0 == "k8s/*"@);
    let with_helm = if has_charts {
        upsert(base, "helm/*"@, ".husako/types/helm/*"@)
    } else {
        base
    };
    if has_charts {
        lemma_upsert_keeps_keys(base, "helm/*"@, ".husako/types/helm/*"@, "husako"@);
        lemma_upsert_keeps_keys(base, "helm/*"@, ".husako/types/helm/*"@, "husako/_base"@);
        lemma_upsert_keeps_keys(base, "helm/*"@, ".husako/types/helm/*"@, "k8s/*"@);
        lemma_upsert_all_keeps_keys(with_helm, plugin_paths, "helm/*"@);
    }
    lemma_upsert_all_keeps_keys(with_helm, plugin_paths, "husako"@);
    lemma_upsert_all_keeps_keys(with_helm, plugin_paths, "husako/_base"@);
    lemma_upsert_all_keeps_keys(with_helm, plugin_paths, "k8s/*"@);
}

fn path_pos(m: &Vec<(String, String)>, k: &String) -> (r: usize)
    ensures
        r <= m@.len(),
        r < m@.len() ==> pairs_view(m@)[r as int].0 == k@,
        forall|j: int| 0 <= j < r ==> (#[trigger] pairs_view(m@)[j]).0 != k@,
{
    let kc = chars_of(k.as_str());
    let mut i: usize = 0;
    while i < m.len()
        invariant
            i <= m@.len(),
            kc@ == k@,
            forall|j: int| 0 <= j < i ==> (#[trigger] pairs_view(m@)[j]).0 != k@,
        decreases m@.len() - i,
    {
        let c = chars_of(m[i].0.as_str());
        assert(pairs_view(m@)[i as int].0 == m@[i as int].0@);
        if crate::text::seq_eq(&c, &kc) {
            return i;
        }
        i += 1;
    }
    i
}

fn set_path(m: &mut Vec<(String, String)>, k: String, v: String)
    ensures
        pairs_view(final(m)@) == upsert(pairs_view(old(m)@), k@, v@),
{
    let ghost pm = pairs_view(m@);
    proof {
        lemma_key_pos(pm, k@);
    }
    let i = path_pos(m, &k);
    proof {
        if i < m@.len() {
            if key_pos(pm, k@) < i {
                assert(pm[key_pos(pm, k@)].0 == k@);
            }
            if key_pos(pm, k@) > i {
                assert(pm[i as int].0 == k@);
            }
        } else {
            if has_key(pm, k@) {
                let w = choose|w: int| 0 <= w < pm.len() && pm[w].0 == k@;
                assert(pm[w].0 != k@);
            }
        }
    }
    let ghost kv = k@;
    let ghost vv = v@;
    if i < m.len() {
        m.set(i, (k, v));
        assert(pairs_view(m@) =~= pm.update(i as int, (kv, vv)));
    } else {
        m.push((k, v));
        assert(pairs_view(m@) =~= pm.push((kv, vv)));
    }
}

/// The import paths written to `tsconfig.json` under `compilerOptions.paths`,
/// each with its single target.
pub fn tsconfig_paths(has_charts: bool, plugin_paths: &Vec<(String, String)>) -> (r: Vec<
    (String, String),
>)
    ensures
        pairs_view(r@) == import_paths(has_charts, pairs_view(plugin_paths@)),
{
    let mut m: Vec<(String, String)> = Vec::new();
    m.push((String::from_str("husako"), String::from_str(".husako/types/husako.d.ts")));
    m.push(
        (String::from_str("husako/_base"), String::from_str(".husako/types/husako/_base.d.ts")),
    );
    m.push((String::from_str("k8s/*"), String::from_str(".husako/types/k8s/*")));
    assert(pairs_view(m@) =~= seq![
        ("husako"@, ".husako/types/husako.d.ts"@),
        ("husako/_base"@, ".husako/types/husako/_base.d.ts"@),
        ("k8s/*"@, ".husako/types/k8s/*"@),
    ]);
    if has_charts {
        set_path(&mut m, String::from_str("helm/*"), String::from_str(".husako/types/helm/*"));
    }
    let ghost start = pairs_view(m@);
    let ghost pp = pairs_view(plugin_paths@);
    let mut i: usize = 0;
    while i < plugin_paths.len()
        invariant
            i <= plugin_paths@.len(),
            pp == pairs_view(plugin_paths@),
            pairs_view(m@) == upsert_all(start, pp.take(i as int)),
        decreases plugin_paths@.len() - i,
    {
        let k = plugin_paths[i].0.clone();
        let v = plugin_paths[i].1.clone();
        set_path(&mut m, k, v);
        proof {
            assert(pp.take(i + 1).drop_last() =~= pp.take(i as int));
            assert(pp.take(i + 1).last() == pp[i as int]);
        }
        i += 1;
    }
    assert(pp.take(plugin_paths@.len() as int) =~= pp);
    m
}

} // verus!
