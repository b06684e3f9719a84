//! Naming of resolved schema specs and of cache directories.
use vstd::prelude::*;
use vstd::string::StringSliceAdditionalSpecFns;

use crate::config::HusakoConfig;
use crate::order::{is_name_order, name_order};
use crate::lock_check::{djb2, hash_content, hash_hex};
use crate::table::{keyed, lookup, lemma_key_pos, find_key, key_pos};
use crate::text::{
    chars_of, has_prefix, is_digit, join, join_with, push_all, push_str, replace, replace_all, seq_eq, split,
    split_on, string_from,
};

verus! {

/// A version segment: `v` followed by a digit.
pub open spec fn is_version_segment(p: Seq<char>) -> bool {
    p.len() > 1 && p[0] == 'v' && is_digit(p[1])
}

/// Index of the first version segment of `parts`, or `parts.len()`.
pub open spec fn version_index(parts: Seq<Seq<char>>) -> int
    decreases parts.len(),
{
    if parts.len() == 0 {
        0
    } else if is_version_segment(parts[0]) {
        0
    } else {
        1 + version_index(parts.drop_first())
    }
}

proof fn lemma_version_index(parts: Seq<Seq<char>>)
    ensures
        0 <= version_index(parts) <= parts.len(),
        version_index(parts) < parts.len() ==> is_version_segment(parts[version_index(parts)]),
        forall|j: int| 0 <= j < version_index(parts) ==> !is_version_segment(parts[j]),
    decreases parts.len(),
{
    if parts.len() > 0 && !is_version_segment(parts[0]) {
        lemma_version_index(parts.drop_first());
        assert forall|j: int| 0 <= j < version_index(parts) implies !is_version_segment(parts[j]) by {
            if j > 0 {
                assert(parts[j] == parts.drop_first()[j - 1]);
            }
        }
    }
}

/// The discovery key of a schema named `io.<reversed group>.<version>.<Type>`:
/// the dot-separated parts before the first version part (`v` and a digit),
/// reversed and joined with `.`, form the group. No group, `k8s.io` or `io`
/// gives `api/<version>`; another group gives `apis/<group>/<version>`. A name
/// of fewer than four parts, or without a version part, gives
/// `apis/unknown/<name>`.
pub open spec fn spec_discovery_key(name: Seq<char>) -> Seq<char> {
    let parts = split_on(name, '.');
    let vi = version_index(parts);
    if parts.len() < 4 || vi >= parts.len() {
        "apis/unknown/"@ + name
    } else {
        let group = join_with(parts.take(vi).reverse(), "."@);
        if group.len() == 0 || group == "k8s.io"@ || group == "io"@ {
            "api/"@ + parts[vi]
        } else {
            "apis/"@ + group + "/"@ + parts[vi]
        }
    }
}

/// Derive a discovery key from a schema name.
/// `io.cert-manager.v1.CertificateSpec` → `apis/cert-manager.io/v1`
pub fn derive_discovery_key(name: &str) -> (r: String)
    ensures
        r@ == spec_discovery_key(name@),
{
    let n = chars_of(name);
    let parts = split(&n, '.');
    let ghost ps = parts.deep_view();
    let mut vi: usize = 0;
    proof {
        lemma_version_index(ps);
    }
    while vi < parts.len() && !(parts[vi].len() > 1 && parts[vi][0] == 'v' && '0' <= parts[vi][1]
        && parts[vi][1] <= '9')
        invariant
            vi <= parts.len(),
            ps == parts.deep_view(),
            forall|j: int| 0 <= j < vi ==> !is_version_segment(ps[j]),
        decreases parts.len() - vi,
    {
        assert(ps[vi as int] == parts[vi as int]@);
        vi += 1;
    }
    proof {
        if vi < parts.len() {
            assert(ps[vi as int] == parts[vi as int]@);
            assert(is_version_segment(ps[vi as int]));
        }
        if version_index(ps) < vi {
            assert(is_version_segment(ps[version_index(ps)]));
        }
        if vi < version_index(ps) {
            assert(!is_version_segment(ps[vi as int]));
        }
        assert(vi == version_index(ps));
    }
    let mut out: Vec<char> = Vec::new();
    if parts.len() < 4 || vi >= parts.len() {
        push_str(&mut out, "apis/unknown/");
        push_all(&mut out, &n);
        return string_from(&out);
    }
    let mut rev: Vec<Vec<char>> = Vec::new();
    let mut k: usize = vi;
    while k > 0
        invariant
            k <= vi < parts.len(),
            ps == parts.deep_view(),
            rev.len() == vi - k,
            forall|j: int| 0 <= j < vi - k ==> rev.deep_view()[j] == ps.take(vi as int).reverse()[j],
        decreases k,
    {
        k -= 1;
        let seg = crate::text::slice(&parts[k], 0, parts[k].len());
        assert(seg@ =~= ps[k as int]);
        assert(seg.deep_view() =~= seg@);
        let ghost prev = rev@;
        let ghost prev_dv = rev.deep_view();
        let ghost sv = seg.deep_view();
        rev.push(seg);
        assert forall|j: int| 0 <= j < vi - k implies rev.deep_view()[j] == ps.take(vi as int).reverse()[j] by {
            assert(rev.deep_view()[j] == rev@[j].deep_view());
            if j < vi - k - 1 {
                assert(rev@[j] == prev[j]);
                assert(prev_dv[j] == prev[j].deep_view());
            } else {
                assert(rev@[j].deep_view() == sv);
            }
        }
    }
    assert(rev.deep_view() =~= ps.take(vi as int).reverse());
    let dot = chars_of(".");
    let group = join(&rev, &dot);
    let version = &parts[vi];
    assert(ps[vi as int] == version@);
    let is_core = group.len() == 0 || seq_eq(&group, &chars_of("k8s.io")) || seq_eq(
        &group,
        &chars_of("io"),
    );
    if is_core {
        push_str(&mut out, "api/");
        push_all(&mut out, version);
    } else {
        push_str(&mut out, "apis/");
        push_all(&mut out, &group);
        push_str(&mut out, "/");
        push_all(&mut out, version);
    }
    string_from(&out)
}

/// Simple hash for cache directory naming: the djb2 hash of the UTF-8 bytes
/// of `s`, as sixteen lower-case hexadecimal digits.
pub fn simple_hash(s: &str) -> (r: String)
    ensures
        r@ == hash_hex(djb2(s.spec_bytes())),
        r@.len() == 16,
{
    hash_content(s.as_bytes())
}

/// The discovery key of a CRD schema: from its first
/// `x-kubernetes-group-version-kind` entry, `api/<version>` for the core
/// group and `apis/<group>/<version>` otherwise (a missing group or version
/// reads as empty); without such an entry, the key derived from its name.
pub open spec fn spec_schema_key(name: Seq<char>, gvk: Option<(Seq<char>, Seq<char>)>) -> Seq<char> {
    match gvk {
        Some(gv) => if gv.0.len() == 0 {
            "api/"@ + gv.1
        } else {
            "apis/"@ + gv.0 + "/"@ + gv.1
        },
        None => spec_discovery_key(name),
    }
}

/// The discovery key under which a CRD schema is grouped. `gvk` holds the
/// group and version of the schema's first group-version-kind entry, when
/// it has one.
pub fn schema_key(name: &str, gvk: Option<(&str, &str)>) -> (r: String)
    ensures
        r@ == spec_schema_key(
            name@,
            match gvk {
                Some(gv) => Some((gv.0@, gv.1@)),
                None => None,
            },
        ),
{
    match gvk {
        Some(gv) => {
            let group = chars_of(gv.0);
            let mut out: Vec<char> = Vec::new();
            if group.len() == 0 {
                push_str(&mut out, "api/");
                push_str(&mut out, gv.1);
                assert(out@ =~= "api/"@ + gv.1@);
            } else {
                push_str(&mut out, "apis/");
                push_str(&mut out, gv.0);
                push_str(&mut out, "/");
                push_str(&mut out, gv.1);
                assert(out@ =~= "apis/"@ + gv.0@ + "/"@ + gv.1@);
            }
            string_from(&out)
        },
        None => derive_discovery_key(name),
    }
}

/// The schemas grouped by key: the keys in order of first appearance, each
/// with the names filed under it in order.
pub open spec fn grouped(pairs: Seq<(Seq<char>, Seq<char>)>) -> Seq<(Seq<char>, Seq<Seq<char>>)>
    decreases pairs.len(),
{
    if pairs.len() == 0 {
        Seq::empty()
    } else {
        let g = grouped(pairs.drop_last());
        let (name, key) = pairs.last();
        match lookup(g, key) {
            Some(names) => g.update(key_pos(g, key), (key, names.push(name))),
            None => g.push((key, seq![name])),
        }
    }
}

/// The views of groups.
pub open spec fn groups_view(g: Seq<(String, Vec<String>)>) -> Seq<(Seq<char>, Seq<Seq<char>>)> {
    g.map_values(|e: (String, Vec<String>)| (e.0@, e.1@.map_values(|n: String| n@)))
}

/// Files each schema name under its discovery key, as one schema document per
/// key holds the schemas of that key. `pairs` holds `(name, key)`.
pub fn group_by_key(pairs: &Vec<(String, String)>) -> (r: Vec<(String, Vec<String>)>)
    ensures
        groups_view(r@) == grouped(pairs@.map_values(|e: (String, String)| (e.0@, e.1@))),
{
    let ghost pv = pairs@.map_values(|e: (String, String)| (e.0@, e.1@));
    let mut out: Vec<(String, Vec<String>)> = Vec::new();
    let mut i: usize = 0;
    while i < pairs.len()
        invariant
            i <= pairs@.len(),
            pv == pairs@.map_values(|e: (String, String)| (e.0@, e.1@)),
            groups_view(out@) == grouped(pv.take(i as int)),
        decreases pairs@.len() - i,
    {
        let name = pairs[i].0.clone();
        let key = pairs[i].1.clone();
        let ghost g = groups_view(out@);
        proof {
            assert(pv.take(i + 1).drop_last() =~= pv.take(i as int));
            assert(pv.take(i + 1).last() == pv[i as int]);
            lemma_key_pos(g, key@);
            lemma_key_pos(keyed(out@), key@);
            lemma_same_keys(out@);
        }
        let j = find_key(&out, &key);
        if j < out.len() {
            let mut entry = out.remove(j);
            let ghost old_names = entry.1@;
            let ghost nv = name@;
            entry.1.push(name);
            out.insert(j, entry);
            proof {
                assert(entry.1@.map_values(|n: String| n@) =~= old_names.map_values(
                    |n: String| n@,
                ).push(nv));
                assert(groups_view(out@) =~= g.update(j as int, (key@, g[j as int].1.push(nv))));
            }
        } else {
            let ghost kv = key@;
            let ghost nv = name@;
            let mut names: Vec<String> = Vec::new();
            names.push(name);
            out.push((key, names));
            proof {
                assert(names@.map_values(|n: String| n@) =~= seq![nv]);
                assert(groups_view(out@) =~= g.push((kv, seq![nv])));
            }
        }
        i += 1;
    }
    assert(pv.take(pairs@.len() as int) =~= pv);
    out
}

proof fn lemma_same_keys(m: Seq<(String, Vec<String>)>)
    ensures
        forall|k: Seq<char>| key_pos(keyed(m), k) == key_pos(groups_view(m), k),
    decreases m.len(),
{
    if m.len() > 0 {
        lemma_same_keys(m.drop_first());
        assert(keyed(m).drop_first() =~= keyed(m.drop_first()));
        assert(groups_view(m).drop_first() =~= groups_view(m.drop_first()));
        assert forall|k: Seq<char>| key_pos(keyed(m), k) == key_pos(groups_view(m), k) by {
            assert(keyed(m)[0].0 == groups_view(m)[0].0);
            assert(key_pos(keyed(m.drop_first()), k) == key_pos(groups_view(m.drop_first()), k));
            if keyed(m)[0].0 != k {
                assert(key_pos(keyed(m), k) == 1 + key_pos(keyed(m).drop_first(), k));
                assert(key_pos(groups_view(m), k) == 1 + key_pos(groups_view(m).drop_first(), k));
            }
        }
    } else {
        assert forall|k: Seq<char>| key_pos(keyed(m), k) == key_pos(groups_view(m), k) by {}
    }
}

/// The name of the cache file of a spec under `key`: each `/` becomes `__`,
/// then `.json`.
pub open spec fn spec_cache_file_name(key: Seq<char>) -> Seq<char> {
    replace_all(key, "/"@, "__"@) + ".json"@
}

/// The file name under which a spec of a git schema source is cached.
pub fn cache_file_name(key: &str) -> (r: String)
    ensures
        r@ == spec_cache_file_name(key@),
{
    let k = chars_of(key);
    let from = chars_of("/");
    let to = chars_of("__");
    let mut out = replace(&k, &from, &to);
    push_str(&mut out, ".json");
    string_from(&out)
}

/// The key of a cached spec from its file's stem: each `__` becomes `/`.
pub fn cache_key_of(stem: &str) -> (r: String)
    ensures
        r@ == replace_all(stem@, "__"@, "/"@),
{
    let k = chars_of(stem);
    let from = chars_of("__");
    let to = chars_of("/");
    string_from(&replace(&k, &from, &to))
}

/// A key without underscores is read back from the name of its cache file:
/// turning each `/` into `__` and then each `__` into `/` gives the key again.
pub proof fn lemma_cache_key_round_trip(key: Seq<char>)
    requires
        !key.contains('_'),
    ensures
        replace_all(replace_all(key, "/"@, "__"@), "__"@, "/"@) == key,
    decreases key.len(),
{
    reveal_strlit("/");
    reveal_strlit("__");
    if key.len() > 0 {
        let rest = key.drop_first();
        assert(!rest.contains('_')) by {
            if rest.contains('_') {
                let i = choose|i: int| 0 <= i < rest.len() && rest[i] == '_';
                assert(key[i + 1] == '_');
            }
        }
        lemma_cache_key_round_trip(rest);
        let r = replace_all(rest, "/"@, "__"@);
        assert(key[0] != '_');
        if key[0] == '/' {
            assert(key.subrange(0, 1) =~= "/"@);
            assert(has_prefix(key, "/"@));
            assert(key.skip(1) =~= rest);
            let t = "__"@ + r;
            assert(replace_all(key, "/"@, "__"@) == t);
            assert(t.subrange(0, 2) =~= "__"@);
            assert(has_prefix(t, "__"@));
            assert(t.skip(2) =~= r);
            assert(replace_all(t, "__"@, "/"@) =~= key);
        } else {
            assert(key.subrange(0, 1)[0] == key[0]);
            assert("/"@[0] == '/');
            assert(!has_prefix(key, "/"@));
            let t = seq![key[0]] + r;
            assert(replace_all(key, "/"@, "__"@) == t);
            assert(t[0] == key[0]);
            assert("__"@[0] == '_');
            if t.len() >= 2 {
                assert(t.subrange(0, 2)[0] == t[0]);
            }
            assert(!has_prefix(t, "__"@));
            assert(t.drop_first() =~= r);
            assert(replace_all(t, "__"@, "/"@) =~= key);
        }
    }
}

/// The names of `(name, text)` pairs.
pub open spec fn file_names(files: Seq<(String, String)>) -> Seq<Seq<char>> {
    keyed(files).map_values(|e: (Seq<char>, String)| e.0)
}

/// The texts of the files at the positions `p`, joined by `---` lines.
pub open spec fn joined_in_order(files: Seq<(String, String)>, p: Seq<int>) -> Seq<char> {
    join_with(p.map_values(|k: int| files[k].1@), "\n---\n"@)
}

/// The CRD manifests of a directory as one YAML stream: the texts of its
/// `.yaml`/`.yml` files (`files`, each with its name) in name order, joined
/// by `---` lines; an error for a directory without such files.
pub fn crd_documents(files: &Vec<(String, String)>, dir: &str) -> (r: Result<String, String>)
    ensures
        files@.len() == 0 ==> (r matches Err(e) && e@ == "no .yaml/.yml files found in "@ + dir@),
        files@.len() > 0 ==> (r is Ok && exists|p: Seq<int>|
            #![trigger is_name_order(file_names(files@), p)]
            is_name_order(file_names(files@), p) && r->Ok_0@ == joined_in_order(files@, p)),
{
    if files.len() == 0 {
        let mut v: Vec<char> = Vec::new();
        push_str(&mut v, "no .yaml/.yml files found in ");
        push_str(&mut v, dir);
        return Err(string_from(&v));
    }
    let order = name_order(files);
    let ghost pv = order@.map_values(|x: usize| x as int);
    assert(file_names(files@) == keyed(files@).map_values(|e: (Seq<char>, String)| e.0));
    let mut parts: Vec<Vec<char>> = Vec::new();
    let mut i: usize = 0;
    while i < order.len()
        invariant
            i <= order@.len(),
            pv == order@.map_values(|x: usize| x as int),
            is_name_order(file_names(files@), pv),
            parts@.len() == i,
            parts.deep_view() == pv.take(i as int).map_values(|k: int| files@[k].1@),
        decreases order@.len() - i,
    {
        let k = order[i];
        assert(pv[i as int] == k as int);
        assert(0 <= pv[i as int] < file_names(files@).len());
        let c = chars_of(files[k].1.as_str());
        let ghost before = parts.deep_view();
        parts.push(c);
        proof {
            assert(parts.deep_view()[i as int] =~= c@);
            assert(parts.deep_view() =~= before.push(files@[k as int].1@));
            assert(pv.take(i + 1) =~= pv.take(i as int).push(pv[i as int]));
        }
        assert(parts.deep_view() =~= pv.take(i + 1).map_values(|k: int| files@[k].1@));
        i += 1;
    }
    assert(pv.take(order@.len() as int) =~= pv);
    let sep = chars_of("\n---\n");
    let out = string_from(&join(&parts, &sep));
    assert(out@ == joined_in_order(files@, pv));
    Ok(out)
}

/// The message for a named cluster that the config does not define.
pub open spec fn unknown_cluster_text(name: Seq<char>) -> Seq<char> {
    "cluster '"@ + name + "' not found in config"@
}

/// The server that a cluster schema source reads from: the named cluster's
/// when a name is given, else the single `[cluster]` section's.
pub fn cluster_server(config: &HusakoConfig, cluster: Option<&str>) -> (r: Result<String, String>)
    ensures
        match cluster {
            Some(n) => match lookup(keyed(config.clusters@), n@) {
                Some(c) => r matches Ok(s) && s@ == c.server@,
                None => r matches Err(e) && e@ == unknown_cluster_text(n@),
            },
            None => match config.cluster {
                Some(c) => r matches Ok(s) && s@ == c.server@,
                None => r matches Err(e) && e@ == "no [cluster] section in config"@,
            },
        },
{
    match cluster {
        Some(n) => {
            let key = String::from_str(n);
            let i = find_key(&config.clusters, &key);
            proof {
                lemma_key_pos(keyed(config.clusters@), n@);
            }
            if i < config.clusters.len() {
                assert(keyed(config.clusters@)[i as int].1 == config.clusters@[i as int].1);
                Ok(config.clusters[i].1.server.clone())
            } else {
                let mut v: Vec<char> = Vec::new();
                push_str(&mut v, "cluster '");
                push_str(&mut v, n);
                push_str(&mut v, "' not found in config");
                Err(string_from(&v))
            }
        },
        None => match &config.cluster {
            Some(c) => Ok(c.server.clone()),
            None => Err(String::from_str("no [cluster] section in config")),
        },
    }
}

} // verus!
