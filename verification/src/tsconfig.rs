//! Writing `tsconfig.json`: the import paths of the generated types merged
//! into the project's existing file, or a new file when there is none or it
//! cannot be read as JSON.
use vstd::prelude::*;

use crate::jsonc::{jsonc_plain, strip_jsonc};
use crate::plugin::pairs_view;
use crate::table::{
    has_key, insert_absent, key_pos, keyed, keys_unique, lemma_insert_absent_lookup, lemma_key_pos,
    lemma_upsert_lookup, lookup, upsert,
};
use crate::text::{push_str, string_from};
use crate::workspace::{import_paths, tsconfig_paths};

verus! {

#[verifier::external_type_specification]
#[verifier::external_body]
pub struct ExJsonDocument(serde_json::Value);

/// A JSON document as a tree. Numbers are kept as their text.
#[derive(Debug)]
pub enum Json {
    Null,
    Bool(bool),
    Number(String),
    Str(String),
    Array(Vec<Json>),
    /// The members in order.
    Object(Vec<(String, Json)>),
}

/// A JSON document with its texts as sequences.
pub enum JsonView {
    Null,
    Bool(bool),
    Number(Seq<char>),
    Str(Seq<char>),
    Array(Seq<JsonView>),
    Object(Seq<(Seq<char>, JsonView)>),
}

/// The view of a JSON tree.
pub open spec fn jv(j: Json) -> JsonView
    decreases j,
{
    match j {
        Json::Null => JsonView::Null,
        Json::Bool(b) => JsonView::Bool(b),
        Json::Number(n) => JsonView::Number(n@),
        Json::Str(s) => JsonView::Str(s@),
        Json::Array(v) => JsonView::Array(jv_items(v@)),
        Json::Object(m) => JsonView::Object(jv_members(m@)),
    }
}

/// The views of the items of an array.
pub open spec fn jv_items(s: Seq<Json>) -> Seq<JsonView>
    decreases s,
{
    if s.len() == 0 {
        Seq::empty()
    } else {
        seq![jv(s[0])] + jv_items(s.drop_first())
    }
}

/// The views of the members of an object.
pub open spec fn jv_members(s: Seq<(String, Json)>) -> Seq<(Seq<char>, JsonView)>
    decreases s,
{
    if s.len() == 0 {
        Seq::empty()
    } else {
        seq![(s[0].0@, jv(s[0].1))] + jv_members(s.drop_first())
    }
}

proof fn lemma_jv_members(s: Seq<(String, Json)>)
    ensures
        jv_members(s).len() == s.len(),
        forall|i: int| 0 <= i < s.len() ==> #[trigger] jv_members(s)[i] == (s[i].0@, jv(s[i].1)),
    decreases s.len(),
{
    if s.len() > 0 {
        lemma_jv_members(s.drop_first());
        assert forall|i: int| 0 <= i < s.len() implies #[trigger] jv_members(s)[i] == (
            s[i].0@,
            jv(s[i].1),
        ) by {
            if i > 0 {
                assert(s.drop_first()[i - 1] == s[i]);
            }
        }
    }
}

/// What `serde_json::from_str` reads from `text` as a document, `None`
/// when the text is not JSON.
pub uninterp spec fn json_text_tree(text: Seq<char>) -> Option<JsonView>;

/// What `serde_json::to_string_pretty` writes for a document: the text, or
/// the serializer's message.
pub uninterp spec fn json_pretty_text(doc: JsonView) -> Result<Seq<char>, Seq<char>>;

/// The view of an optional tree.
pub open spec fn opt_jv(o: Option<Json>) -> Option<JsonView> {
    match o {
        Some(j) => Some(jv(j)),
        None => None,
    }
}

/// The tree of a parsed `serde_json::Value`, one node for one node.
#[verifier::external_body]
fn tree_of(v: &serde_json::Value) -> Json {
    match v {
        serde_json::Value::Null => Json::Null,
        serde_json::Value::Bool(b) => Json::Bool(*b),
        serde_json::Value::Number(n) => Json::Number(n.to_string()),
        serde_json::Value::String(s) => Json::Str(s.clone()),
        serde_json::Value::Array(a) => Json::Array(a.iter().map(tree_of).collect()),
        serde_json::Value::Object(m) => Json::Object(m.iter().map(|(k, x)| (k.clone(), tree_of(x))).collect()),
    }
}

/// The `serde_json::Value` of a tree, one node for one node.
#[verifier::external_body]
fn value_of(j: &Json) -> serde_json::Value {
    match j {
        Json::Null => serde_json::Value::Null,
        Json::Bool(b) => serde_json::Value::Bool(*b),
        Json::Number(n) => serde_json::from_str(n).unwrap_or(serde_json::Value::Null),
        Json::Str(s) => serde_json::Value::String(s.clone()),
        Json::Array(a) => serde_json::Value::Array(a.iter().map(value_of).collect()),
        Json::Object(m) => serde_json::Value::Object(m.iter().map(|(k, x)| (k.clone(), value_of(x))).collect()),
    }
}

/// Reads `text` with `serde_json::from_str` as a document. Claims only that
/// the tree is what the parser gives for this text.
#[verifier::external_body]
fn parse_json(text: &str) -> (r: Option<Json>)
    ensures
        opt_jv(r) == json_text_tree(text@),
{
    serde_json::from_str::<serde_json::Value>(text).ok().map(|v| tree_of(&v))
}

/// Writes a document with `serde_json::to_string_pretty`. Claims only that
/// the text, or the message, is what the serializer gives for it.
#[verifier::external_body]
fn pretty_json(doc: &Json) -> (r: Result<String, String>)
    ensures
        match r {
            Ok(t) => json_pretty_text(jv(*doc)) == Ok::<Seq<char>, Seq<char>>(t@),
            Err(e) => json_pretty_text(jv(*doc)) == Err::<Seq<char>, Seq<char>>(e@),
        },
{
    serde_json::to_string_pretty(&value_of(doc)).map_err(|e| e.to_string())
}

/// The value of one import path: an array of its single target.
pub open spec fn path_value(target: Seq<char>) -> JsonView {
    JsonView::Array(seq![JsonView::Str(target)])
}

/// The members `m` with each import path set, in order.
pub open spec fn set_paths(m: Seq<(Seq<char>, JsonView)>, paths: Seq<(Seq<char>, Seq<char>)>) -> Seq<
    (Seq<char>, JsonView),
>
    decreases paths.len(),
{
    if paths.len() == 0 {
        m
    } else {
        upsert(set_paths(m, paths.drop_last()), paths.last().0, path_value(paths.last().1))
    }
}

/// `compilerOptions.paths` with the import paths set: every import path is
/// set and every other path is kept. A value that is not an object is left
/// as it is.
pub open spec fn merged_paths(p: JsonView, paths: Seq<(Seq<char>, Seq<char>)>) -> JsonView {
    match p {
        JsonView::Object(m) => JsonView::Object(set_paths(m, paths)),
        other => other,
    }
}

/// `compilerOptions` merged: `baseUrl` becomes `"."` when it is missing,
/// `paths` is added when missing and then gets the import paths; every
/// other option is kept. A value that is not an object is left as it is.
pub open spec fn merged_options(co: JsonView, paths: Seq<(Seq<char>, Seq<char>)>) -> JsonView {
    match co {
        JsonView::Object(c) => {
            let c1 = insert_absent(c, "baseUrl"@, JsonView::Str("."@));
            let c2 = insert_absent(c1, "paths"@, JsonView::Object(Seq::empty()));
            JsonView::Object(upsert(c2, "paths"@, merged_paths(lookup(c2, "paths"@).unwrap(), paths)))
        },
        other => other,
    }
}

/// The existing document merged: `compilerOptions` is added when missing
/// and then merged; every other member is kept. A document that is not an
/// object is left as it is.
pub open spec fn merged_tsconfig(root: JsonView, paths: Seq<(Seq<char>, Seq<char>)>) -> JsonView {
    match root {
        JsonView::Object(m) => {
            let m1 = insert_absent(m, "compilerOptions"@, JsonView::Object(Seq::empty()));
            JsonView::Object(
                upsert(
                    m1,
                    "compilerOptions"@,
                    merged_options(lookup(m1, "compilerOptions"@).unwrap(), paths),
                ),
            )
        },
        other => other,
    }
}

/// A new `tsconfig.json`: strict ES modules resolved as a bundler does, with
/// `baseUrl` `"."` and the import paths.
pub open spec fn fresh_tsconfig(paths: Seq<(Seq<char>, Seq<char>)>) -> JsonView {
    JsonView::Object(
        seq![
            (
                "compilerOptions"@,
                JsonView::Object(
                    seq![
                        ("strict"@, JsonView::Bool(true)),
                        ("module"@, JsonView::Str("ESNext"@)),
                        ("moduleResolution"@, JsonView::Str("bundler"@)),
                        ("baseUrl"@, JsonView::Str("."@)),
                        ("paths"@, JsonView::Object(set_paths(Seq::empty(), paths))),
                    ],
                ),
            ),
        ],
    )
}

/// The document written, and whether an existing file was replaced because
/// it could not be read as JSON (after its comments and trailing commas
/// are dropped).
pub open spec fn tsconfig_doc(existing: Option<Seq<char>>, paths: Seq<(Seq<char>, Seq<char>)>) -> (
    JsonView,
    bool,
) {
    match existing {
        None => (fresh_tsconfig(paths), false),
        Some(t) => match json_text_tree(jsonc_plain(t)) {
            Some(root) => (merged_tsconfig(root, paths), false),
            None => (fresh_tsconfig(paths), true),
        },
    }
}

/// Sets `k` to `v` among the members.
fn set_member(m: &mut Vec<(String, Json)>, k: String, v: Json)
    ensures
        jv_members(final(m)@) == upsert(jv_members(old(m)@), k@, jv(v)),
{
    let ghost km = k@;
    let ghost kv = jv(v);
    let i = crate::table::find_key(m, &k);
    proof {
        lemma_jv_members(m@);
        lemma_key_pos(keyed(m@), k@);
        lemma_key_pos(jv_members(m@), k@);
        lemma_same_keys(m@, k@);
    }
    if i < m.len() {
        m.set(i, (k, v));
        proof {
            lemma_jv_members(m@);
        }
        assert(jv_members(m@) =~= jv_members(old(m)@).update(i as int, (km, kv)));
    } else {
        m.push((k, v));
        proof {
            lemma_jv_members(m@);
        }
        assert(jv_members(m@) =~= jv_members(old(m)@).push((km, kv)));
    }
}

/// Members and their views name the same keys at the same places.
proof fn lemma_same_keys(s: Seq<(String, Json)>, k: Seq<char>)
    ensures
        key_pos(keyed(s), k) == key_pos(jv_members(s), k),
    decreases s.len(),
{
    lemma_jv_members(s);
    if s.len() > 0 {
        lemma_same_keys(s.drop_first(), k);
        assert(keyed(s).drop_first() =~= keyed(s.drop_first()));
        assert(jv_members(s).drop_first() =~= jv_members(s.drop_first()));
    }
}

proof fn lemma_absent_then_has(m: Seq<(Seq<char>, JsonView)>, k: Seq<char>, v: JsonView)
    ensures
        has_key(insert_absent(m, k, v), k),
{
    if !has_key(m, k) {
        assert(m.push((k, v))[m.len() as int].0 == k);
    }
}

/// Adds `k` with `v` among the members unless `k` is there.
fn add_absent(m: &mut Vec<(String, Json)>, k: String, v: Json)
    ensures
        jv_members(final(m)@) == insert_absent(jv_members(old(m)@), k@, jv(v)),
{
    let ghost km = k@;
    let ghost kv = jv(v);
    let i = crate::table::find_key(m, &k);
    proof {
        lemma_jv_members(m@);
        lemma_key_pos(jv_members(m@), k@);
        lemma_same_keys(m@, k@);
    }
    if i == m.len() {
        m.push((k, v));
        proof {
            lemma_jv_members(m@);
        }
        assert(jv_members(m@) =~= jv_members(old(m)@).push((km, kv)));
    }
}

/// The tree of one import path's value.
fn path_json(target: &String) -> (r: Json)
    ensures
        jv(r) == path_value(target@),
{
    let t = target.clone();
    let ghost tv = t@;
    let items = vec![Json::Str(t)];
    assert(items@.drop_first() =~= Seq::<Json>::empty());
    assert(jv(items@[0]) == JsonView::Str(tv));
    assert(jv_items(items@) == seq![jv(items@[0])] + jv_items(items@.drop_first()));
    assert(jv_items(items@) =~= seq![JsonView::Str(tv)]);
    Json::Array(items)
}

/// Sets each import path among the members of `paths`, when it is an object.
fn with_paths(p: Json, paths: &Vec<(String, String)>) -> (r: Json)
    ensures
        jv(r) == merged_paths(jv(p), pairs_view(paths@)),
{
    match p {
        Json::Object(m) => {
            let mut m = m;
            let ghost start = jv_members(m@);
            let ghost pv = pairs_view(paths@);
            let mut i: usize = 0;
            assert(pv.take(0) =~= Seq::<(Seq<char>, Seq<char>)>::empty());
            while i < paths.len()
                invariant
                    i <= paths@.len(),
                    pv == pairs_view(paths@),
                    jv_members(m@) == set_paths(start, pv.take(i as int)),
                decreases paths@.len() - i,
            {
                let v = path_json(&paths[i].1);
                set_member(&mut m, paths[i].0.clone(), v);
                proof {
                    assert(pv.take(i + 1).drop_last() =~= pv.take(i as int));
                    assert(pv.take(i + 1).last() == pv[i as int]);
                }
                i += 1;
            }
            assert(pv.take(paths@.len() as int) =~= pv);
            Json::Object(m)
        },
        other => other,
    }
}

/// Where the member `k` stands, or the number of members when there is none.
fn position_of(m: &Vec<(String, Json)>, k: &String) -> (r: usize)
    ensures
        r == key_pos(jv_members(m@), k@),
        r <= m@.len(),
{
    proof {
        lemma_same_keys(m@, k@);
        lemma_jv_members(m@);
        lemma_key_pos(jv_members(m@), k@);
    }
    crate::table::find_key(m, k)
}

/// `compilerOptions` merged with the import paths.
fn with_options(co: Json, paths: &Vec<(String, String)>) -> (r: Json)
    ensures
        jv(r) == merged_options(jv(co), pairs_view(paths@)),
{
    match co {
        Json::Object(c) => {
            let mut c = c;
            add_absent(&mut c, String::from_str("baseUrl"), Json::Str(String::from_str(".")));
            let e: Vec<(String, Json)> = Vec::new();
            assert(jv_members(e@) =~= Seq::<(Seq<char>, JsonView)>::empty());
            let ghost c1 = jv_members(c@);
            add_absent(&mut c, String::from_str("paths"), Json::Object(e));
            let key = String::from_str("paths");
            let ghost c2 = jv_members(c@);
            proof {
                lemma_absent_then_has(c1, "paths"@, JsonView::Object(Seq::empty()));
                lemma_key_pos(c2, "paths"@);
            }
            let i = position_of(&c, &key);
            proof {
                lemma_jv_members(c@);
            }
            let (k, p) = c.remove(i);
            let p2 = with_paths(p, paths);
            c.insert(i, (k, p2));
            proof {
                lemma_jv_members(c@);
                assert(jv_members(c@) =~= c2.update(i as int, ("paths"@, merged_paths(c2[i as int].1, pairs_view(paths@)))));
            }
            Json::Object(c)
        },
        other => other,
    }
}

/// The existing document merged with the import paths.
fn with_root(root: Json, paths: &Vec<(String, String)>) -> (r: Json)
    ensures
        jv(r) == merged_tsconfig(jv(root), pairs_view(paths@)),
{
    match root {
        Json::Object(m) => {
            let mut m = m;
            let e: Vec<(String, Json)> = Vec::new();
            assert(jv_members(e@) =~= Seq::<(Seq<char>, JsonView)>::empty());
            let ghost m0 = jv_members(m@);
            add_absent(&mut m, String::from_str("compilerOptions"), Json::Object(e));
            let key = String::from_str("compilerOptions");
            let ghost m1 = jv_members(m@);
            proof {
                lemma_absent_then_has(m0, "compilerOptions"@, JsonView::Object(Seq::empty()));
                lemma_key_pos(m1, "compilerOptions"@);
            }
            let i = position_of(&m, &key);
            proof {
                lemma_jv_members(m@);
            }
            let (k, co) = m.remove(i);
            let co2 = with_options(co, paths);
            m.insert(i, (k, co2));
            proof {
                lemma_jv_members(m@);
                assert(jv_members(m@) =~= m1.update(i as int, ("compilerOptions"@, merged_options(m1[i as int].1, pairs_view(paths@)))));
            }
            Json::Object(m)
        },
        other => other,
    }
}

/// A new document with the import paths.
fn fresh(paths: &Vec<(String, String)>) -> (r: Json)
    ensures
        jv(r) == fresh_tsconfig(pairs_view(paths@)),
{
    let e: Vec<(String, Json)> = Vec::new();
    assert(jv_members(e@) =~= Seq::<(Seq<char>, JsonView)>::empty());
    let p = with_paths(Json::Object(e), paths);
    let mut c: Vec<(String, Json)> = Vec::new();
    c.push((String::from_str("strict"), Json::Bool(true)));
    c.push((String::from_str("module"), Json::Str(String::from_str("ESNext"))));
    c.push((String::from_str("moduleResolution"), Json::Str(String::from_str("bundler"))));
    c.push((String::from_str("baseUrl"), Json::Str(String::from_str("."))));
    c.push((String::from_str("paths"), p));
    proof {
        lemma_jv_members(c@);
    }
    assert(jv_members(c@) =~= seq![
        ("strict"@, JsonView::Bool(true)),
        ("module"@, JsonView::Str("ESNext"@)),
        ("moduleResolution"@, JsonView::Str("bundler"@)),
        ("baseUrl"@, JsonView::Str("."@)),
        ("paths"@, JsonView::Object(set_paths(Seq::empty(), pairs_view(paths@)))),
    ]);
    let mut root: Vec<(String, Json)> = Vec::new();
    let ghost cv = jv_members(c@);
    root.push((String::from_str("compilerOptions"), Json::Object(c)));
    proof {
        lemma_jv_members(root@);
    }
    assert(jv_members(root@) =~= seq![("compilerOptions"@, JsonView::Object(cv))]);
    Json::Object(root)
}

/// The text of `tsconfig.json` with the import paths of the generated
/// types (`husako`, `husako/_base`, `k8s/*`, `helm/*` when charts are
/// configured, then each plugin module): `existing` is the current file's
/// text, if there is one. Its comments and trailing commas are dropped and
/// the rest read as JSON; `compilerOptions` gets `baseUrl` `"."` when it has
/// none and the import paths under `paths`, and everything else is kept.
/// Without a file, or when it is not JSON, a new document is written, and
/// the flag says that an existing file was replaced. The text ends with a
/// line break.
pub fn tsconfig_text(existing: Option<&str>, has_charts: bool, plugin_paths: &Vec<(String, String)>) -> (r:
    Result<(String, bool), String>)
    ensures
        ({
            let paths = import_paths(has_charts, pairs_view(plugin_paths@));
            let (doc, replaced) = tsconfig_doc(
                match existing {
                    Some(t) => Some(t@),
                    None => None,
                },
                paths,
            );
            match json_pretty_text(doc) {
                Ok(t) => r matches Ok((s, b)) && s@ == t + "\n"@ && b == replaced,
                Err(m) => r matches Err(e) && e@ == "serialize tsconfig.json: "@ + m,
            }
        }),
{
    let paths = tsconfig_paths(has_charts, plugin_paths);
    let (doc, replaced) = match existing {
        None => (fresh(&paths), false),
        Some(t) => {
            let plain = strip_jsonc(t);
            match parse_json(plain.as_str()) {
                Some(root) => (with_root(root, &paths), false),
                None => (fresh(&paths), true),
            }
        },
    };
    match pretty_json(&doc) {
        Ok(text) => {
            let mut v = crate::text::chars_of(text.as_str());
            push_str(&mut v, "\n");
            Ok((string_from(&v), replaced))
        },
        Err(m) => {
            let mut v: Vec<char> = Vec::new();
            push_str(&mut v, "serialize tsconfig.json: ");
            push_str(&mut v, m.as_str());
            Err(string_from(&v))
        },
    }
}

proof fn lemma_set_paths_lookup(m: Seq<(Seq<char>, JsonView)>, paths: Seq<(Seq<char>, Seq<char>)>)
    requires
        keys_unique(paths),
    ensures
        forall|i: int| 0 <= i < paths.len() ==> lookup(set_paths(m, paths), #[trigger] paths[i].0) == Some(path_value(paths[i].1)),
        forall|k: Seq<char>| (forall|i: int| 0 <= i < paths.len() ==> paths[i].0 != k) ==> lookup(set_paths(m, paths), k) == lookup(m, k),
    decreases paths.len(),
{
    if paths.len() > 0 {
        let init = paths.drop_last();
        assert(keys_unique(init)) by {
            assert forall|i: int, j: int| 0 <= i < init.len() && 0 <= j < init.len() && i != j implies init[i].0 != init[j].0 by {
                assert(init[i] == paths[i] && init[j] == paths[j]);
            }
        }
        lemma_set_paths_lookup(m, init);
        let prev = set_paths(m, init);
        let last = paths.last();
        assert forall|i: int| 0 <= i < paths.len() implies lookup(set_paths(m, paths), #[trigger] paths[i].0) == Some(path_value(paths[i].1)) by {
            lemma_upsert_lookup(prev, last.0, path_value(last.1), paths[i].0);
            if i < paths.len() - 1 {
                assert(init[i] == paths[i]);
                assert(paths[i].0 != paths[paths.len() - 1].0);
            }
        }
        assert forall|k: Seq<char>| (forall|i: int| 0 <= i < paths.len() ==> paths[i].0 != k) implies lookup(set_paths(m, paths), k) == lookup(m, k) by {
            lemma_upsert_lookup(prev, last.0, path_value(last.1), k);
            assert(paths[paths.len() - 1].0 != k);
            assert forall|i: int| 0 <= i < init.len() implies init[i].0 != k by {
                assert(init[i] == paths[i]);
            }
        }
    }
}

/// Merging an existing `tsconfig.json` whose `compilerOptions` and
/// `compilerOptions.paths` are objects: every import path is set to its
/// target and every other path is kept; `baseUrl` is kept when it is there
/// and is `"."` otherwise; every other option and every other member of the
/// document is kept.
pub proof fn lemma_merge_sets_paths(
    m: Seq<(Seq<char>, JsonView)>,
    c: Seq<(Seq<char>, JsonView)>,
    p: Seq<(Seq<char>, JsonView)>,
    paths: Seq<(Seq<char>, Seq<char>)>,
)
    requires
        lookup(m, "compilerOptions"@) == Some(JsonView::Object(c)),
        lookup(c, "paths"@) == Some(JsonView::Object(p)),
        keys_unique(paths),
    ensures
        ({
            let rp = set_paths(p, paths);
            let c1 = insert_absent(c, "baseUrl"@, JsonView::Str("."@));
            let rc = upsert(c1, "paths"@, JsonView::Object(rp));
            let rm = upsert(m, "compilerOptions"@, JsonView::Object(rc));
            &&& merged_tsconfig(JsonView::Object(m), paths) == JsonView::Object(rm)
            &&& forall|k: Seq<char>| k != "compilerOptions"@ ==> lookup(rm, k) == lookup(m, k)
            &&& lookup(rm, "compilerOptions"@) == Some(JsonView::Object(rc))
            &&& lookup(rc, "baseUrl"@) == (if has_key(c, "baseUrl"@) {
                lookup(c, "baseUrl"@)
            } else {
                Some(JsonView::Str("."@))
            })
            &&& forall|k: Seq<char>| k != "paths"@ && k != "baseUrl"@ ==> lookup(rc, k) == lookup(c, k)
            &&& lookup(rc, "paths"@) == Some(JsonView::Object(rp))
            &&& forall|i: int| 0 <= i < paths.len() ==> lookup(rp, #[trigger] paths[i].0) == Some(path_value(paths[i].1))
            &&& forall|k: Seq<char>| (forall|i: int| 0 <= i < paths.len() ==> paths[i].0 != k) ==> lookup(rp, k) == lookup(p, k)
        }),
{
    let co = "compilerOptions"@;
    let pk = "paths"@;
    let bu = "baseUrl"@;
    let dot = JsonView::Str("."@);
    let rp = set_paths(p, paths);
    let c1 = insert_absent(c, bu, dot);
    let rc = upsert(c1, pk, JsonView::Object(rp));
    let rm = upsert(m, co, JsonView::Object(rc));
    lemma_key_pos(m, co);
    assert(insert_absent(m, co, JsonView::Object(Seq::empty())) == m);
    assert(pk != bu) by {
        reveal_strlit("paths");
        reveal_strlit("baseUrl");
        assert(pk.len() != bu.len());
    }
    lemma_insert_absent_lookup(c, bu, dot, pk);
    lemma_key_pos(c1, pk);
    assert(insert_absent(c1, pk, JsonView::Object(Seq::empty())) == c1);
    lemma_set_paths_lookup(p, paths);
    lemma_upsert_lookup(m, co, JsonView::Object(rc), co);
    assert forall|k: Seq<char>| k != co implies lookup(rm, k) == lookup(m, k) by {
        lemma_upsert_lookup(m, co, JsonView::Object(rc), k);
    }
    lemma_upsert_lookup(c1, pk, JsonView::Object(rp), pk);
    lemma_upsert_lookup(c1, pk, JsonView::Object(rp), bu);
    lemma_insert_absent_lookup(c, bu, dot, bu);
    assert forall|k: Seq<char>| k != pk && k != bu implies lookup(rc, k) == lookup(c, k) by {
        lemma_upsert_lookup(c1, pk, JsonView::Object(rp), k);
        lemma_insert_absent_lookup(c, bu, dot, k);
    }
}

} // verus!
