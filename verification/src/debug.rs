//! `husako debug`: the health report of a project, from facts gathered on
//! disk.
use vstd::prelude::*;

use crate::config::{config_error_text, ConfigError};
use crate::jsonc::{jsonc_plain, strip_jsonc};
use crate::text::{push_str, string_from};

verus! {

/// serde_json parses `text` as a JSON value.
pub uninterp spec fn json_text_valid(text: Seq<char>) -> bool;

/// The JSON value that serde_json parses from `text` has a value at the
/// JSON pointer `pointer`.
pub uninterp spec fn json_pointer_found(text: Seq<char>, pointer: Seq<char>) -> bool;

/// Parses `text` with `serde_json::from_str` and looks `pointer` up with
/// `serde_json::Value::pointer`: `None` when the text is not JSON, else
/// whether the pointer reaches a value. Both results are functions of the
/// arguments alone; what they are on given text is left to serde_json.
#[verifier::external_body]
fn json_pointer_present(text: &str, pointer: &str) -> (r: Option<bool>)
    ensures
        r is Some == json_text_valid(text@),
        r matches Some(b) ==> b == json_pointer_found(text@, pointer@),
{
    match serde_json::from_str::<serde_json::Value>(text) {
        Ok(v) => Some(v.pointer(pointer).is_some()),
        Err(_) => None,
    }
}

/// What was found on disk about a project.
#[derive(Debug)]
pub struct ProjectFacts {
    /// `husako.toml` exists, and how loading it went.
    pub config: Option<Result<(), ConfigError>>,
    /// `.husako/types/` exists.
    pub types_exist: bool,
    /// Number of files under `.husako/types/`.
    pub type_file_count: usize,
    /// The text of `tsconfig.json` where it exists (empty when unreadable).
    pub tsconfig: Option<String>,
    /// `husako.toml` was changed after `.husako/types/` (both exist and
    /// both times could be read).
    pub config_newer_than_types: bool,
    /// Size of `.husako/cache/`, 0 where it does not exist.
    pub cache_size: u64,
}

/// The health report of a project.
#[derive(Debug)]
pub struct DebugReport {
    pub config_ok: Option<bool>,
    pub types_exist: bool,
    pub type_file_count: usize,
    pub tsconfig_ok: bool,
    pub tsconfig_has_paths: bool,
    pub stale: bool,
    pub cache_size: u64,
    pub issues: Vec<String>,
    pub suggestions: Vec<String>,
}

/// The pointers at which a tsconfig maps husako's modules.
pub open spec fn husako_pointer() -> Seq<char> {
    "/compilerOptions/paths/husako"@
}

pub open spec fn k8s_pointer() -> Seq<char> {
    "/compilerOptions/paths/k8s~1*"@
}

/// `[x]` when `cond` holds, else nothing.
pub open spec fn when(cond: bool, x: Seq<char>) -> Seq<Seq<char>> {
    if cond {
        seq![x]
    } else {
        Seq::empty()
    }
}

/// How the tsconfig text reads: `None` when it cannot be parsed, else
/// whether it maps `husako` and whether it maps `k8s/*`.
pub open spec fn tsconfig_paths(text: Seq<char>) -> Option<(bool, bool)> {
    let plain = jsonc_plain(text);
    if json_text_valid(plain) {
        Some((json_pointer_found(plain, husako_pointer()), json_pointer_found(plain, k8s_pointer())))
    } else {
        None
    }
}

/// The tsconfig exists and parses but maps neither module.
pub open spec fn tsconfig_unmapped(f: ProjectFacts) -> bool {
    f.tsconfig matches Some(t) && tsconfig_paths(t@) matches Some(p) && !p.0 && !p.1
}

pub open spec fn tsconfig_unparsed(f: ProjectFacts) -> bool {
    f.tsconfig matches Some(t) && tsconfig_paths(t@) is None
}

pub open spec fn is_stale(f: ProjectFacts) -> bool {
    f.config is Some && f.types_exist && f.config_newer_than_types
}

/// The issues found, in the order they are checked.
pub open spec fn debug_issues(f: ProjectFacts) -> Seq<Seq<char>> {
    (match f.config {
        None => seq!["husako.toml not found"@],
        Some(Ok(())) => Seq::empty(),
        Some(Err(e)) => seq!["husako.toml parse error: "@ + config_error_text(e)],
    }) + when(!f.types_exist, ".husako/types/ directory not found"@) + (match f.tsconfig {
        None => seq!["tsconfig.json not found"@],
        Some(_) => when(tsconfig_unmapped(f), "tsconfig.json is missing husako path mappings"@)
            + when(tsconfig_unparsed(f), "tsconfig.json could not be parsed"@),
    }) + when(is_stale(f), "Types may be stale (husako.toml newer than .husako/types/)"@)
}

/// The suggestions made, in the order the issues are checked.
pub open spec fn debug_suggestions(f: ProjectFacts) -> Seq<Seq<char>> {
    when(f.config is None, "Run 'husako init' to initialize a project"@) + when(
        !f.types_exist,
        "Run 'husako generate' to create type definitions"@,
    ) + (match f.tsconfig {
        None => seq!["Run 'husako generate' to create tsconfig.json"@],
        Some(_) => when(tsconfig_unmapped(f), "Run 'husako generate' to update tsconfig.json"@),
    }) + when(is_stale(f), "Run 'husako generate' to update"@)
}

/// The views of a list of strings.
pub open spec fn views(v: Seq<String>) -> Seq<Seq<char>> {
    v.map_values(|s: String| s@)
}

fn push_line(v: &mut Vec<String>, s: String)
    ensures
        views(final(v)@) == views(old(v)@).push(s@),
{
    v.push(s);
    assert(views(v@) =~= views(old(v)@).push(s@));
}

/// The health report of a project, from the facts found on disk.
pub fn debug_project(facts: &ProjectFacts) -> (r: DebugReport)
    ensures
        r.config_ok == match facts.config {
            None => None,
            Some(res) => Some(res is Ok),
        },
        r.types_exist == facts.types_exist,
        r.type_file_count == if facts.types_exist {
            facts.type_file_count
        } else {
            0
        },
        r.tsconfig_ok == (facts.tsconfig matches Some(t) && tsconfig_paths(t@) is Some),
        r.tsconfig_has_paths == (facts.tsconfig matches Some(t) && tsconfig_paths(t@) matches Some(
            p,
        ) && (p.0 || p.1)),
        r.stale == is_stale(*facts),
        r.cache_size == facts.cache_size,
        views(r.issues@) == debug_issues(*facts),
        views(r.suggestions@) == debug_suggestions(*facts),
{
    let mut issues: Vec<String> = Vec::new();
    let mut suggestions: Vec<String> = Vec::new();
    let config_ok = match &facts.config {
        None => {
            push_line(&mut issues, String::from_str("husako.toml not found"));
            push_line(&mut suggestions, String::from_str("Run 'husako init' to initialize a project"));
            None
        },
        Some(Ok(())) => Some(true),
        Some(Err(e)) => {
            let mut out: Vec<char> = Vec::new();
            push_str(&mut out, "husako.toml parse error: ");
            let m = e.message();
            push_str(&mut out, m.as_str());
            push_line(&mut issues, string_from(&out));
            Some(false)
        },
    };
    let ghost i1 = views(issues@);
    let ghost s1 = views(suggestions@);
    let type_file_count = if facts.types_exist {
        facts.type_file_count
    } else {
        push_line(&mut issues, String::from_str(".husako/types/ directory not found"));
        push_line(&mut suggestions, String::from_str("Run 'husako generate' to create type definitions"));
        0
    };
    assert(views(issues@) == i1 + when(!facts.types_exist, ".husako/types/ directory not found"@));
    assert(views(suggestions@) == s1 + when(!facts.types_exist, "Run 'husako generate' to create type definitions"@));
    let ghost i2 = views(issues@);
    let ghost s2 = views(suggestions@);
    let (tsconfig_ok, tsconfig_has_paths) = match &facts.tsconfig {
        None => {
            push_line(&mut issues, String::from_str("tsconfig.json not found"));
            push_line(&mut suggestions, String::from_str("Run 'husako generate' to create tsconfig.json"));
            (false, false)
        },
        Some(content) => {
            let stripped = strip_jsonc(content.as_str());
            let h = json_pointer_present(stripped.as_str(), "/compilerOptions/paths/husako");
            let k = json_pointer_present(stripped.as_str(), "/compilerOptions/paths/k8s~1*");
            match (h, k) {
                (Some(has_husako), Some(has_k8s)) => {
                    if !has_husako && !has_k8s {
                        push_line(&mut issues, String::from_str("tsconfig.json is missing husako path mappings"));
                        push_line(&mut suggestions, String::from_str("Run 'husako generate' to update tsconfig.json"));
                    }
                    (true, has_husako || has_k8s)
                },
                _ => {
                    push_line(&mut issues, String::from_str("tsconfig.json could not be parsed"));
                    (false, false)
                },
            }
        },
    };
    let ghost i3 = views(issues@);
    let ghost s3 = views(suggestions@);
    let stale = facts.config.is_some() && facts.types_exist && facts.config_newer_than_types;
    if stale {
        push_line(&mut issues, String::from_str("Types may be stale (husako.toml newer than .husako/types/)"));
        push_line(&mut suggestions, String::from_str("Run 'husako generate' to update"));
    }
    assert(views(issues@) == i3 + when(stale, "Types may be stale (husako.toml newer than .husako/types/)"@));
    assert(views(suggestions@) == s3 + when(stale, "Run 'husako generate' to update"@));
    DebugReport {
        config_ok,
        types_exist: facts.types_exist,
        type_file_count,
        tsconfig_ok,
        tsconfig_has_paths,
        stale,
        cache_size: facts.cache_size,
        issues,
        suggestions,
    }
}

} // verus!
