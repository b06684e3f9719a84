//! Entry files of `husako render`: aliases from `husako.toml`, and the name
//! of the rendered output.
use vstd::prelude::*;

use crate::add::{file_stem, spec_file_stem};
use crate::config::HusakoConfig;
use crate::order::{is_name_order, name_order};
use crate::project::{join_path, names_of, path_join};
use crate::table::{find_key, has_key, keyed, lemma_key_pos, lookup};
use crate::text::{chars_of, push_str, string_from};

verus! {

/// The output name of a rendered entry: an entry alias as it is (so
/// `apps/my-app` renders to `apps/my-app.yaml`), otherwise the file's stem.
pub open spec fn spec_out_name(file_arg: Seq<char>, config: Option<HusakoConfig>) -> Seq<char> {
    if config matches Some(cfg) && has_key(keyed(cfg.entries@), file_arg) {
        file_arg
    } else {
        spec_file_stem(file_arg, false)
    }
}

pub fn derive_out_name(file_arg: &String, config: Option<&HusakoConfig>) -> (r: String)
    ensures
        r@ == spec_out_name(file_arg@, match config {
            Some(c) => Some(*c),
            None => None,
        }),
{
    if let Some(cfg) = config {
        let i = find_key(&cfg.entries, file_arg);
        proof {
            lemma_key_pos(keyed(cfg.entries@), file_arg@);
        }
        if i < cfg.entries.len() {
            return file_arg.clone();
        }
    }
    file_stem(file_arg.as_str(), false)
}

/// How a file argument that is no file reads against the entry aliases.
#[derive(Debug)]
pub enum EntryAlias {
    /// The alias maps to `mapped`, which lies at `resolved` under the
    /// project root.
    Alias { mapped: String, resolved: String },
    /// No such alias; the message lists the aliases there are.
    NotFound(String),
}

/// The aliases of `cfg`, sorted by name, as `\n  alias = "path"` lines.
pub open spec fn alias_lines(entries: Seq<(String, String)>, p: Seq<int>) -> Seq<char>
    decreases p.len(),
{
    if p.len() == 0 {
        Seq::empty()
    } else {
        alias_lines(entries, p.drop_last()) + "\n  "@ + entries[p.last()].0@ + " = \""@
            + entries[p.last()].1@ + "\""@
    }
}

/// The message for a file argument that is neither a file nor an alias.
pub open spec fn is_not_found_message(m: Seq<char>, file_arg: Seq<char>, config: Option<HusakoConfig>) -> bool {
    let head = "'"@ + file_arg + "' is not a file or entry alias"@;
    match config {
        Some(cfg) if cfg.entries@.len() > 0 => exists|p: Seq<int>|
            #![trigger is_name_order(names_of(cfg.entries@), p)]
            is_name_order(names_of(cfg.entries@), p) && m == head + "\n\navailable entry aliases:"@
                + alias_lines(cfg.entries@, p),
        _ => m == head,
    }
}

/// Looks a file argument up among the entry aliases of `config`.
pub fn resolve_entry_alias(project_root: &String, file_arg: &String, config: Option<&HusakoConfig>) -> (r: EntryAlias)
    ensures
        match config {
            Some(cfg) => match lookup(keyed(cfg.entries@), file_arg@) {
                Some(mapped) => r matches EntryAlias::Alias { mapped: m, resolved } && m@ == mapped@
                    && resolved@ == path_join(project_root@, mapped@),
                None => r matches EntryAlias::NotFound(msg) && is_not_found_message(msg@, file_arg@, Some(*cfg)),
            },
            None => r matches EntryAlias::NotFound(msg) && is_not_found_message(msg@, file_arg@, None),
        },
{
    let mut out: Vec<char> = Vec::new();
    push_str(&mut out, "'");
    push_str(&mut out, file_arg.as_str());
    push_str(&mut out, "' is not a file or entry alias");
    let cfg = match config {
        None => {
            return EntryAlias::NotFound(string_from(&out));
        },
        Some(c) => c,
    };
    let i = find_key(&cfg.entries, file_arg);
    proof {
        lemma_key_pos(keyed(cfg.entries@), file_arg@);
    }
    if i < cfg.entries.len() {
        assert(keyed(cfg.entries@)[i as int].1 == cfg.entries@[i as int].1);
        let mapped = cfg.entries[i].1.clone();
        let rel = chars_of(mapped.as_str());
        let resolved = join_path(project_root, &rel);
        return EntryAlias::Alias { mapped, resolved };
    }
    if cfg.entries.len() == 0 {
        return EntryAlias::NotFound(string_from(&out));
    }
    let ghost head = out@;
    push_str(&mut out, "\n\navailable entry aliases:");
    let ghost head2 = out@;
    let p = name_order(&cfg.entries);
    let ghost pv = p@.map_values(|x: usize| x as int);
    assert(names_of(cfg.entries@) == keyed(cfg.entries@).map_values(|e: (Seq<char>, String)| e.0));
    let mut k: usize = 0;
    while k < p.len()
        invariant
            k <= p.len(),
            pv == p@.map_values(|x: usize| x as int),
            is_name_order(names_of(cfg.entries@), pv),
            out@ == head2 + alias_lines(cfg.entries@, pv.take(k as int)),
        decreases p.len() - k,
    {
        assert(pv[k as int] == p@[k as int] as int);
        assert(0 <= pv[k as int] < cfg.entries@.len());
        let j = p[k];
        push_str(&mut out, "\n  ");
        push_str(&mut out, cfg.entries[j].0.as_str());
        push_str(&mut out, " = \"");
        push_str(&mut out, cfg.entries[j].1.as_str());
        push_str(&mut out, "\"");
        assert(pv.take(k + 1).drop_last() =~= pv.take(k as int));
        assert(pv.take(k + 1).last() == j as int);
        assert(out@ =~= head2 + alias_lines(cfg.entries@, pv.take(k + 1)));
        k += 1;
    }
    assert(pv.take(p.len() as int) =~= pv);
    EntryAlias::NotFound(string_from(&out))
}

/// The message for an alias whose file is missing; `resolved` is where it
/// was looked for.
pub fn alias_missing_message(file_arg: &String, mapped: &String, resolved: &String) -> (r: String)
    ensures
        r@ == "entry alias '"@ + file_arg@ + "' maps to '"@ + mapped@ + "', but file not found at "@
            + resolved@,
{
    let mut out: Vec<char> = Vec::new();
    push_str(&mut out, "entry alias '");
    push_str(&mut out, file_arg.as_str());
    push_str(&mut out, "' maps to '");
    push_str(&mut out, mapped.as_str());
    push_str(&mut out, "', but file not found at ");
    push_str(&mut out, resolved.as_str());
    string_from(&out)
}

} // verus!
