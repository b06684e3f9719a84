//! What happens to the output of an entry file once it has run: the
//! documents are counted and validated, a failed validation becomes one
//! message, and the YAML of the documents is joined into one stream. Also
//! the errors of compiling TypeScript and of writing YAML.
use vstd::prelude::*;

use crate::text::{chars_of, join, join_with, push_str, string_from};
use crate::validate::{
    error_text, output_errors, store_opt, validate, ErrView, JsonValue, SchemaStore,
    ValidationError,
};

verus! {

/// How an entry file is rendered.
#[derive(Debug)]
pub struct RenderOptions {
    pub project_root: String,
    pub allow_outside_root: bool,
    pub schema_store: Option<SchemaStore>,
    pub timeout_ms: Option<u64>,
    pub max_heap_mb: Option<usize>,
    pub verbose: bool,
}

/// The outcome of validating an entry file's output.
#[derive(Debug)]
pub struct ValidateResult {
    pub resource_count: usize,
    pub validation_errors: Vec<String>,
}

/// The number of documents an entry file produced: the items of an array,
/// else one.
pub open spec fn document_count(value: JsonValue) -> int {
    match value {
        JsonValue::Array(docs, _) => docs@.len() as int,
        _ => 1,
    }
}

/// The validation errors, one per line.
pub open spec fn errors_text(es: Seq<ErrView>) -> Seq<char> {
    join_with(es.map_values(|e: ErrView| error_text(e)), "\n"@)
}

/// Validates the output of an entry file against the schemas of `options`
/// (by the fallback rules when there are none). Without errors it reports
/// the number of documents and no errors; otherwise it fails with all
/// validation errors, one per line.
pub fn validate_output(value: &JsonValue, options: &RenderOptions) -> (r: Result<
    ValidateResult,
    String,
>)
    ensures
        output_errors(*value, options.schema_store).len() == 0 ==> (r matches Ok(v)
            && v.resource_count == document_count(*value) && v.validation_errors@.len() == 0),
        output_errors(*value, options.schema_store).len() > 0 ==> (r matches Err(e) && e@
            == errors_text(output_errors(*value, options.schema_store))),
{
    let count = match value {
        JsonValue::Array(docs, _) => docs.len(),
        _ => 1,
    };
    let store = options.schema_store.as_ref();
    assert(store_opt(store) == options.schema_store);
    match validate(value, store) {
        Ok(()) => Ok(ValidateResult { resource_count: count, validation_errors: Vec::new() }),
        Err(es) => Err(messages_text(&es)),
    }
}

/// The messages of validation errors, one per line.
pub fn messages_text(es: &Vec<ValidationError>) -> (r: String)
    ensures
        r@ == errors_text(es@.map_values(|e: ValidationError| e@)),
{
    let ghost ev = es@.map_values(|e: ValidationError| e@);
    let mut parts: Vec<Vec<char>> = Vec::new();
    let mut i: usize = 0;
    while i < es.len()
        invariant
            i <= es@.len(),
            ev == es@.map_values(|e: ValidationError| e@),
            parts@.len() == i,
            parts.deep_view() == ev.take(i as int).map_values(|e: ErrView| error_text(e)),
        decreases es@.len() - i,
    {
        let m = es[i].message();
        let cs = chars_of(m.as_str());
        let ghost before = parts.deep_view();
        parts.push(cs);
        proof {
            assert(parts.deep_view()[i as int] =~= cs@);
            assert(parts.deep_view() =~= before.push(error_text(ev[i as int])));
            assert(ev.take(i + 1) =~= ev.take(i as int).push(ev[i as int]));
        }
        assert(parts.deep_view() =~= ev.take(i + 1).map_values(|e: ErrView| error_text(e)));
        i += 1;
    }
    assert(ev.take(es@.len() as int) =~= ev);
    let sep = chars_of("\n");
    string_from(&join(&parts, &sep))
}

/// The YAML stream of several documents: each document's YAML, joined by
/// `---` lines.
pub fn join_documents(parts: &Vec<String>) -> (r: String)
    ensures
        r@ == join_with(parts@.map_values(|p: String| p@), "---\n"@),
{
    let ghost pv = parts@.map_values(|p: String| p@);
    let mut cs: Vec<Vec<char>> = Vec::new();
    let mut i: usize = 0;
    while i < parts.len()
        invariant
            i <= parts@.len(),
            pv == parts@.map_values(|p: String| p@),
            cs@.len() == i,
            cs.deep_view() == pv.take(i as int),
        decreases parts@.len() - i,
    {
        let c = chars_of(parts[i].as_str());
        let ghost before = cs.deep_view();
        cs.push(c);
        proof {
            assert(cs.deep_view()[i as int] =~= c@);
            assert(cs.deep_view() =~= before.push(pv[i as int]));
        }
        assert(cs.deep_view() =~= pv.take(i + 1));
        i += 1;
    }
    assert(pv.take(parts@.len() as int) =~= pv);
    let sep = chars_of("---\n");
    string_from(&join(&cs, &sep))
}

/// Why TypeScript could not be compiled.
#[derive(Debug)]
pub enum CompileError {
    Parse(String),
    Transform(String),
}

/// The message of a compile error.
pub open spec fn compile_error_text(e: CompileError) -> Seq<char> {
    match e {
        CompileError::Parse(m) => "parse error: "@ + m@,
        CompileError::Transform(m) => "transform error: "@ + m@,
    }
}

/// The compiler's diagnostics joined into one message.
pub open spec fn diagnostics_text(msgs: Seq<String>) -> Seq<char> {
    join_with(msgs.map_values(|m: String| m@), "; "@)
}

fn joined(msgs: &Vec<String>, sep: &str) -> (r: String)
    ensures
        r@ == join_with(msgs@.map_values(|m: String| m@), sep@),
{
    let ghost mv = msgs@.map_values(|m: String| m@);
    let mut cs: Vec<Vec<char>> = Vec::new();
    let mut i: usize = 0;
    while i < msgs.len()
        invariant
            i <= msgs@.len(),
            mv == msgs@.map_values(|m: String| m@),
            cs@.len() == i,
            cs.deep_view() == mv.take(i as int),
        decreases msgs@.len() - i,
    {
        let c = chars_of(msgs[i].as_str());
        let ghost before = cs.deep_view();
        cs.push(c);
        proof {
            assert(cs.deep_view()[i as int] =~= c@);
            assert(cs.deep_view() =~= before.push(mv[i as int]));
        }
        assert(cs.deep_view() =~= mv.take(i + 1));
        i += 1;
    }
    assert(mv.take(msgs@.len() as int) =~= mv);
    let sc = chars_of(sep);
    string_from(&join(&cs, &sc))
}

impl CompileError {
    /// A failure to parse, with the parser's diagnostics.
    pub fn parse_failure(msgs: &Vec<String>) -> (r: CompileError)
        ensures
            r matches CompileError::Parse(m) && m@ == diagnostics_text(msgs@),
    {
        CompileError::Parse(joined(msgs, "; "))
    }

    /// A failure to transform, with the transformer's diagnostics.
    pub fn transform_failure(msgs: &Vec<String>) -> (r: CompileError)
        ensures
            r matches CompileError::Transform(m) && m@ == diagnostics_text(msgs@),
    {
        CompileError::Transform(joined(msgs, "; "))
    }

    /// The error's message.
    pub fn message(&self) -> (r: String)
        ensures
            r@ == compile_error_text(*self),
    {
        let mut v: Vec<char> = Vec::new();
        match self {
            CompileError::Parse(m) => {
                push_str(&mut v, "parse error: ");
                push_str(&mut v, m.as_str());
            },
            CompileError::Transform(m) => {
                push_str(&mut v, "transform error: ");
                push_str(&mut v, m.as_str());
            },
        }
        string_from(&v)
    }
}

/// Why YAML could not be written.
#[derive(Debug)]
pub enum EmitError {
    Serialize(String),
}

impl EmitError {
    /// The error's message.
    pub fn message(&self) -> (r: String)
        ensures
            match self {
                EmitError::Serialize(m) => r@ == "YAML serialization failed: "@ + m@,
            },
    {
        let mut v: Vec<char> = Vec::new();
        match self {
            EmitError::Serialize(m) => {
                push_str(&mut v, "YAML serialization failed: ");
                push_str(&mut v, m.as_str());
            },
        }
        string_from(&v)
    }
}

} // verus!
