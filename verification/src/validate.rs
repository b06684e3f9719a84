//! Validating rendered Kubernetes documents: against their OpenAPI schemas
//! where a schema store knows their kind, and otherwise by checking the
//! resource quantities they hold.
use vstd::prelude::*;

use crate::bench::{decimal, decimal_of};
use crate::quantity::{
    is_valid_quantity, search_findings, spec_valid_quantity, validate_doc_fallback, Finding,
    QuantityError,
};
use crate::table::{find_key, keyed, lemma_key_pos, lookup};
use crate::text::{chars_of, eq_str, join, join_with, push_all, push_str, string_from};

verus! {

/// Schemas are followed this many levels deep at most (a `$ref` may lead
/// back to a schema already visited).
pub const MAX_DEPTH: usize = 64;

// ---------------------------------------------------------------------------
// JSON values
// ---------------------------------------------------------------------------

/// A JSON number, held by what validation reads of it.
#[derive(Debug)]
pub struct JsonNumber {
    /// The value, when the number is an integer (not written with a
    /// fraction or an exponent).
    pub integer: Option<i128>,
    /// A key whose order is the order of the numbers' values: of two
    /// numbers, the smaller has the smaller key.
    pub order: i64,
    /// The value as it is shown in messages.
    pub text: String,
}

/// A JSON value.
#[derive(Debug)]
pub enum JsonValue {
    Null,
    Bool(bool),
    Number(JsonNumber),
    Str(String),
    /// The items, and the whole value written as compact JSON.
    Array(Vec<JsonValue>, String),
    /// The members in order, and the whole value written as compact JSON.
    Object(Vec<(String, JsonValue)>, String),
}

/// The member `key` of an object (the first, should the key repeat).
pub open spec fn member(v: JsonValue, key: Seq<char>) -> Option<JsonValue> {
    match v {
        JsonValue::Object(m, _) => lookup(keyed(m@), key),
        _ => None,
    }
}

pub open spec fn as_str(v: Option<JsonValue>) -> Option<Seq<char>> {
    match v {
        Some(JsonValue::Str(s)) => Some(s@),
        _ => None,
    }
}

pub open spec fn as_bool(v: Option<JsonValue>) -> Option<bool> {
    match v {
        Some(JsonValue::Bool(b)) => Some(b),
        _ => None,
    }
}

pub open spec fn as_array(v: Option<JsonValue>) -> Option<Seq<JsonValue>> {
    match v {
        Some(JsonValue::Array(a, _)) => Some(a@),
        _ => None,
    }
}

pub open spec fn as_object(v: Option<JsonValue>) -> Option<Seq<(String, JsonValue)>> {
    match v {
        Some(JsonValue::Object(m, _)) => Some(m@),
        _ => None,
    }
}

/// The name of a value's JSON type, as messages give it.
pub open spec fn json_type_name(v: JsonValue) -> Seq<char> {
    match v {
        JsonValue::Null => "null"@,
        JsonValue::Bool(_) => "boolean"@,
        JsonValue::Number(_) => "number"@,
        JsonValue::Str(_) => "string"@,
        JsonValue::Array(..) => "array"@,
        JsonValue::Object(..) => "object"@,
    }
}

/// The value has the schema type `t`; a type not known passes.
pub open spec fn has_type(v: JsonValue, t: Seq<char>) -> bool {
    if t == "string"@ {
        v is Str
    } else if t == "integer"@ {
        v matches JsonValue::Number(n) && n.integer is Some
    } else if t == "number"@ {
        v is Number
    } else if t == "boolean"@ {
        v is Bool
    } else if t == "array"@ {
        v is Array
    } else if t == "object"@ {
        v is Object
    } else {
        true
    }
}

/// How messages name the schema type `t`.
pub open spec fn type_label(t: Seq<char>) -> Seq<char> {
    if t == "string"@ || t == "integer"@ || t == "number"@ || t == "boolean"@ || t == "array"@
        || t == "object"@ {
        t
    } else {
        "unknown"@
    }
}

/// The value written as JSON, where messages show a value that is not a
/// quantity.
pub open spec fn json_text(v: JsonValue) -> Seq<char> {
    match v {
        JsonValue::Null => "null"@,
        JsonValue::Bool(b) => if b {
            "true"@
        } else {
            "false"@
        },
        JsonValue::Number(n) => n.text@,
        JsonValue::Str(s) => s@,
        JsonValue::Array(_, t) => t@,
        JsonValue::Object(_, t) => t@,
    }
}

// ---------------------------------------------------------------------------
// Pattern matching (regex-lite)
// ---------------------------------------------------------------------------

/// regex-lite compiles `pattern`.
pub uninterp spec fn regex_compiles(pattern: Seq<char>) -> bool;

/// The regex compiled from `pattern` matches somewhere in `text`.
pub uninterp spec fn regex_finds(pattern: Seq<char>, text: Seq<char>) -> bool;

/// Compiles `pattern` with `regex_lite::Regex::new` and tests `text` with
/// `Regex::is_match`: `None` when the pattern does not compile, else whether
/// it matches. Which patterns compile and what they match is left to
/// regex-lite; both are functions of the arguments alone.
#[verifier::external_body]
fn regex_match(pattern: &str, text: &str) -> (r: Option<bool>)
    ensures
        r is Some == regex_compiles(pattern@),
        r matches Some(b) ==> b == regex_finds(pattern@, text@),
{
    match regex_lite::Regex::new(pattern) {
        Ok(re) => Some(re.is_match(text)),
        Err(_) => None,
    }
}

// ---------------------------------------------------------------------------
// Errors
// ---------------------------------------------------------------------------

/// What is wrong with a value.
#[derive(Debug)]
pub enum ValidationErrorKind {
    TypeMismatch { expected: &'static str, got: String },
    MissingRequired { field: String },
    InvalidEnum { value: String, allowed: Vec<String> },
    InvalidQuantity { value: String },
    PatternMismatch { value: String, pattern: String },
    /// The number and the bound, as messages show them.
    BelowMinimum { value: String, minimum: String },
    AboveMaximum { value: String, maximum: String },
}

/// A value of a document that breaks its schema.
#[derive(Debug)]
pub struct ValidationError {
    pub doc_index: usize,
    /// Where the value is: `$`, then `.member` and `[index]` steps.
    pub path: String,
    pub kind: ValidationErrorKind,
}

/// What an error says, as character sequences.
pub enum KindView {
    TypeMismatch(Seq<char>, Seq<char>),
    MissingRequired(Seq<char>),
    InvalidEnum(Seq<char>, Seq<Seq<char>>),
    InvalidQuantity(Seq<char>),
    PatternMismatch(Seq<char>, Seq<char>),
    BelowMinimum(Seq<char>, Seq<char>),
    AboveMaximum(Seq<char>, Seq<char>),
}

pub struct ErrView {
    pub doc_index: int,
    pub path: Seq<char>,
    pub kind: KindView,
}

pub open spec fn texts(v: Seq<String>) -> Seq<Seq<char>> {
    v.map_values(|s: String| s@)
}

pub open spec fn kind_view(k: ValidationErrorKind) -> KindView {
    match k {
        ValidationErrorKind::TypeMismatch { expected, got } => KindView::TypeMismatch(expected@, got@),
        ValidationErrorKind::MissingRequired { field } => KindView::MissingRequired(field@),
        ValidationErrorKind::InvalidEnum { value, allowed } => KindView::InvalidEnum(
            value@,
            texts(allowed@),
        ),
        ValidationErrorKind::InvalidQuantity { value } => KindView::InvalidQuantity(value@),
        ValidationErrorKind::PatternMismatch { value, pattern } => KindView::PatternMismatch(
            value@,
            pattern@,
        ),
        ValidationErrorKind::BelowMinimum { value, minimum } => KindView::BelowMinimum(
            value@,
            minimum@,
        ),
        ValidationErrorKind::AboveMaximum { value, maximum } => KindView::AboveMaximum(
            value@,
            maximum@,
        ),
    }
}

impl View for ValidationError {
    type V = ErrView;

    open spec fn view(&self) -> ErrView {
        ErrView { doc_index: self.doc_index as int, path: self.path@, kind: kind_view(self.kind) }
    }
}

pub open spec fn errs(v: Seq<ValidationError>) -> Seq<ErrView> {
    v.map_values(|e: ValidationError| e@)
}

pub open spec fn err(doc: int, path: Seq<char>, kind: KindView) -> Seq<ErrView> {
    seq![ErrView { doc_index: doc, path, kind }]
}

// ---------------------------------------------------------------------------
// Schema store
// ---------------------------------------------------------------------------

/// The schemas of `_schema.json`, with the index from `apiVersion:kind`
/// to schema name.
#[derive(Debug)]
pub struct SchemaStore {
    pub gvk_index: Vec<(String, String)>,
    pub schemas: Vec<(String, JsonValue)>,
}

/// The schema named `name`.
pub open spec fn store_schema(store: SchemaStore, name: Seq<char>) -> Option<JsonValue> {
    lookup(keyed(store.schemas@), name)
}

/// The schema of documents of `api_version` and `kind`.
pub open spec fn schema_for_gvk(store: SchemaStore, api_version: Seq<char>, kind: Seq<char>) -> Option<JsonValue> {
    match lookup(keyed(store.gvk_index@), api_version + seq![':'] + kind) {
        Some(name) => store_schema(store, name@),
        None => None,
    }
}

// ---------------------------------------------------------------------------
// The schema walk
// ---------------------------------------------------------------------------

pub open spec fn depth_measure(depth: nat) -> nat {
    if depth <= 65 {
        (65 - depth) as nat
    } else {
        0
    }
}

/// `path.name`
pub open spec fn member_path(path: Seq<char>, name: Seq<char>) -> Seq<char> {
    path + seq!['.'] + name
}

/// `path[i]`
pub open spec fn item_path(path: Seq<char>, i: nat) -> Seq<char> {
    path + seq!['['] + decimal(i) + seq![']']
}

/// The check of a value whose schema says it is a quantity.
pub open spec fn quantity_errors(v: JsonValue, path: Seq<char>, doc: int) -> Seq<ErrView> {
    match v {
        JsonValue::Str(s) => if spec_valid_quantity(s@) {
            Seq::empty()
        } else {
            err(doc, path, KindView::InvalidQuantity(s@))
        },
        JsonValue::Number(_) => Seq::empty(),
        JsonValue::Null => Seq::empty(),
        _ => err(doc, path, KindView::TypeMismatch("string or number (quantity)"@, json_type_name(v))),
    }
}

/// The strings among the allowed values of an enum.
pub open spec fn enum_strings(vals: Seq<JsonValue>) -> Seq<Seq<char>>
    decreases vals.len(),
{
    if vals.len() == 0 {
        Seq::empty()
    } else {
        let prev = enum_strings(vals.drop_last());
        match vals.last() {
            JsonValue::Str(s) => prev.push(s@),
            _ => prev,
        }
    }
}

/// The value is a string that the schema's `enum` does not allow.
pub open spec fn enum_violation(v: JsonValue, schema: JsonValue) -> bool {
    &&& as_array(member(schema, "enum"@)) is Some
    &&& v matches JsonValue::Str(s) && !enum_strings(as_array(member(schema, "enum"@))->0).contains(s@)
}

/// The checks of a number against the schema's `minimum` and `maximum`.
pub open spec fn bounds_errors(v: JsonValue, schema: JsonValue, path: Seq<char>, doc: int) -> Seq<ErrView> {
    match v {
        JsonValue::Number(n) => (match member(schema, "minimum"@) {
            Some(JsonValue::Number(m)) => if n.order < m.order {
                err(doc, path, KindView::BelowMinimum(n.text@, m.text@))
            } else {
                Seq::empty()
            },
            _ => Seq::empty(),
        }) + (match member(schema, "maximum"@) {
            Some(JsonValue::Number(m)) => if n.order > m.order {
                err(doc, path, KindView::AboveMaximum(n.text@, m.text@))
            } else {
                Seq::empty()
            },
            _ => Seq::empty(),
        }),
        _ => Seq::empty(),
    }
}

/// The check of a string against the schema's `pattern` (a pattern that
/// does not compile is not checked).
pub open spec fn pattern_errors(v: JsonValue, schema: JsonValue, path: Seq<char>, doc: int) -> Seq<ErrView> {
    match (as_str(member(schema, "pattern"@)), v) {
        (Some(p), JsonValue::Str(s)) => if regex_compiles(p) && !regex_finds(p, s@) {
            err(doc, path, KindView::PatternMismatch(s@, p))
        } else {
            Seq::empty()
        },
        _ => Seq::empty(),
    }
}

/// The required fields, among `reqs[0..k]`, that the object lacks.
pub open spec fn required_errors(obj: Seq<(String, JsonValue)>, reqs: Seq<JsonValue>, path: Seq<char>, doc: int, k: nat) -> Seq<ErrView>
    decreases k,
{
    if k == 0 || k > reqs.len() {
        Seq::empty()
    } else {
        required_errors(obj, reqs, path, doc, (k - 1) as nat) + match reqs[k - 1] {
            JsonValue::Str(f) => if lookup(keyed(obj), f@) is None {
                err(doc, path, KindView::MissingRequired(f@))
            } else {
                Seq::empty()
            },
            _ => Seq::empty(),
        }
    }
}

/// The names of a schema's `properties`.
pub open spec fn property_names(schema: JsonValue) -> Seq<Seq<char>> {
    match as_object(member(schema, "properties"@)) {
        Some(props) => keyed(props).map_values(|e: (Seq<char>, JsonValue)| e.0),
        None => Seq::empty(),
    }
}

/// The errors of a value against a schema, `depth` levels down.
pub open spec fn spec_validate(v: JsonValue, schema: JsonValue, store: SchemaStore, path: Seq<char>, doc: int, depth: nat) -> Seq<ErrView>
    decreases depth_measure(depth), 2nat, 0nat,
{
    if depth > 64 || v is Null {
        Seq::empty()
    } else if as_str(member(schema, "$ref"@)) is Some {
        match store_schema(store, as_str(member(schema, "$ref"@))->0) {
            Some(s) => spec_validate(v, s, store, path, doc, depth + 1),
            None => Seq::empty(),
        }
    } else if as_array(member(schema, "allOf"@)) is Some {
        let subs = as_array(member(schema, "allOf"@))->0;
        all_of_errors(v, subs, store, path, doc, depth, subs.len())
    } else if as_bool(member(schema, "x-kubernetes-int-or-string"@)) == Some(true) {
        if v is Number || v is Str {
            Seq::empty()
        } else {
            err(doc, path, KindView::TypeMismatch("integer or string"@, json_type_name(v)))
        }
    } else if as_str(member(schema, "format"@)) == Some("quantity"@) {
        quantity_errors(v, path, doc)
    } else if as_str(member(schema, "type"@)) is Some && !has_type(
        v,
        as_str(member(schema, "type"@))->0,
    ) {
        err(
            doc,
            path,
            KindView::TypeMismatch(type_label(as_str(member(schema, "type"@))->0), json_type_name(v)),
        )
    } else if enum_violation(v, schema) {
        err(
            doc,
            path,
            KindView::InvalidEnum(
                v->Str_0@,
                enum_strings(as_array(member(schema, "enum"@))->0),
            ),
        )
    } else {
        bounds_errors(v, schema, path, doc) + pattern_errors(v, schema, path, doc) + object_errors(
            v,
            schema,
            store,
            path,
            doc,
            depth,
        ) + items_errors(v, schema, store, path, doc, depth)
    }
}

/// Against a schema of type `"integer"` (with no `$ref`, `allOf`,
/// int-or-string or quantity format in the way), a number that is not an
/// integer gives exactly one error, a type mismatch at its path: expected
/// `integer`, got `number`; an integer gets no type mismatch.
pub proof fn lemma_integer_type_rejects_fractions(
    n: JsonNumber,
    schema: JsonValue,
    store: SchemaStore,
    path: Seq<char>,
    doc: int,
    depth: nat,
)
    requires
        depth <= 64,
        as_str(member(schema, "$ref"@)) is None,
        as_array(member(schema, "allOf"@)) is None,
        as_bool(member(schema, "x-kubernetes-int-or-string"@)) != Some(true),
        as_str(member(schema, "format"@)) != Some("quantity"@),
        as_str(member(schema, "type"@)) == Some("integer"@),
    ensures
        n.integer is None ==> spec_validate(JsonValue::Number(n), schema, store, path, doc, depth)
            == err(doc, path, KindView::TypeMismatch("integer"@, "number"@)),
        n.integer is Some ==> forall|i: int|
            0 <= i < spec_validate(JsonValue::Number(n), schema, store, path, doc, depth).len()
                ==> !(#[trigger] spec_validate(JsonValue::Number(n), schema, store, path, doc, depth)[i].kind is TypeMismatch),
{
    reveal_strlit("integer");
    reveal_strlit("string");
    assert("integer"@ != "string"@) by {
        assert("integer"@.len() != "string"@.len());
    }
    let v = JsonValue::Number(n);
    assert(json_type_name(v) == "number"@);
    assert(type_label("integer"@) == "integer"@);
    assert(n.integer is Some ==> has_type(v, "integer"@));
    assert(!enum_violation(v, schema));
    if n.integer is Some {
        let r = spec_validate(v, schema, store, path, doc, depth);
        let b = bounds_errors(v, schema, path, doc);
        assert(pattern_errors(v, schema, path, doc) =~= Seq::<ErrView>::empty());
        assert(object_errors(v, schema, store, path, doc, depth) =~= Seq::<ErrView>::empty());
        assert(items_errors(v, schema, store, path, doc, depth) =~= Seq::<ErrView>::empty());
        assert(r =~= b);
        assert forall|i: int| 0 <= i < b.len() implies !(#[trigger] b[i].kind is TypeMismatch) by {}
    }
}

/// The errors against each schema of `allOf`, among `subs[0..k]`.
pub open spec fn all_of_errors(v: JsonValue, subs: Seq<JsonValue>, store: SchemaStore, path: Seq<char>, doc: int, depth: nat, k: nat) -> Seq<ErrView>
    decreases depth_measure(depth), 0nat, k,
{
    if depth > 64 || k == 0 || k > subs.len() {
        Seq::empty()
    } else {
        all_of_errors(v, subs, store, path, doc, depth, (k - 1) as nat) + spec_validate(
            v,
            subs[k - 1],
            store,
            path,
            doc,
            depth + 1,
        )
    }
}

/// The errors of an object: missing required fields, then its members
/// against their property schemas, then the other members against
/// `additionalProperties`.
pub open spec fn object_errors(v: JsonValue, schema: JsonValue, store: SchemaStore, path: Seq<char>, doc: int, depth: nat) -> Seq<ErrView>
    decreases depth_measure(depth), 1nat, 1nat,
{
    match v {
        JsonValue::Object(obj, _) => members_errors(obj@, schema, store, path, doc, depth),
        _ => Seq::empty(),
    }
}

/// The errors of the members `obj` of an object.
pub open spec fn members_errors(obj: Seq<(String, JsonValue)>, schema: JsonValue, store: SchemaStore, path: Seq<char>, doc: int, depth: nat) -> Seq<ErrView>
    decreases depth_measure(depth), 1nat, 0nat,
{
    let reqs = match as_array(member(schema, "required"@)) {
        Some(r) => r,
        None => Seq::empty(),
    };
    let props = match as_object(member(schema, "properties"@)) {
        Some(p) => p,
        None => Seq::empty(),
    };
    required_errors(obj, reqs, path, doc, reqs.len()) + property_errors(
        obj,
        props,
        store,
        path,
        doc,
        depth,
        props.len(),
    ) + match member(schema, "additionalProperties"@) {
        Some(addl) => additional_errors(
            obj,
            addl,
            property_names(schema),
            store,
            path,
            doc,
            depth,
            obj.len(),
        ),
        None => Seq::empty(),
    }
}

/// The errors of the object's members named in `props[0..k]`.
pub open spec fn property_errors(obj: Seq<(String, JsonValue)>, props: Seq<(String, JsonValue)>, store: SchemaStore, path: Seq<char>, doc: int, depth: nat, k: nat) -> Seq<ErrView>
    decreases depth_measure(depth), 0nat, k,
{
    if depth > 64 || k == 0 || k > props.len() {
        Seq::empty()
    } else {
        property_errors(obj, props, store, path, doc, depth, (k - 1) as nat) + match lookup(
            keyed(obj),
            props[k - 1].0@,
        ) {
            Some(child) => spec_validate(
                child,
                props[k - 1].1,
                store,
                member_path(path, props[k - 1].0@),
                doc,
                depth + 1,
            ),
            None => Seq::empty(),
        }
    }
}

/// The errors of the members `obj[0..k]` that are not named properties,
/// against `addl`.
pub open spec fn additional_errors(obj: Seq<(String, JsonValue)>, addl: JsonValue, known: Seq<Seq<char>>, store: SchemaStore, path: Seq<char>, doc: int, depth: nat, k: nat) -> Seq<ErrView>
    decreases depth_measure(depth), 0nat, k,
{
    if depth > 64 || k == 0 || k > obj.len() {
        Seq::empty()
    } else {
        additional_errors(obj, addl, known, store, path, doc, depth, (k - 1) as nat) + if known.contains(
            obj[k - 1].0@,
        ) {
            Seq::empty()
        } else {
            spec_validate(obj[k - 1].1, addl, store, member_path(path, obj[k - 1].0@), doc, depth + 1)
        }
    }
}

/// The errors of an array's items against the schema's `items`.
pub open spec fn items_errors(v: JsonValue, schema: JsonValue, store: SchemaStore, path: Seq<char>, doc: int, depth: nat) -> Seq<ErrView>
    decreases depth_measure(depth), 1nat, 0nat,
{
    match (v, member(schema, "items"@)) {
        (JsonValue::Array(arr, _), Some(items)) => item_errors(
            arr@,
            items,
            store,
            path,
            doc,
            depth,
            arr@.len(),
        ),
        _ => Seq::empty(),
    }
}

/// The errors of `arr[0..k]` against `items`.
pub open spec fn item_errors(arr: Seq<JsonValue>, items: JsonValue, store: SchemaStore, path: Seq<char>, doc: int, depth: nat, k: nat) -> Seq<ErrView>
    decreases depth_measure(depth), 0nat, k,
{
    if depth > 64 || k == 0 || k > arr.len() {
        Seq::empty()
    } else {
        item_errors(arr, items, store, path, doc, depth, (k - 1) as nat) + spec_validate(
            arr[k - 1],
            items,
            store,
            item_path(path, (k - 1) as nat),
            doc,
            depth + 1,
        )
    }
}

// ---------------------------------------------------------------------------
// Reading JSON values
// ---------------------------------------------------------------------------

/// The member `key` of an object.
pub fn get<'a>(v: &'a JsonValue, key: &str) -> (r: Option<&'a JsonValue>)
    ensures
        match member(*v, key@) {
            Some(x) => r matches Some(y) && *y == x,
            None => r is None,
        },
{
    match v {
        JsonValue::Object(m, _) => {
            let k = String::from_str(key);
            let i = find_key(m, &k);
            proof {
                lemma_key_pos(keyed(m@), key@);
            }
            if i < m.len() {
                assert(keyed(m@)[i as int].1 == m@[i as int].1);
                Some(&m[i].1)
            } else {
                None
            }
        },
        _ => None,
    }
}

/// The name of a value's JSON type.
fn type_name_of(v: &JsonValue) -> (r: &'static str)
    ensures
        r@ == json_type_name(*v),
{
    match v {
        JsonValue::Null => "null",
        JsonValue::Bool(_) => "boolean",
        JsonValue::Number(_) => "number",
        JsonValue::Str(_) => "string",
        JsonValue::Array(..) => "array",
        JsonValue::Object(..) => "object",
    }
}

fn str_is(s: &String, lit: &str) -> (r: bool)
    ensures
        r == (s@ == lit@),
{
    let v = chars_of(s.as_str());
    eq_str(&v, lit)
}

/// Whether the value has schema type `t`.
fn check_type(v: &JsonValue, t: &String) -> (r: bool)
    ensures
        r == has_type(*v, t@),
{
    if str_is(t, "string") {
        v.is_str()
    } else if str_is(t, "integer") {
        match v {
            JsonValue::Number(n) => n.integer.is_some(),
            _ => false,
        }
    } else if str_is(t, "number") {
        match v {
            JsonValue::Number(_) => true,
            _ => false,
        }
    } else if str_is(t, "boolean") {
        match v {
            JsonValue::Bool(_) => true,
            _ => false,
        }
    } else if str_is(t, "array") {
        match v {
            JsonValue::Array(..) => true,
            _ => false,
        }
    } else if str_is(t, "object") {
        match v {
            JsonValue::Object(..) => true,
            _ => false,
        }
    } else {
        true
    }
}

/// How messages name the schema type `t`.
fn type_str_to_label(t: &String) -> (r: &'static str)
    ensures
        r@ == type_label(t@),
{
    if str_is(t, "string") {
        "string"
    } else if str_is(t, "integer") {
        "integer"
    } else if str_is(t, "number") {
        "number"
    } else if str_is(t, "boolean") {
        "boolean"
    } else if str_is(t, "array") {
        "array"
    } else if str_is(t, "object") {
        "object"
    } else {
        "unknown"
    }
}

impl JsonValue {
    pub fn is_str(&self) -> (r: bool)
        ensures
            r == self is Str,
    {
        match self {
            JsonValue::Str(_) => true,
            _ => false,
        }
    }
}

/// The value written as JSON.
pub fn json_text_of(v: &JsonValue) -> (r: String)
    ensures
        r@ == json_text(*v),
{
    match v {
        JsonValue::Null => String::from_str("null"),
        JsonValue::Bool(b) => if *b {
            String::from_str("true")
        } else {
            String::from_str("false")
        },
        JsonValue::Number(n) => n.text.clone(),
        JsonValue::Str(s) => s.clone(),
        JsonValue::Array(_, t) => t.clone(),
        JsonValue::Object(_, t) => t.clone(),
    }
}

fn push_err(errors: &mut Vec<ValidationError>, e: ValidationError)
    ensures
        errs(final(errors)@) == errs(old(errors)@) + seq![e@],
{
    errors.push(e);
    assert(errs(errors@) =~= errs(old(errors)@) + seq![e@]);
}

fn copy_chars(v: &Vec<char>) -> (r: Vec<char>)
    ensures
        r@ == v@,
{
    let mut r: Vec<char> = Vec::new();
    push_all(&mut r, v);
    r
}

fn child_path(path: &Vec<char>, name: &String) -> (r: Vec<char>)
    ensures
        r@ == member_path(path@, name@),
{
    let mut r = copy_chars(path);
    r.push('.');
    push_str(&mut r, name.as_str());
    r
}

fn index_path(path: &Vec<char>, i: usize) -> (r: Vec<char>)
    ensures
        r@ == item_path(path@, i as nat),
{
    let mut r = copy_chars(path);
    r.push('[');
    let d = decimal_of(i as u64);
    push_all(&mut r, &d);
    r.push(']');
    r
}

// ---------------------------------------------------------------------------
// The checks of one value
// ---------------------------------------------------------------------------

fn check_quantity(v: &JsonValue, path: &Vec<char>, doc_index: usize, errors: &mut Vec<ValidationError>)
    ensures
        errs(final(errors)@) == errs(old(errors)@) + quantity_errors(*v, path@, doc_index as int),
{
    match v {
        JsonValue::Str(s) => {
            if !is_valid_quantity(s.as_str()) {
                let e = ValidationError {
                    doc_index,
                    path: string_from(path),
                    kind: ValidationErrorKind::InvalidQuantity { value: s.clone() },
                };
                push_err(errors, e);
            } else {
                assert(errs(errors@) =~= errs(old(errors)@) + Seq::<ErrView>::empty());
            }
        },
        JsonValue::Number(_) | JsonValue::Null => {
            assert(errs(errors@) =~= errs(old(errors)@) + Seq::<ErrView>::empty());
        },
        _ => {
            let e = ValidationError {
                doc_index,
                path: string_from(path),
                kind: ValidationErrorKind::TypeMismatch {
                    expected: "string or number (quantity)",
                    got: String::from_str(type_name_of(v)),
                },
            };
            push_err(errors, e);
        },
    }
}

fn check_bounds(v: &JsonValue, schema: &JsonValue, path: &Vec<char>, doc_index: usize, errors: &mut Vec<ValidationError>)
    ensures
        errs(final(errors)@) == errs(old(errors)@) + bounds_errors(*v, *schema, path@, doc_index as int),
{
    let n = match v {
        JsonValue::Number(n) => n,
        _ => {
            assert(errs(errors@) =~= errs(old(errors)@) + Seq::<ErrView>::empty());
            return;
        },
    };
    let ghost e0 = errs(errors@);
    match get(schema, "minimum") {
        Some(JsonValue::Number(m)) => {
            if n.order < m.order {
                let e = ValidationError {
                    doc_index,
                    path: string_from(path),
                    kind: ValidationErrorKind::BelowMinimum { value: n.text.clone(), minimum: m.text.clone() },
                };
                push_err(errors, e);
            }
        },
        _ => {},
    }
    let ghost e1 = errs(errors@);
    match get(schema, "maximum") {
        Some(JsonValue::Number(m)) => {
            if n.order > m.order {
                let e = ValidationError {
                    doc_index,
                    path: string_from(path),
                    kind: ValidationErrorKind::AboveMaximum { value: n.text.clone(), maximum: m.text.clone() },
                };
                push_err(errors, e);
            }
        },
        _ => {},
    }
    assert(errs(errors@) =~= errs(old(errors)@) + bounds_errors(*v, *schema, path@, doc_index as int));
}

fn check_pattern(v: &JsonValue, schema: &JsonValue, path: &Vec<char>, doc_index: usize, errors: &mut Vec<ValidationError>)
    ensures
        errs(final(errors)@) == errs(old(errors)@) + pattern_errors(*v, *schema, path@, doc_index as int),
{
    match (get(schema, "pattern"), v) {
        (Some(JsonValue::Str(p)), JsonValue::Str(s)) => {
            match regex_match(p.as_str(), s.as_str()) {
                Some(false) => {
                    let e = ValidationError {
                        doc_index,
                        path: string_from(path),
                        kind: ValidationErrorKind::PatternMismatch { value: s.clone(), pattern: p.clone() },
                    };
                    push_err(errors, e);
                },
                _ => {
                    assert(errs(errors@) =~= errs(old(errors)@) + Seq::<ErrView>::empty());
                },
            }
        },
        _ => {
            assert(errs(errors@) =~= errs(old(errors)@) + Seq::<ErrView>::empty());
        },
    }
}

fn check_required(obj: &Vec<(String, JsonValue)>, reqs: &Vec<JsonValue>, path: &Vec<char>, doc_index: usize, errors: &mut Vec<ValidationError>)
    ensures
        errs(final(errors)@) == errs(old(errors)@) + required_errors(obj@, reqs@, path@, doc_index as int, reqs@.len()),
{
    let mut i: usize = 0;
    assert(errs(errors@) =~= errs(old(errors)@) + required_errors(obj@, reqs@, path@, doc_index as int, 0));
    while i < reqs.len()
        invariant
            i <= reqs@.len(),
            errs(errors@) == errs(old(errors)@) + required_errors(obj@, reqs@, path@, doc_index as int, i as nat),
        decreases reqs@.len() - i,
    {
        let ghost before = errs(errors@);
        match &reqs[i] {
            JsonValue::Str(f) => {
                let k = find_key(obj, f);
                proof {
                    lemma_key_pos(keyed(obj@), f@);
                }
                if k >= obj.len() {
                    let e = ValidationError {
                        doc_index,
                        path: string_from(path),
                        kind: ValidationErrorKind::MissingRequired { field: f.clone() },
                    };
                    push_err(errors, e);
                }
            },
            _ => {},
        }
        assert(errs(errors@) =~= errs(old(errors)@) + required_errors(obj@, reqs@, path@, doc_index as int, (i + 1) as nat));
        i += 1;
    }
}

// ---------------------------------------------------------------------------
// The schema walk
// ---------------------------------------------------------------------------

fn validate_value(
    value: &JsonValue,
    schema: &JsonValue,
    store: &SchemaStore,
    path: &Vec<char>,
    doc_index: usize,
    depth: usize,
    errors: &mut Vec<ValidationError>,
)
    requires
        depth <= 65,
    ensures
        errs(final(errors)@) == errs(old(errors)@) + spec_validate(
            *value,
            *schema,
            *store,
            path@,
            doc_index as int,
            depth as nat,
        ),
    decreases depth_measure(depth as nat), 2nat, 0nat,
{
    let ghost target = spec_validate(*value, *schema, *store, path@, doc_index as int, depth as nat);
    if depth > MAX_DEPTH {
        assert(errs(errors@) =~= errs(old(errors)@) + target);
        return;
    }
    match value {
        JsonValue::Null => {
            assert(errs(errors@) =~= errs(old(errors)@) + target);
            return;
        },
        _ => {},
    }
    match get(schema, "$ref") {
        Some(JsonValue::Str(name)) => {
            let i = find_key(&store.schemas, name);
            proof {
                lemma_key_pos(keyed(store.schemas@), name@);
            }
            if i < store.schemas.len() {
                assert(keyed(store.schemas@)[i as int].1 == store.schemas@[i as int].1);
                validate_value(value, &store.schemas[i].1, store, path, doc_index, depth + 1, errors);
            } else {
                assert(errs(errors@) =~= errs(old(errors)@) + target);
            }
            return;
        },
        _ => {},
    }
    match get(schema, "allOf") {
        Some(JsonValue::Array(subs, _)) => {
            validate_all_of(value, subs, store, path, doc_index, depth, errors);
            return;
        },
        _ => {},
    }
    match get(schema, "x-kubernetes-int-or-string") {
        Some(JsonValue::Bool(true)) => {
            match value {
                JsonValue::Number(_) | JsonValue::Str(_) => {
                    assert(errs(errors@) =~= errs(old(errors)@) + target);
                },
                _ => {
                    let e = ValidationError {
                        doc_index,
                        path: string_from(path),
                        kind: ValidationErrorKind::TypeMismatch {
                            expected: "integer or string",
                            got: String::from_str(type_name_of(value)),
                        },
                    };
                    push_err(errors, e);
                },
            }
            return;
        },
        _ => {},
    }
    match get(schema, "format") {
        Some(JsonValue::Str(f)) => {
            if str_is(f, "quantity") {
                check_quantity(value, path, doc_index, errors);
                return;
            }
        },
        _ => {},
    }
    match get(schema, "type") {
        Some(JsonValue::Str(t)) => {
            if !check_type(value, t) {
                let e = ValidationError {
                    doc_index,
                    path: string_from(path),
                    kind: ValidationErrorKind::TypeMismatch {
                        expected: type_str_to_label(t),
                        got: String::from_str(type_name_of(value)),
                    },
                };
                push_err(errors, e);
                return;
            }
        },
        _ => {},
    }
    match (get(schema, "enum"), value) {
        (Some(JsonValue::Array(vals, _)), JsonValue::Str(s)) => {
            let allowed = enum_allowed(vals);
            if !contains_text(&allowed, s) {
                let e = ValidationError {
                    doc_index,
                    path: string_from(path),
                    kind: ValidationErrorKind::InvalidEnum { value: s.clone(), allowed },
                };
                push_err(errors, e);
                return;
            }
        },
        _ => {},
    }
    assert(!enum_violation(*value, *schema));
    let ghost pd = path@;
    let ghost di = doc_index as int;
    let ghost dd = depth as nat;
    let ghost b = bounds_errors(*value, *schema, pd, di);
    let ghost pt = pattern_errors(*value, *schema, pd, di);
    let ghost ob = object_errors(*value, *schema, *store, pd, di, dd);
    let ghost it = items_errors(*value, *schema, *store, pd, di, dd);
    assert(target == b + pt + ob + it);
    check_bounds(value, schema, path, doc_index, errors);
    let ghost e1 = errs(errors@);
    assert(e1 == errs(old(errors)@) + b);
    check_pattern(value, schema, path, doc_index, errors);
    let ghost e2 = errs(errors@);
    assert(e2 == e1 + pt);
    match value {
        JsonValue::Object(obj, _) => {
            validate_object(obj, schema, store, path, doc_index, depth, errors);
        },
        _ => {
            assert(errs(errors@) =~= e2 + ob);
        },
    }
    let ghost e3 = errs(errors@);
    assert(e3 == e2 + ob);
    match (value, get(schema, "items")) {
        (JsonValue::Array(arr, _), Some(items)) => {
            validate_items(arr, items, store, path, doc_index, depth, errors);
        },
        _ => {
            assert(errs(errors@) =~= e3 + it);
        },
    }
    assert(errs(errors@) == e3 + it);
    assert(errs(errors@) =~= errs(old(errors)@) + target);
}

/// The strings among an enum's allowed values.
fn enum_allowed(vals: &Vec<JsonValue>) -> (r: Vec<String>)
    ensures
        texts(r@) == enum_strings(vals@),
{
    let mut r: Vec<String> = Vec::new();
    let mut i: usize = 0;
    while i < vals.len()
        invariant
            i <= vals@.len(),
            texts(r@) == enum_strings(vals@.take(i as int)),
        decreases vals@.len() - i,
    {
        assert(vals@.take(i + 1).drop_last() =~= vals@.take(i as int));
        match &vals[i] {
            JsonValue::Str(s) => {
                r.push(s.clone());
                assert(texts(r@) =~= texts(r@.drop_last()).push(s@));
            },
            _ => {},
        }
        i += 1;
    }
    assert(vals@.take(vals@.len() as int) =~= vals@);
    r
}

fn contains_text(v: &Vec<String>, s: &String) -> (r: bool)
    ensures
        r == texts(v@).contains(s@),
{
    let mut i: usize = 0;
    while i < v.len()
        invariant
            i <= v@.len(),
            forall|k: int| 0 <= k < i ==> texts(v@)[k] != s@,
        decreases v@.len() - i,
    {
        let a = chars_of(v[i].as_str());
        let b = chars_of(s.as_str());
        if crate::text::seq_eq(&a, &b) {
            assert(texts(v@)[i as int] == s@);
            return true;
        }
        i += 1;
    }
    false
}

fn validate_all_of(
    value: &JsonValue,
    subs: &Vec<JsonValue>,
    store: &SchemaStore,
    path: &Vec<char>,
    doc_index: usize,
    depth: usize,
    errors: &mut Vec<ValidationError>,
)
    requires
        depth <= 64,
    ensures
        errs(final(errors)@) == errs(old(errors)@) + all_of_errors(
            *value,
            subs@,
            *store,
            path@,
            doc_index as int,
            depth as nat,
            subs@.len(),
        ),
    decreases depth_measure(depth as nat), 0nat, 0nat,
{
    let mut i: usize = 0;
    assert(errs(errors@) =~= errs(old(errors)@) + all_of_errors(*value, subs@, *store, path@, doc_index as int, depth as nat, 0));
    while i < subs.len()
        invariant
            depth <= 64,
            i <= subs@.len(),
            errs(errors@) == errs(old(errors)@) + all_of_errors(
                *value,
                subs@,
                *store,
                path@,
                doc_index as int,
                depth as nat,
                i as nat,
            ),
        decreases subs@.len() - i,
    {
        validate_value(value, &subs[i], store, path, doc_index, depth + 1, errors);
        assert(errs(errors@) =~= errs(old(errors)@) + all_of_errors(
            *value,
            subs@,
            *store,
            path@,
            doc_index as int,
            depth as nat,
            (i + 1) as nat,
        ));
        i += 1;
    }
}

fn validate_object(
    obj: &Vec<(String, JsonValue)>,
    schema: &JsonValue,
    store: &SchemaStore,
    path: &Vec<char>,
    doc_index: usize,
    depth: usize,
    errors: &mut Vec<ValidationError>,
)
    requires
        depth <= 64,
    ensures
        errs(final(errors)@) == errs(old(errors)@) + members_errors(
            obj@,
            *schema,
            *store,
            path@,
            doc_index as int,
            depth as nat,
        ),
    decreases depth_measure(depth as nat), 1nat, 0nat,
{
    let ghost pd = path@;
    let ghost di = doc_index as int;
    let ghost dd = depth as nat;
    let no_reqs: Vec<JsonValue> = Vec::new();
    let reqs = match get(schema, "required") {
        Some(JsonValue::Array(r, _)) => r,
        _ => &no_reqs,
    };
    assert(reqs@ == match as_array(member(*schema, "required"@)) {
        Some(r) => r,
        None => Seq::empty(),
    });
    check_required(obj, reqs, path, doc_index, errors);
    let ghost e1 = errs(errors@);
    let no_props: Vec<(String, JsonValue)> = Vec::new();
    let props = match get(schema, "properties") {
        Some(JsonValue::Object(p, _)) => p,
        _ => &no_props,
    };
    assert(props@ == match as_object(member(*schema, "properties"@)) {
        Some(p) => p,
        None => Seq::empty(),
    });
    assert(keyed(props@).map_values(|e: (Seq<char>, JsonValue)| e.0) =~= property_names(*schema));
    validate_properties(obj, props, store, path, doc_index, depth, errors);
    let ghost e2 = errs(errors@);
    match get(schema, "additionalProperties") {
        Some(addl) => {
            validate_additional(obj, addl, props, store, path, doc_index, depth, errors);
        },
        None => {
            assert(errs(errors@) =~= e2 + Seq::<ErrView>::empty());
        },
    }
    assert(errs(errors@) =~= errs(old(errors)@) + members_errors(obj@, *schema, *store, pd, di, dd));
}

fn validate_properties(
    obj: &Vec<(String, JsonValue)>,
    props: &Vec<(String, JsonValue)>,
    store: &SchemaStore,
    path: &Vec<char>,
    doc_index: usize,
    depth: usize,
    errors: &mut Vec<ValidationError>,
)
    requires
        depth <= 64,
    ensures
        errs(final(errors)@) == errs(old(errors)@) + property_errors(
            obj@,
            props@,
            *store,
            path@,
            doc_index as int,
            depth as nat,
            props@.len(),
        ),
    decreases depth_measure(depth as nat), 0nat, 0nat,
{
    let mut i: usize = 0;
    assert(errs(errors@) =~= errs(old(errors)@) + property_errors(obj@, props@, *store, path@, doc_index as int, depth as nat, 0));
    while i < props.len()
        invariant
            depth <= 64,
            i <= props@.len(),
            errs(errors@) == errs(old(errors)@) + property_errors(
                obj@,
                props@,
                *store,
                path@,
                doc_index as int,
                depth as nat,
                i as nat,
            ),
        decreases props@.len() - i,
    {
        let (name, prop_schema) = &props[i];
        let k = find_key(obj, name);
        proof {
            lemma_key_pos(keyed(obj@), name@);
        }
        if k < obj.len() {
            assert(keyed(obj@)[k as int].1 == obj@[k as int].1);
            let cp = child_path(path, name);
            validate_value(&obj[k].1, prop_schema, store, &cp, doc_index, depth + 1, errors);
        }
        assert(errs(errors@) =~= errs(old(errors)@) + property_errors(
            obj@,
            props@,
            *store,
            path@,
            doc_index as int,
            depth as nat,
            (i + 1) as nat,
        ));
        i += 1;
    }
}

fn validate_additional(
    obj: &Vec<(String, JsonValue)>,
    addl: &JsonValue,
    props: &Vec<(String, JsonValue)>,
    store: &SchemaStore,
    path: &Vec<char>,
    doc_index: usize,
    depth: usize,
    errors: &mut Vec<ValidationError>,
)
    requires
        depth <= 64,
    ensures
        errs(final(errors)@) == errs(old(errors)@) + additional_errors(
            obj@,
            *addl,
            keyed(props@).map_values(|e: (Seq<char>, JsonValue)| e.0),
            *store,
            path@,
            doc_index as int,
            depth as nat,
            obj@.len(),
        ),
    decreases depth_measure(depth as nat), 0nat, 0nat,
{
    let ghost known = keyed(props@).map_values(|e: (Seq<char>, JsonValue)| e.0);
    let mut i: usize = 0;
    assert(errs(errors@) =~= errs(old(errors)@) + additional_errors(obj@, *addl, known, *store, path@, doc_index as int, depth as nat, 0));
    while i < obj.len()
        invariant
            depth <= 64,
            i <= obj@.len(),
            known == keyed(props@).map_values(|e: (Seq<char>, JsonValue)| e.0),
            errs(errors@) == errs(old(errors)@) + additional_errors(
                obj@,
                *addl,
                known,
                *store,
                path@,
                doc_index as int,
                depth as nat,
                i as nat,
            ),
        decreases obj@.len() - i,
    {
        let (key, child) = &obj[i];
        let k = find_key(props, key);
        proof {
            lemma_key_pos(keyed(props@), key@);
            if known.contains(key@) {
                let j = choose|j: int| 0 <= j < known.len() && known[j] == key@;
                assert(keyed(props@)[j].0 == key@);
            }
            if k < props.len() {
                assert(known[k as int] == key@);
            }
        }
        if k >= props.len() {
            let cp = child_path(path, key);
            validate_value(child, addl, store, &cp, doc_index, depth + 1, errors);
        }
        assert(errs(errors@) =~= errs(old(errors)@) + additional_errors(
            obj@,
            *addl,
            known,
            *store,
            path@,
            doc_index as int,
            depth as nat,
            (i + 1) as nat,
        ));
        i += 1;
    }
}

fn validate_items(
    arr: &Vec<JsonValue>,
    items: &JsonValue,
    store: &SchemaStore,
    path: &Vec<char>,
    doc_index: usize,
    depth: usize,
    errors: &mut Vec<ValidationError>,
)
    requires
        depth <= 64,
    ensures
        errs(final(errors)@) == errs(old(errors)@) + item_errors(
            arr@,
            *items,
            *store,
            path@,
            doc_index as int,
            depth as nat,
            arr@.len(),
        ),
    decreases depth_measure(depth as nat), 0nat, 0nat,
{
    let mut i: usize = 0;
    assert(errs(errors@) =~= errs(old(errors)@) + item_errors(arr@, *items, *store, path@, doc_index as int, depth as nat, 0));
    while i < arr.len()
        invariant
            depth <= 64,
            i <= arr@.len(),
            errs(errors@) == errs(old(errors)@) + item_errors(
                arr@,
                *items,
                *store,
                path@,
                doc_index as int,
                depth as nat,
                i as nat,
            ),
        decreases arr@.len() - i,
    {
        let ip = index_path(path, i);
        validate_value(&arr[i], items, store, &ip, doc_index, depth + 1, errors);
        assert(errs(errors@) =~= errs(old(errors)@) + item_errors(
            arr@,
            *items,
            *store,
            path@,
            doc_index as int,
            depth as nat,
            (i + 1) as nat,
        ));
        i += 1;
    }
}

// ---------------------------------------------------------------------------
// Loading a schema store
// ---------------------------------------------------------------------------

/// The `(name, schema name)` pairs of `m` whose value is a string, in order.
pub open spec fn string_members(m: Seq<(String, JsonValue)>) -> Seq<(Seq<char>, Seq<char>)>
    decreases m.len(),
{
    if m.len() == 0 {
        Seq::empty()
    } else {
        let prev = string_members(m.drop_last());
        match m.last().1 {
            JsonValue::Str(s) => prev.push((m.last().0@, s@)),
            _ => prev,
        }
    }
}

/// A store file holds `version` 2, and `gvk_index` and `schemas` objects.
pub open spec fn store_parts(value: JsonValue) -> Option<(Seq<(Seq<char>, Seq<char>)>, Seq<(String, JsonValue)>)> {
    if value is Object && (member(value, "version"@) matches Some(JsonValue::Number(n)) && n.integer
        == Some(2i128)) {
        match (as_object(member(value, "gvk_index"@)), as_object(member(value, "schemas"@))) {
            (Some(g), Some(s)) => Some((string_members(g), s)),
            _ => None,
        }
    } else {
        None
    }
}

pub open spec fn index_view(v: Seq<(String, String)>) -> Seq<(Seq<char>, Seq<char>)> {
    v.map_values(|e: (String, String)| (e.0@, e.1@))
}

impl SchemaStore {
    /// The store held by the parsed `_schema.json`: `None` unless it has
    /// `version` 2 and its `gvk_index` and `schemas` objects. Index entries
    /// whose value is not a string are left out.
    pub fn from_json(value: JsonValue) -> (r: Option<SchemaStore>)
        ensures
            match store_parts(value) {
                None => r is None,
                Some(parts) => r matches Some(st) && index_view(st.gvk_index@) == parts.0
                    && st.schemas@ == parts.1,
            },
    {
        let version_ok = match get(&value, "version") {
            Some(JsonValue::Number(n)) => match n.integer {
                Some(x) => x == 2,
                None => false,
            },
            _ => false,
        };
        if !version_ok {
            return None;
        }
        let gvk_index = match get(&value, "gvk_index") {
            Some(JsonValue::Object(g, _)) => {
                let mut out: Vec<(String, String)> = Vec::new();
                let mut i: usize = 0;
                while i < g.len()
                    invariant
                        i <= g@.len(),
                        index_view(out@) == string_members(g@.take(i as int)),
                    decreases g@.len() - i,
                {
                    assert(g@.take(i + 1).drop_last() =~= g@.take(i as int));
                    match &g[i].1 {
                        JsonValue::Str(s) => {
                            out.push((g[i].0.clone(), s.clone()));
                            assert(index_view(out@) =~= index_view(out@.drop_last()).push((g@[i as int].0@, s@)));
                        },
                        _ => {},
                    }
                    i += 1;
                }
                assert(g@.take(g@.len() as int) =~= g@);
                out
            },
            _ => {
                return None;
            },
        };
        let has_schemas = match get(&value, "schemas") {
            Some(JsonValue::Object(..)) => true,
            _ => false,
        };
        if !has_schemas {
            return None;
        }
        let ghost parts = store_parts(value);
        match value {
            JsonValue::Object(mut m, _) => {
                let key = String::from_str("schemas");
                let i = find_key(&m, &key);
                proof {
                    lemma_key_pos(keyed(m@), "schemas"@);
                    assert(keyed(m@)[i as int].1 == m@[i as int].1);
                }
                let (_, sv) = m.remove(i);
                match sv {
                    JsonValue::Object(schemas, _) => Some(SchemaStore { gvk_index, schemas }),
                    _ => None,
                }
            },
            _ => None,
        }
    }

    /// The schema named `name`, which a `$ref` refers to.
    pub fn resolve_ref(&self, name: &str) -> (r: Option<&JsonValue>)
        ensures
            match store_schema(*self, name@) {
                Some(x) => r matches Some(y) && *y == x,
                None => r is None,
            },
    {
        let n = String::from_str(name);
        self.schema_named(&n)
    }

    /// The schema named `name`.
    fn schema_named(&self, name: &String) -> (r: Option<&JsonValue>)
        ensures
            match store_schema(*self, name@) {
                Some(x) => r matches Some(y) && *y == x,
                None => r is None,
            },
    {
        let i = find_key(&self.schemas, name);
        proof {
            lemma_key_pos(keyed(self.schemas@), name@);
        }
        if i < self.schemas.len() {
            assert(keyed(self.schemas@)[i as int].1 == self.schemas@[i as int].1);
            Some(&self.schemas[i].1)
        } else {
            None
        }
    }

    /// The schema of documents of `api_version` and `kind`.
    pub fn schema_for_gvk(&self, api_version: &String, kind: &String) -> (r: Option<&JsonValue>)
        ensures
            match schema_for_gvk(*self, api_version@, kind@) {
                Some(x) => r matches Some(y) && *y == x,
                None => r is None,
            },
    {
        let mut k = chars_of(api_version.as_str());
        k.push(':');
        push_str(&mut k, kind.as_str());
        let key = string_from(&k);
        assert(key@ =~= api_version@ + seq![':'] + kind@);
        let i = find_key(&self.gvk_index, &key);
        proof {
            lemma_key_pos(keyed(self.gvk_index@), key@);
        }
        if i < self.gvk_index.len() {
            assert(keyed(self.gvk_index@)[i as int].1 == self.gvk_index@[i as int].1);
            self.schema_named(&self.gvk_index[i].1)
        } else {
            None
        }
    }
}

// ---------------------------------------------------------------------------
// Validating documents
// ---------------------------------------------------------------------------

/// A string member of a document, empty when it is missing.
pub open spec fn doc_field(doc: JsonValue, key: Seq<char>) -> Seq<char> {
    match as_str(member(doc, key)) {
        Some(s) => s,
        None => Seq::empty(),
    }
}

pub open spec fn quantity_error_view(f: Finding) -> ErrView {
    ErrView { doc_index: f.0, path: f.1, kind: KindView::InvalidQuantity(f.2) }
}

/// The errors of a document: against its schema when the store has one
/// for its `apiVersion` and `kind`, else those of the quantity fallback.
pub open spec fn doc_errors(doc: JsonValue, idx: int, store: Option<SchemaStore>) -> Seq<ErrView> {
    let fallback = search_findings(doc, seq!['$'], idx).map_values(|f: Finding| quantity_error_view(f));
    match store {
        Some(st) => match schema_for_gvk(st, doc_field(doc, "apiVersion"@), doc_field(doc, "kind"@)) {
            Some(schema) => spec_validate(doc, schema, st, seq!['$'], idx, 0),
            None => fallback,
        },
        None => fallback,
    }
}

/// The errors of the documents `docs[0..k]`, in order.
pub open spec fn docs_errors(docs: Seq<JsonValue>, store: Option<SchemaStore>, k: nat) -> Seq<ErrView>
    decreases k,
{
    if k == 0 || k > docs.len() {
        Seq::empty()
    } else {
        docs_errors(docs, store, (k - 1) as nat) + doc_errors(docs[k - 1], k - 1, store)
    }
}

/// The errors of a build output: a list of documents (anything else holds
/// nothing to check).
pub open spec fn output_errors(value: JsonValue, store: Option<SchemaStore>) -> Seq<ErrView> {
    match value {
        JsonValue::Array(docs, _) => docs_errors(docs@, store, docs@.len()),
        _ => Seq::empty(),
    }
}

pub open spec fn store_opt(store: Option<&SchemaStore>) -> Option<SchemaStore> {
    match store {
        Some(s) => Some(*s),
        None => None,
    }
}

fn doc_string_field(doc: &JsonValue, key: &str) -> (r: String)
    ensures
        r@ == doc_field(*doc, key@),
{
    match get(doc, key) {
        Some(JsonValue::Str(s)) => s.clone(),
        _ => String::new(),
    }
}

/// Checks every document of a build output: `Ok` when nothing is wrong,
/// else all the errors in document order.
pub fn validate(value: &JsonValue, store: Option<&SchemaStore>) -> (r: Result<(), Vec<ValidationError>>)
    ensures
        match r {
            Ok(()) => output_errors(*value, store_opt(store)).len() == 0,
            Err(es) => errs(es@) == output_errors(*value, store_opt(store)) && es@.len() > 0,
        },
{
    let docs = match value {
        JsonValue::Array(d, _) => d,
        _ => {
            return Ok(());
        },
    };
    let ghost st = store_opt(store);
    let mut errors: Vec<ValidationError> = Vec::new();
    let mut i: usize = 0;
    while i < docs.len()
        invariant
            i <= docs@.len(),
            st == store_opt(store),
            errs(errors@) == docs_errors(docs@, st, i as nat),
        decreases docs@.len() - i,
    {
        let doc = &docs[i];
        let ghost before = errs(errors@);
        let mut done = false;
        match store {
            Some(s) => {
                let av = doc_string_field(doc, "apiVersion");
                let kind = doc_string_field(doc, "kind");
                match s.schema_for_gvk(&av, &kind) {
                    Some(schema) => {
                        let mut root: Vec<char> = Vec::new();
                        root.push('$');
                        validate_value(doc, schema, s, &root, i, 0, &mut errors);
                        done = true;
                    },
                    None => {},
                }
            },
            None => {},
        }
        if !done {
            let mut qerrs: Vec<QuantityError> = Vec::new();
            validate_doc_fallback(doc, i, &mut qerrs);
            let mut j: usize = 0;
            let ghost fs = crate::quantity::findings(qerrs@);
            assert(fs =~= search_findings(*doc, seq!['$'], i as int));
            while j < qerrs.len()
                invariant
                    j <= qerrs@.len(),
                    fs == crate::quantity::findings(qerrs@),
                    errs(errors@) == before + fs.take(j as int).map_values(|f: Finding| quantity_error_view(f)),
                decreases qerrs@.len() - j,
            {
                let q = &qerrs[j];
                let e = ValidationError {
                    doc_index: q.doc_index,
                    path: q.path.clone(),
                    kind: ValidationErrorKind::InvalidQuantity { value: q.value.clone() },
                };
                push_err(&mut errors, e);
                assert(fs.take(j + 1).map_values(|f: Finding| quantity_error_view(f)) =~= fs.take(j as int).map_values(
                    |f: Finding| quantity_error_view(f),
                ).push(quantity_error_view(fs[j as int])));
                j += 1;
            }
            assert(fs.take(qerrs@.len() as int) =~= fs);
        }
        assert(errs(errors@) =~= docs_errors(docs@, st, (i + 1) as nat));
        i += 1;
    }
    if errors.len() == 0 {
        Ok(())
    } else {
        Err(errors)
    }
}

// ---------------------------------------------------------------------------
// Messages
// ---------------------------------------------------------------------------

/// The text of an error, as it is shown to users.
pub open spec fn error_text(e: ErrView) -> Seq<char> {
    "doc["@ + decimal(e.doc_index as nat) + "] at "@ + e.path + ": "@ + match e.kind {
        KindView::TypeMismatch(expected, got) => "expected type "@ + expected + ", got "@ + got,
        KindView::MissingRequired(field) => "missing required field \""@ + field + "\""@,
        KindView::InvalidEnum(value, allowed) => "invalid value \""@ + value
            + "\", expected one of: "@ + join_with(allowed, ", "@),
        KindView::InvalidQuantity(value) => "invalid quantity \""@ + value + "\""@,
        KindView::PatternMismatch(value, pattern) => "value \""@ + value
            + "\" does not match pattern \""@ + pattern + "\""@,
        KindView::BelowMinimum(value, minimum) => "value "@ + value + " is below minimum "@ + minimum,
        KindView::AboveMaximum(value, maximum) => "value "@ + value + " is above maximum "@ + maximum,
    }
}

impl ValidationError {
    /// The text of the error, as it is shown to users.
    pub fn message(&self) -> (r: String)
        ensures
            r@ == error_text(self@),
    {
        let mut out: Vec<char> = Vec::new();
        push_str(&mut out, "doc[");
        let d = decimal_of(self.doc_index as u64);
        push_all(&mut out, &d);
        push_str(&mut out, "] at ");
        push_str(&mut out, self.path.as_str());
        push_str(&mut out, ": ");
        match &self.kind {
            ValidationErrorKind::TypeMismatch { expected, got } => {
                push_str(&mut out, "expected type ");
                push_str(&mut out, expected);
                push_str(&mut out, ", got ");
                push_str(&mut out, got.as_str());
            },
            ValidationErrorKind::MissingRequired { field } => {
                push_str(&mut out, "missing required field \"");
                push_str(&mut out, field.as_str());
                push_str(&mut out, "\"");
            },
            ValidationErrorKind::InvalidEnum { value, allowed } => {
                push_str(&mut out, "invalid value \"");
                push_str(&mut out, value.as_str());
                push_str(&mut out, "\", expected one of: ");
                let mut parts: Vec<Vec<char>> = Vec::new();
                let mut i: usize = 0;
                while i < allowed.len()
                    invariant
                        i <= allowed@.len(),
                        parts@.len() == i,
                        forall|k: int| 0 <= k < i ==> (#[trigger] parts.deep_view()[k]) == allowed@[k]@,
                    decreases allowed@.len() - i,
                {
                    let c = chars_of(allowed[i].as_str());
                    let ghost prev = parts.deep_view();
                    parts.push(c);
                    proof {
                        assert forall|k: int| 0 <= k < i + 1 implies (#[trigger] parts.deep_view()[k]) == allowed@[k]@ by {
                            if k < i {
                                assert(parts.deep_view()[k] == parts@[k].deep_view());
                                assert(prev[k] == parts@[k].deep_view());
                            } else {
                                assert(parts.deep_view()[k] == c.deep_view());
                                assert(c.deep_view() =~= c@);
                            }
                        }
                    }
                    i += 1;
                }
                assert(parts.deep_view() =~= texts(allowed@));
                let sep = chars_of(", ");
                let j = join(&parts, &sep);
                push_all(&mut out, &j);
            },
            ValidationErrorKind::InvalidQuantity { value } => {
                push_str(&mut out, "invalid quantity \"");
                push_str(&mut out, value.as_str());
                push_str(&mut out, "\"");
            },
            ValidationErrorKind::PatternMismatch { value, pattern } => {
                push_str(&mut out, "value \"");
                push_str(&mut out, value.as_str());
                push_str(&mut out, "\" does not match pattern \"");
                push_str(&mut out, pattern.as_str());
                push_str(&mut out, "\"");
            },
            ValidationErrorKind::BelowMinimum { value, minimum } => {
                push_str(&mut out, "value ");
                push_str(&mut out, value.as_str());
                push_str(&mut out, " is below minimum ");
                push_str(&mut out, minimum.as_str());
            },
            ValidationErrorKind::AboveMaximum { value, maximum } => {
                push_str(&mut out, "value ");
                push_str(&mut out, value.as_str());
                push_str(&mut out, " is above maximum ");
                push_str(&mut out, maximum.as_str());
            },
        }
        let r = string_from(&out);
        assert(r@ =~= error_text(self@));
        r
    }
}

} // verus!
