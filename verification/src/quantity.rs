//! The Kubernetes quantity grammar (`"500m"`, `"1Gi"`, `"1e3"`, ...).
use vstd::prelude::*;

use crate::table::{find_key, keyed, lemma_key_pos, lookup};
use crate::text::{chars_of, is_digit, push_all, push_str, slice, string_from};
use crate::validate::{get, json_text, json_text_of, member, JsonValue};

verus! {

/// Length of the run of ASCII digits in `s` that starts at position `i`.
pub open spec fn digit_run(s: Seq<char>, i: int) -> int
    decreases s.len() - i,
{
    if 0 <= i < s.len() && is_digit(s[i]) {
        1 + digit_run(s, i + 1)
    } else {
        0
    }
}

/// One of the fifteen quantity suffixes: the DecimalSI suffixes
/// `n u m k M G T P E` and the BinarySI suffixes `Ki Mi Gi Ti Pi Ei`.
pub open spec fn is_quantity_suffix(s: Seq<char>) -> bool {
    ||| (s.len() == 1 && (s[0] == 'n' || s[0] == 'u' || s[0] == 'm' || s[0] == 'k' || s[0] == 'M'
        || s[0] == 'G' || s[0] == 'T' || s[0] == 'P' || s[0] == 'E'))
    ||| (s.len() == 2 && s[1] == 'i' && (s[0] == 'K' || s[0] == 'M' || s[0] == 'G' || s[0] == 'T'
        || s[0] == 'P' || s[0] == 'E'))
}

/// Position just after an optional `+`/`-` that starts `s`.
pub open spec fn sign_len(s: Seq<char>, i: int) -> int {
    if 0 <= i < s.len() && (s[i] == '+' || s[i] == '-') {
        i + 1
    } else {
        i
    }
}

/// An exponent: `e` or `E`, an optional sign, and one or more digits, filling all of `r`.
pub open spec fn is_exponent(r: Seq<char>) -> bool {
    &&& r.len() >= 1
    &&& (r[0] == 'e' || r[0] == 'E')
    &&& digit_run(r, sign_len(r, 1)) >= 1
    &&& sign_len(r, 1) + digit_run(r, sign_len(r, 1)) == r.len()
}

/// The quantity grammar: `sign? digits (. digits?)? (exponent | suffix)?`, where
/// the number has at least one digit before or after the point. A tail that is
/// a suffix is read as one, so `"1E"` is a quantity with suffix Exa.
pub open spec fn spec_valid_quantity(s: Seq<char>) -> bool {
    let a = sign_len(s, 0);
    let int_len = digit_run(s, a);
    let i1 = a + int_len;
    let has_dot = i1 < s.len() && s[i1] == '.';
    let frac_len = if has_dot { digit_run(s, i1 + 1) } else { 0 };
    let i2 = if has_dot { i1 + 1 + frac_len } else { i1 };
    let rest = s.skip(i2);
    &&& s.len() > a
    &&& (int_len > 0 || frac_len > 0)
    &&& (rest.len() == 0 || is_quantity_suffix(rest) || is_exponent(rest))
}

proof fn lemma_digit_run_bounds(s: Seq<char>, i: int)
    requires
        0 <= i <= s.len(),
    ensures
        0 <= digit_run(s, i) <= s.len() - i,
        forall|k: int| i <= k < i + digit_run(s, i) ==> is_digit(#[trigger] s[k]),
        i + digit_run(s, i) < s.len() ==> !is_digit(s[i + digit_run(s, i)]),
    decreases s.len() - i,
{
    if i < s.len() && is_digit(s[i]) {
        lemma_digit_run_bounds(s, i + 1);
    }
}

proof fn lemma_digit_run_skip(s: Seq<char>, i: int, k: int)
    requires
        0 <= k <= i <= s.len(),
    ensures
        digit_run(s.skip(k), i - k) == digit_run(s, i),
    decreases s.len() - i,
{
    if i < s.len() && is_digit(s[i]) {
        lemma_digit_run_skip(s, i + 1, k);
    }
}

/// Length of the run of digits in `s` starting at `i`.
fn scan_digits(s: &Vec<char>, i: usize) -> (r: usize)
    requires
        i <= s.len(),
    ensures
        r == i + digit_run(s@, i as int),
        r <= s.len(),
{
    let mut j = i;
    while j < s.len() && '0' <= s[j] && s[j] <= '9'
        invariant
            i <= j <= s.len(),
            digit_run(s@, i as int) == (j - i) + digit_run(s@, j as int),
        decreases s.len() - j,
    {
        j += 1;
    }
    proof {
        lemma_digit_run_bounds(s@, i as int);
    }
    j
}

/// `s` is one of the fifteen quantity suffixes.
fn is_suffix(s: &Vec<char>) -> (r: bool)
    ensures
        r == is_quantity_suffix(s@),
{
    if s.len() == 1 {
        let c = s[0];
        c == 'n' || c == 'u' || c == 'm' || c == 'k' || c == 'M' || c == 'G' || c == 'T' || c
            == 'P' || c == 'E'
    } else if s.len() == 2 {
        let c = s[0];
        s[1] == 'i' && (c == 'K' || c == 'M' || c == 'G' || c == 'T' || c == 'P' || c == 'E')
    } else {
        false
    }
}

/// `r` is an exponent filling all of `r`.
fn is_exponent_tail(r: &Vec<char>) -> (b: bool)
    ensures
        b == is_exponent(r@),
{
    if r.len() == 0 || !(r[0] == 'e' || r[0] == 'E') {
        return false;
    }
    let j: usize = if r.len() > 1 && (r[1] == '+' || r[1] == '-') {
        2
    } else {
        1
    };
    let end = scan_digits(r, j);
    end > j && end == r.len()
}

/// Validates a string against the Kubernetes quantity grammar:
/// `sign? digits (. digits?)? (exponent | suffix)?`, with the DecimalSI
/// suffixes `n u m k M G T P E`, the BinarySI suffixes `Ki Mi Gi Ti Pi Ei`,
/// and an exponent `e`/`E` with an optional sign and digits. `"1E"` is the
/// suffix Exa, not an incomplete exponent.
pub fn is_valid_quantity(s: &str) -> (r: bool)
    ensures
        r == spec_valid_quantity(s@),
{
    let v = chars_of(s);
    if v.len() == 0 {
        return false;
    }
    let mut i: usize = 0;
    if v[0] == '+' || v[0] == '-' {
        i = 1;
        if i >= v.len() {
            return false;
        }
    }
    let digits_start = i;
    i = scan_digits(&v, i);
    let has_integer_part = i > digits_start;
    let mut has_fractional_part = false;
    let i1 = i;
    if i < v.len() && v[i] == '.' {
        i += 1;
        let frac_start = i;
        i = scan_digits(&v, i);
        has_fractional_part = i > frac_start;
    }
    proof {
        lemma_digit_run_bounds(v@, sign_len(v@, 0));
        let a = sign_len(v@, 0);
        assert(i1 == a + digit_run(v@, a));
    }
    if !has_integer_part && !has_fractional_part {
        return false;
    }
    if i >= v.len() {
        return true;
    }
    let rest = slice(&v, i, v.len());
    assert(rest@ =~= v@.skip(i as int));
    if is_suffix(&rest) {
        return true;
    }
    is_exponent_tail(&rest)
}

/// A number of one or more digits followed by one of the suffixes is a quantity.
pub proof fn lemma_digits_with_suffix_valid(digits: Seq<char>, suffix: Seq<char>)
    requires
        digits.len() >= 1,
        forall|k: int| 0 <= k < digits.len() ==> is_digit(#[trigger] digits[k]),
        is_quantity_suffix(suffix),
    ensures
        spec_valid_quantity(digits + suffix),
{
    let s = digits + suffix;
    assert(s[0] == digits[0]);
    assert(sign_len(s, 0) == 0);
    assert(s[digits.len() as int] == suffix[0]);
    assert forall|j: int| 0 <= j < digits.len() implies is_digit(#[trigger] s[j]) by {
        assert(s[j] == digits[j]);
    }
    assert forall|k: int| 0 <= k <= digits.len() implies digit_run(s, k) == digits.len() - k by {
        lemma_digit_run_from(s, digits.len() as int, k);
    }
    assert(s.skip(digits.len() as int) =~= suffix);
}

/// A run of digits followed by any of the DecimalSI suffixes
/// `n u m k M G T P E` or the BinarySI suffixes `Ki Mi Gi Ti Pi Ei` is a
/// valid quantity, as `"1Ti"` or `"500m"` is.
pub proof fn lemma_listed_suffixes_are_quantities(digits: Seq<char>)
    requires
        digits.len() >= 1,
        forall|k: int| 0 <= k < digits.len() ==> is_digit(#[trigger] digits[k]),
    ensures
        spec_valid_quantity(digits + "n"@),
        spec_valid_quantity(digits + "u"@),
        spec_valid_quantity(digits + "m"@),
        spec_valid_quantity(digits + "k"@),
        spec_valid_quantity(digits + "M"@),
        spec_valid_quantity(digits + "G"@),
        spec_valid_quantity(digits + "T"@),
        spec_valid_quantity(digits + "P"@),
        spec_valid_quantity(digits + "E"@),
        spec_valid_quantity(digits + "Ki"@),
        spec_valid_quantity(digits + "Mi"@),
        spec_valid_quantity(digits + "Gi"@),
        spec_valid_quantity(digits + "Ti"@),
        spec_valid_quantity(digits + "Pi"@),
        spec_valid_quantity(digits + "Ei"@),
{
    reveal_strlit("n");
    lemma_digits_with_suffix_valid(digits, "n"@);
    reveal_strlit("u");
    lemma_digits_with_suffix_valid(digits, "u"@);
    reveal_strlit("m");
    lemma_digits_with_suffix_valid(digits, "m"@);
    reveal_strlit("k");
    lemma_digits_with_suffix_valid(digits, "k"@);
    reveal_strlit("M");
    lemma_digits_with_suffix_valid(digits, "M"@);
    reveal_strlit("G");
    lemma_digits_with_suffix_valid(digits, "G"@);
    reveal_strlit("T");
    lemma_digits_with_suffix_valid(digits, "T"@);
    reveal_strlit("P");
    lemma_digits_with_suffix_valid(digits, "P"@);
    reveal_strlit("E");
    lemma_digits_with_suffix_valid(digits, "E"@);
    reveal_strlit("Ki");
    lemma_digits_with_suffix_valid(digits, "Ki"@);
    reveal_strlit("Mi");
    lemma_digits_with_suffix_valid(digits, "Mi"@);
    reveal_strlit("Gi");
    lemma_digits_with_suffix_valid(digits, "Gi"@);
    reveal_strlit("Ti");
    lemma_digits_with_suffix_valid(digits, "Ti"@);
    reveal_strlit("Pi");
    lemma_digits_with_suffix_valid(digits, "Pi"@);
    reveal_strlit("Ei");
    lemma_digits_with_suffix_valid(digits, "Ei"@);
}

proof fn lemma_digit_run_from(s: Seq<char>, n: int, k: int)
    requires
        0 <= k <= n <= s.len(),
        forall|j: int| 0 <= j < n ==> is_digit(#[trigger] s[j]),
        n < s.len() ==> !is_digit(s[n]),
    ensures
        digit_run(s, k) == n - k,
    decreases n - k,
{
    if k < n {
        lemma_digit_run_from(s, n, k + 1);
    }
}

/// A single quantity validation error, found by the fallback heuristic.
#[derive(Debug)]
pub struct QuantityError {
    pub doc_index: usize,
    pub path: String,
    pub value: String,
}

// ---------------------------------------------------------------------------
// Fallback heuristic: documents without a schema
// ---------------------------------------------------------------------------

/// `path.name`
pub open spec fn step(path: Seq<char>, name: Seq<char>) -> Seq<char> {
    path + seq!['.'] + name
}

/// `path[i]`
pub open spec fn index_step(path: Seq<char>, i: nat) -> Seq<char> {
    path + seq!['['] + crate::bench::decimal(i) + seq![']']
}

/// A finding of the fallback: document, path and the value shown.
pub type Finding = (int, Seq<char>, Seq<char>);

/// What an error says.
pub open spec fn finding_of(e: QuantityError) -> Finding {
    (e.doc_index as int, e.path@, e.value@)
}

pub open spec fn findings(v: Seq<QuantityError>) -> Seq<Finding> {
    v.map_values(|e: QuantityError| finding_of(e))
}

/// What the fallback reports of a value under `resources.requests` or
/// `resources.limits`: a string that is no quantity, or a value that is
/// neither a string, a number nor null. Each finding is `(path, value)`.
pub open spec fn leaf_findings(v: JsonValue, path: Seq<char>, doc: int) -> Seq<Finding> {
    match v {
        JsonValue::Str(s) => if spec_valid_quantity(s@) {
            Seq::empty()
        } else {
            seq![(doc, path, s@)]
        },
        JsonValue::Number(_) => Seq::empty(),
        JsonValue::Null => Seq::empty(),
        _ => seq![(doc, path, json_text(v))],
    }
}

/// The findings among the members `m[0..k]` of a requests or limits map.
pub open spec fn map_findings(m: Seq<(String, JsonValue)>, path: Seq<char>, doc: int, k: nat) -> Seq<Finding>
    decreases k,
{
    if k == 0 || k > m.len() {
        Seq::empty()
    } else {
        map_findings(m, path, doc, (k - 1) as nat) + leaf_findings(m[k - 1].1, step(path, m[k - 1].0@), doc)
    }
}

/// The findings of a requests or limits map (which must be an object).
pub open spec fn quantity_map_findings(v: Option<JsonValue>, path: Seq<char>, doc: int) -> Seq<Finding> {
    match v {
        Some(JsonValue::Object(m, _)) => map_findings(m@, path, doc, m@.len()),
        _ => Seq::empty(),
    }
}

/// The findings of the `resources` member of an object at `path`.
pub open spec fn resources_findings(v: JsonValue, path: Seq<char>, doc: int) -> Seq<Finding> {
    match member(v, "resources"@) {
        Some(JsonValue::Object(rm, _)) => {
            let rp = step(path, "resources"@);
            quantity_map_findings(lookup(keyed(rm@), "requests"@), step(rp, "requests"@), doc)
                + quantity_map_findings(lookup(keyed(rm@), "limits"@), step(rp, "limits"@), doc)
        },
        _ => Seq::empty(),
    }
}

/// Every object at any depth is searched for `resources.requests` and
/// `resources.limits`; their values are checked as quantities.
pub open spec fn search_findings(v: JsonValue, path: Seq<char>, doc: int) -> Seq<Finding>
    decreases v, 1nat, 0nat,
{
    match v {
        JsonValue::Object(m, _) => resources_findings(v, path, doc) + member_findings(m, path, doc, m@.len()),
        _ => Seq::empty(),
    }
}

/// The findings under the members `m[0..k]` of an object at `path`.
pub open spec fn member_findings(m: Vec<(String, JsonValue)>, path: Seq<char>, doc: int, k: nat) -> Seq<Finding>
    decreases m, 0nat, k,
{
    if k == 0 || k > m@.len() {
        Seq::empty()
    } else {
        let child = m@[k - 1].1;
        let cp = step(path, m@[k - 1].0@);
        proof {
            assert(decreases_to!(m => m@));
            assert(decreases_to!(m@ => m@[k - 1]));
            assert(decreases_to!(m@[k - 1] => m@[k - 1].1));
        }
        member_findings(m, path, doc, (k - 1) as nat) + match child {
            JsonValue::Object(..) => search_findings(child, cp, doc),
            JsonValue::Array(arr, _) => item_findings(arr, cp, doc, arr@.len()),
            _ => Seq::empty(),
        }
    }
}

/// The findings under the items `arr[0..k]` of an array at `path`.
pub open spec fn item_findings(arr: Vec<JsonValue>, path: Seq<char>, doc: int, k: nat) -> Seq<Finding>
    decreases arr, 0nat, k,
{
    if k == 0 || k > arr@.len() {
        Seq::empty()
    } else {
        proof {
            assert(decreases_to!(arr => arr@));
            assert(decreases_to!(arr@ => arr@[k - 1]));
        }
        item_findings(arr, path, doc, (k - 1) as nat) + search_findings(
            arr@[k - 1],
            index_step(path, (k - 1) as nat),
            doc,
        )
    }
}

fn push_finding(errors: &mut Vec<QuantityError>, e: QuantityError)
    ensures
        findings(final(errors)@) == findings(old(errors)@) + seq![finding_of(e)],
{
    errors.push(e);
    assert(findings(errors@) =~= findings(old(errors)@) + seq![finding_of(e)]);
}

fn step_path(path: &Vec<char>, name: &str) -> (r: Vec<char>)
    ensures
        r@ == step(path@, name@),
{
    let mut r: Vec<char> = Vec::new();
    push_all(&mut r, path);
    r.push('.');
    push_str(&mut r, name);
    r
}

fn index_path(path: &Vec<char>, i: usize) -> (r: Vec<char>)
    ensures
        r@ == index_step(path@, i as nat),
{
    let mut r: Vec<char> = Vec::new();
    push_all(&mut r, path);
    r.push('[');
    let d = crate::bench::decimal_of(i as u64);
    push_all(&mut r, &d);
    r.push(']');
    r
}

fn validate_leaf(v: &JsonValue, path: &Vec<char>, doc_index: usize, errors: &mut Vec<QuantityError>)
    ensures
        findings(final(errors)@) == findings(old(errors)@) + leaf_findings(*v, path@, doc_index as int),
{
    match v {
        JsonValue::Str(s) => {
            if !is_valid_quantity(s.as_str()) {
                push_finding(errors, QuantityError { doc_index, path: string_from(path), value: s.clone() });
            } else {
                assert(findings(errors@) =~= findings(old(errors)@) + Seq::<Finding>::empty());
            }
        },
        JsonValue::Number(_) | JsonValue::Null => {
            assert(findings(errors@) =~= findings(old(errors)@) + Seq::<Finding>::empty());
        },
        _ => {
            push_finding(errors, QuantityError { doc_index, path: string_from(path), value: json_text_of(v) });
        },
    }
}

fn validate_quantity_map(v: Option<&JsonValue>, path: &Vec<char>, doc_index: usize, errors: &mut Vec<QuantityError>)
    ensures
        findings(final(errors)@) == findings(old(errors)@) + quantity_map_findings(
            match v {
                Some(x) => Some(*x),
                None => None,
            },
            path@,
            doc_index as int,
        ),
{
    match v {
        Some(JsonValue::Object(m, _)) => {
            let mut i: usize = 0;
            assert(findings(errors@) =~= findings(old(errors)@) + map_findings(m@, path@, doc_index as int, 0));
            while i < m.len()
                invariant
                    i <= m@.len(),
                    findings(errors@) == findings(old(errors)@) + map_findings(m@, path@, doc_index as int, i as nat),
                decreases m@.len() - i,
            {
                let lp = step_path(path, m[i].0.as_str());
                validate_leaf(&m[i].1, &lp, doc_index, errors);
                assert(findings(errors@) =~= findings(old(errors)@) + map_findings(m@, path@, doc_index as int, (i + 1) as nat));
                i += 1;
            }
        },
        _ => {
            assert(findings(errors@) =~= findings(old(errors)@) + Seq::<Finding>::empty());
        },
    }
}

/// The member `key` of the member list `m`.
fn find_member<'a>(m: &'a Vec<(String, JsonValue)>, key: &str) -> (r: Option<&'a JsonValue>)
    ensures
        match lookup(keyed(m@), key@) {
            Some(x) => r matches Some(y) && *y == x,
            None => r is None,
        },
{
    let k = String::from_str(key);
    let i = find_key(m, &k);
    proof {
        lemma_key_pos(keyed(m@), key@);
    }
    if i < m.len() {
        assert(keyed(m@)[i as int].1 == m@[i as int].1);
        Some(&m[i].1)
    } else {
        None
    }
}

fn search_resources(v: &JsonValue, path: &Vec<char>, doc_index: usize, errors: &mut Vec<QuantityError>)
    ensures
        findings(final(errors)@) == findings(old(errors)@) + search_findings(*v, path@, doc_index as int),
    decreases *v, 1nat, 0nat,
{
    match v {
        JsonValue::Object(m, _) => {
            match get(v, "resources") {
                Some(JsonValue::Object(rm, _)) => {
                    let rp = step_path(path, "resources");
                    let qp = step_path(&rp, "requests");
                    validate_quantity_map(find_member(rm, "requests"), &qp, doc_index, errors);
                    let lp = step_path(&rp, "limits");
                    validate_quantity_map(find_member(rm, "limits"), &lp, doc_index, errors);
                },
                _ => {},
            }
            let ghost e1 = findings(errors@);
            assert(e1 =~= findings(old(errors)@) + resources_findings(*v, path@, doc_index as int));
            search_members(m, path, doc_index, errors);
            assert(findings(errors@) =~= findings(old(errors)@) + search_findings(*v, path@, doc_index as int));
        },
        _ => {
            assert(findings(errors@) =~= findings(old(errors)@) + Seq::<Finding>::empty());
        },
    }
}

fn search_members(m: &Vec<(String, JsonValue)>, path: &Vec<char>, doc_index: usize, errors: &mut Vec<QuantityError>)
    ensures
        findings(final(errors)@) == findings(old(errors)@) + member_findings(*m, path@, doc_index as int, m@.len()),
    decreases *m, 0nat, 0nat,
{
    let mut i: usize = 0;
    assert(findings(errors@) =~= findings(old(errors)@) + member_findings(*m, path@, doc_index as int, 0));
    while i < m.len()
        invariant
            i <= m@.len(),
            findings(errors@) == findings(old(errors)@) + member_findings(*m, path@, doc_index as int, i as nat),
        decreases m@.len() - i,
    {
        let (key, child) = &m[i];
        let cp = step_path(path, key.as_str());
        proof {
            assert(decreases_to!(*m => m@));
            assert(decreases_to!(m@ => m@[i as int]));
            assert(decreases_to!(m@[i as int] => m@[i as int].1));
        }
        match child {
            JsonValue::Object(..) => {
                search_resources(child, &cp, doc_index, errors);
            },
            JsonValue::Array(arr, _) => {
                search_items(arr, &cp, doc_index, errors);
            },
            _ => {},
        }
        assert(findings(errors@) =~= findings(old(errors)@) + member_findings(*m, path@, doc_index as int, (i + 1) as nat));
        i += 1;
    }
}

fn search_items(arr: &Vec<JsonValue>, path: &Vec<char>, doc_index: usize, errors: &mut Vec<QuantityError>)
    ensures
        findings(final(errors)@) == findings(old(errors)@) + item_findings(*arr, path@, doc_index as int, arr@.len()),
    decreases *arr, 0nat, 0nat,
{
    let mut i: usize = 0;
    assert(findings(errors@) =~= findings(old(errors)@) + item_findings(*arr, path@, doc_index as int, 0));
    while i < arr.len()
        invariant
            i <= arr@.len(),
            findings(errors@) == findings(old(errors)@) + item_findings(*arr, path@, doc_index as int, i as nat),
        decreases arr@.len() - i,
    {
        let ip = index_path(path, i);
        proof {
            assert(decreases_to!(*arr => arr@));
            assert(decreases_to!(arr@ => arr@[i as int]));
        }
        search_resources(&arr[i], &ip, doc_index, errors);
        assert(findings(errors@) =~= findings(old(errors)@) + item_findings(*arr, path@, doc_index as int, (i + 1) as nat));
        i += 1;
    }
}

/// The fallback check of a document without a schema: every
/// `resources.requests` and `resources.limits` map, at any depth, must hold
/// quantities (or numbers, or null).
pub fn validate_doc_fallback(doc: &JsonValue, doc_index: usize, errors: &mut Vec<QuantityError>)
    ensures
        findings(final(errors)@) == findings(old(errors)@) + search_findings(*doc, seq!['$'], doc_index as int),
{
    let mut root: Vec<char> = Vec::new();
    root.push('$');
    search_resources(doc, &root, doc_index, errors);
}

} // verus!
