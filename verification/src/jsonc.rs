//! Reading `tsconfig.json`, which may be JSONC: `//` line comments, `/* */`
//! block comments, and trailing commas before `}` or `]`.
use vstd::prelude::*;

use crate::text::{chars_of, string_from};

verus! {

/// ASCII whitespace (as `char::is_ascii_whitespace`).
pub open spec fn is_ascii_ws(c: char) -> bool {
    c == ' ' || c == '\t' || c == '\n' || c == '\x0C' || c == '\r'
}

/// The rest of a line comment is dropped up to, not including, the line break.
pub open spec fn skip_line(r: Seq<char>) -> Seq<char>
    decreases r.len(),
{
    if r.len() == 0 || r[0] == '\n' {
        r
    } else {
        skip_line(r.drop_first())
    }
}

/// The rest of a block comment is dropped up to and including `*/`. An
/// unterminated block comment drops all but its last character.
pub open spec fn skip_block(r: Seq<char>) -> Seq<char>
    decreases r.len(),
{
    if r.len() <= 1 {
        r
    } else if r[0] == '*' && r[1] == '/' {
        r.skip(2)
    } else {
        skip_block(r.drop_first())
    }
}

/// Skipping a comment never lengthens the text that remains.
pub proof fn lemma_skip_lens(r: Seq<char>)
    ensures
        skip_line(r).len() <= r.len(),
        skip_block(r).len() <= r.len(),
    decreases r.len(),
{
    if r.len() > 0 {
        lemma_skip_lens(r.drop_first());
    }
}

/// After a comma, only whitespace and comments come before a `}` or `]`:
/// the comma is a trailing one.
pub open spec fn closes_after_ws(r: Seq<char>) -> bool
    decreases r.len(),
{
    if r.len() == 0 {
        false
    } else if is_ascii_ws(r[0]) {
        closes_after_ws(r.drop_first())
    } else if r[0] == '/' && r.len() > 1 && r[1] == '/' {
        proof {
            lemma_skip_lens(r.skip(2));
        }
        closes_after_ws(skip_line(r.skip(2)))
    } else if r[0] == '/' && r.len() > 1 && r[1] == '*' {
        proof {
            lemma_skip_lens(r.skip(2));
        }
        closes_after_ws(skip_block(r.skip(2)))
    } else {
        r[0] == '}' || r[0] == ']'
    }
}

/// JSONC outside a string literal made plain JSON: comments and trailing
/// commas are dropped, everything else is kept.
pub open spec fn jsonc_plain(cs: Seq<char>) -> Seq<char>
    decreases cs.len(), 1int,
{
    if cs.len() == 0 {
        Seq::empty()
    } else if cs[0] == '"' {
        seq!['"'] + jsonc_in_string(cs.drop_first())
    } else if cs[0] == '/' && cs.len() > 1 && cs[1] == '/' {
        proof {
            lemma_skip_lens(cs.skip(2));
        }
        jsonc_plain(skip_line(cs.skip(2)))
    } else if cs[0] == '/' && cs.len() > 1 && cs[1] == '*' {
        proof {
            lemma_skip_lens(cs.skip(2));
        }
        jsonc_plain(skip_block(cs.skip(2)))
    } else if cs[0] == ',' && closes_after_ws(cs.drop_first()) {
        jsonc_plain(cs.drop_first())
    } else {
        seq![cs[0]] + jsonc_plain(cs.drop_first())
    }
}

/// JSONC inside a string literal: copied as it is, with a backslash and the
/// character after it copied together, up to and including the closing quote.
pub open spec fn jsonc_in_string(cs: Seq<char>) -> Seq<char>
    decreases cs.len(), 0int,
{
    if cs.len() == 0 {
        Seq::empty()
    } else if cs[0] == '\\' && cs.len() > 1 {
        seq![cs[0], cs[1]] + jsonc_in_string(cs.skip(2))
    } else if cs[0] == '"' {
        seq!['"'] + jsonc_plain(cs.drop_first())
    } else {
        seq![cs[0]] + jsonc_in_string(cs.drop_first())
    }
}

/// The position where a line comment starting its text at `i` ends.
fn line_end(c: &Vec<char>, i: usize) -> (j: usize)
    requires
        i <= c.len(),
    ensures
        i <= j <= c.len(),
        c@.skip(j as int) == skip_line(c@.skip(i as int)),
{
    let mut j = i;
    while j < c.len() && c[j] != '\n'
        invariant
            i <= j <= c.len(),
            skip_line(c@.skip(i as int)) == skip_line(c@.skip(j as int)),
        decreases c.len() - j,
    {
        assert(c@.skip(j as int).drop_first() =~= c@.skip(j + 1));
        j += 1;
    }
    j
}

/// The position where a block comment starting its text at `i` ends.
fn block_end(c: &Vec<char>, i: usize) -> (j: usize)
    requires
        i <= c.len(),
    ensures
        i <= j <= c.len(),
        c@.skip(j as int) == skip_block(c@.skip(i as int)),
{
    let mut j = i;
    while j < c.len() && j + 1 < c.len() && !(c[j] == '*' && c[j + 1] == '/')
        invariant
            i <= j <= c.len(),
            skip_block(c@.skip(i as int)) == skip_block(c@.skip(j as int)),
        decreases c.len() - j,
    {
        assert(c@.skip(j as int).drop_first() =~= c@.skip(j + 1));
        j += 1;
    }
    if j < c.len() && j + 1 < c.len() {
        assert(c@.skip(j as int).skip(2) =~= c@.skip(j + 2));
        j + 2
    } else {
        j
    }
}

/// Whether the comma at `i` is followed, after whitespace and comments, by
/// `}` or `]`.
fn comma_closes(c: &Vec<char>, i: usize) -> (b: bool)
    requires
        i < c.len(),
    ensures
        b == closes_after_ws(c@.skip(i + 1)),
{
    let len = c.len();
    let mut j = i + 1;
    loop
        invariant
            len == c.len(),
            i + 1 <= j <= len,
            closes_after_ws(c@.skip(i + 1)) == closes_after_ws(c@.skip(j as int)),
        decreases len - j,
    {
        if j >= len {
            assert(c@.skip(j as int).len() == 0);
            return false;
        }
        let ghost rest = c@.skip(j as int);
        assert(rest[0] == c@[j as int]);
        let ch = c[j];
        if ch == ' ' || ch == '\t' || ch == '\n' || ch == '\x0C' || ch == '\r' {
            assert(rest.drop_first() =~= c@.skip(j + 1));
            j += 1;
        } else if ch == '/' && j + 1 < len && c[j + 1] == '/' {
            assert(rest[1] == c@[j + 1]);
            assert(rest.skip(2) =~= c@.skip(j + 2));
            j = line_end(c, j + 2);
        } else if ch == '/' && j + 1 < len && c[j + 1] == '*' {
            assert(rest[1] == c@[j + 1]);
            assert(rest.skip(2) =~= c@.skip(j + 2));
            j = block_end(c, j + 2);
        } else {
            proof {
                if ch == '/' && j + 1 < len {
                    assert(rest[1] == c@[j + 1]);
                }
            }
            return ch == '}' || ch == ']';
        }
    }
}

/// Strip JSONC features (comments and trailing commas) to produce valid JSON.
///
/// tsconfig.json supports JSONC format: `//` line comments, `/* */` block comments,
/// and trailing commas before `}` or `]` (with only whitespace and comments
/// between). This function strips those so a JSON parser can read the
/// result. String literals are copied as they are.
pub fn strip_jsonc(input: &str) -> (r: String)
    ensures
        r@ == jsonc_plain(input@),
{
    let c = chars_of(input);
    let len = c.len();
    let mut out: Vec<char> = Vec::new();
    let mut i: usize = 0;
    let mut in_string = false;
    assert(c@.skip(0) =~= c@);
    while i < len
        invariant
            len == c.len(),
            i <= len,
            c@ == input@,
            out@ + (if in_string {
                jsonc_in_string(c@.skip(i as int))
            } else {
                jsonc_plain(c@.skip(i as int))
            }) == jsonc_plain(input@),
        decreases len - i,
    {
        let ghost rest = c@.skip(i as int);
        let ghost prev = out@;
        assert(rest[0] == c@[i as int]);
        if in_string {
            if c[i] == '\\' && i + 1 < len {
                assert(rest[1] == c@[i + 1]);
                assert(rest.skip(2) =~= c@.skip(i + 2));
                out.push(c[i]);
                out.push(c[i + 1]);
                assert(out@ + jsonc_in_string(c@.skip(i + 2)) =~= prev + (seq![rest[0], rest[1]]
                    + jsonc_in_string(rest.skip(2))));
                i += 2;
            } else if c[i] == '"' {
                assert(rest.drop_first() =~= c@.skip(i + 1));
                out.push('"');
                assert(out@ + jsonc_plain(c@.skip(i + 1)) =~= prev + (seq!['"'] + jsonc_plain(
                    rest.drop_first(),
                )));
                in_string = false;
                i += 1;
            } else {
                assert(rest.drop_first() =~= c@.skip(i + 1));
                out.push(c[i]);
                assert(out@ + jsonc_in_string(c@.skip(i + 1)) =~= prev + (seq![rest[0]]
                    + jsonc_in_string(rest.drop_first())));
                i += 1;
            }
        } else if c[i] == '"' {
            assert(rest.drop_first() =~= c@.skip(i + 1));
            out.push('"');
            assert(out@ + jsonc_in_string(c@.skip(i + 1)) =~= prev + (seq!['"'] + jsonc_in_string(
                rest.drop_first(),
            )));
            in_string = true;
            i += 1;
        } else if c[i] == '/' && i + 1 < len && c[i + 1] == '/' {
            assert(rest[1] == c@[i + 1]);
            assert(rest.skip(2) =~= c@.skip(i + 2));
            i = line_end(&c, i + 2);
        } else if c[i] == '/' && i + 1 < len && c[i + 1] == '*' {
            assert(rest[1] == c@[i + 1]);
            assert(rest.skip(2) =~= c@.skip(i + 2));
            i = block_end(&c, i + 2);
        } else if c[i] == ',' && comma_closes(&c, i) {
            assert(rest.drop_first() =~= c@.skip(i + 1));
            i += 1;
        } else {
            proof {
                if c[i as int] == '/' && i + 1 < len {
                    assert(rest[1] == c@[i + 1]);
                }
                if c[i as int] == ',' {
                    assert(rest.drop_first() =~= c@.skip(i + 1));
                }
            }
            assert(rest.drop_first() =~= c@.skip(i + 1));
            out.push(c[i]);
            assert(out@ + jsonc_plain(c@.skip(i + 1)) =~= prev + (seq![rest[0]] + jsonc_plain(
                rest.drop_first(),
            )));
            i += 1;
        }
    }
    proof {
        assert(c@.skip(len as int) =~= Seq::<char>::empty());
        assert(out@ + Seq::<char>::empty() =~= out@);
    }
    string_from(&out)
}

/// Stripping never makes the text longer.
pub proof fn lemma_strip_never_longer(cs: Seq<char>)
    ensures
        jsonc_plain(cs).len() <= cs.len(),
        jsonc_in_string(cs).len() <= cs.len(),
    decreases cs.len(),
{
    if cs.len() > 0 {
        lemma_strip_never_longer(cs.drop_first());
        if cs.len() > 1 {
            lemma_strip_never_longer(cs.skip(2));
            lemma_skip_lens(cs.skip(2));
            lemma_strip_never_longer(skip_line(cs.skip(2)));
            lemma_strip_never_longer(skip_block(cs.skip(2)));
        }
    }
}

/// Text without any `/` or `,` has nothing to strip: it comes back unchanged.
pub proof fn lemma_strip_plain_unchanged(cs: Seq<char>)
    requires
        !cs.contains('/'),
        !cs.contains(','),
    ensures
        jsonc_plain(cs) == cs,
        jsonc_in_string(cs) == cs,
    decreases cs.len(),
{
    if cs.len() > 0 {
        assert(!cs.drop_first().contains('/') && !cs.drop_first().contains(',')) by {
            if cs.drop_first().contains('/') {
                let k = choose|k: int| 0 <= k < cs.drop_first().len() && cs.drop_first()[k] == '/';
                assert(cs[k + 1] == '/');
            }
            if cs.drop_first().contains(',') {
                let k = choose|k: int| 0 <= k < cs.drop_first().len() && cs.drop_first()[k] == ',';
                assert(cs[k + 1] == ',');
            }
        }
        lemma_strip_plain_unchanged(cs.drop_first());
        assert(cs[0] != '/' && cs[0] != ',') by {
            assert(cs.contains(cs[0]));
        }
        if cs.len() > 1 {
            assert(!cs.skip(2).contains('/') && !cs.skip(2).contains(',')) by {
                if cs.skip(2).contains('/') {
                    let k = choose|k: int| 0 <= k < cs.skip(2).len() && cs.skip(2)[k] == '/';
                    assert(cs[k + 2] == '/');
                }
                if cs.skip(2).contains(',') {
                    let k = choose|k: int| 0 <= k < cs.skip(2).len() && cs.skip(2)[k] == ',';
                    assert(cs[k + 2] == ',');
                }
            }
            lemma_strip_plain_unchanged(cs.skip(2));
            assert(seq![cs[0], cs[1]] + cs.skip(2) =~= cs);
        }
        assert(seq![cs[0]] + cs.drop_first() =~= cs);
    }
}

} // verus!
