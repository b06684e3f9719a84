//! Version comparison rules used by `husako outdated`/`update`, and the
//! percent-encoding of ArtifactHub search queries.
use vstd::prelude::*;

use vstd::string::StringSliceAdditionalSpecFns;

use crate::text::{
    chars_of, count_char, count_of, has_prefix, seq_eq, starts_with, strip_one,
    strip_one_char, string_from,
};

verus! {

/// `version` matches the partial version `prefix`: after dropping one
/// leading `v` from each, they are equal or `version` starts with `prefix.`.
pub open spec fn spec_version_matches_prefix(version: Seq<char>, prefix: Seq<char>) -> bool {
    let v = strip_one(version, 'v');
    let p = strip_one(prefix, 'v');
    v == p || has_prefix(v, p + seq!['.'])
}

/// Return true if `version` matches a partial semver prefix.
///
/// Leading `v` is optional on both sides. Examples:
/// - `"16"` matches `"16.4.0"` and `"16.0.0"` but not `"17.0.0"`
/// - `"16.4"` matches `"16.4.0"` and `"16.4.1"` but not `"16.5.0"`
/// - `"16.4.0"` matches only `"16.4.0"` (exact)
pub fn version_matches_prefix(version: &str, prefix: &str) -> (r: bool)
    ensures
        r == spec_version_matches_prefix(version@, prefix@),
{
    let vs = chars_of(version);
    let ps = chars_of(prefix);
    let v = strip_one_char(&vs, 'v');
    let p = strip_one_char(&ps, 'v');
    if seq_eq(&v, &p) {
        return true;
    }
    let mut pd = p;
    pd.push('.');
    assert(pd@ =~= p@ + seq!['.']);
    starts_with(&v, &pd)
}

/// Two versions are equivalent: they are equal; or, after dropping one
/// leading `v` from each, they are equal, or the current one has at most
/// one `.` (a `major.minor` or `major` version) and the latest one is a
/// release of it: it continues the current one with a `.`.
pub open spec fn spec_versions_match(current: Seq<char>, latest: Seq<char>) -> bool {
    let c = strip_one(current, 'v');
    let l = strip_one(latest, 'v');
    if current == latest {
        true
    } else if count_char(c, '.') <= 1 {
        l == c || has_prefix(l, c + seq!['.'])
    } else {
        c == l
    }
}

/// Compare two version strings for equivalence.
///
/// Handles cases like "1.35" matching "1.35" from latest discovery,
/// and "v1.17.2" matching "v1.17.2".
pub fn versions_match(current: &str, latest: &str) -> (r: bool)
    ensures
        r == spec_versions_match(current@, latest@),
{
    let cur = chars_of(current);
    let lat = chars_of(latest);
    if seq_eq(&cur, &lat) {
        return true;
    }
    let c = strip_one_char(&cur, 'v');
    let l = strip_one_char(&lat, 'v');
    if count_of(&c, '.') <= 1 {
        if seq_eq(&l, &c) {
            return true;
        }
        let mut cd = c;
        cd.push('.');
        assert(cd@ =~= c@ + seq!['.']);
        return starts_with(&l, &cd);
    }
    seq_eq(&c, &l)
}

/// Every version is equivalent to itself.
pub proof fn lemma_versions_match_reflexive(v: Seq<char>)
    ensures
        spec_versions_match(v, v),
{
}

/// Every version matches itself as a prefix.
pub proof fn lemma_version_matches_prefix_reflexive(v: Seq<char>)
    ensures
        spec_version_matches_prefix(v, v),
{
}

/// A `major.minor` version is equivalent to every patch release of it.
pub proof fn lemma_minor_matches_patch(c: Seq<char>, patch: Seq<char>)
    requires
        count_char(c, '.') <= 1,
        c.len() > 0,
        c[0] != 'v',
    ensures
        spec_versions_match(c, c + seq!['.'] + patch),
{
    let l = c + seq!['.'] + patch;
    assert(l[0] == c[0]);
    assert(strip_one(l, 'v') == l);
    assert(l.subrange(0, c.len() as int + 1) =~= c + seq!['.']);
}

// ---------------------------------------------------------------------------
// Percent-encoding
// ---------------------------------------------------------------------------

/// Bytes left as they are: `A-Z a-z 0-9 - _ . ~`.
pub open spec fn is_unreserved(b: u8) -> bool {
    (65 <= b <= 90) || (97 <= b <= 122) || (48 <= b <= 57) || b == 45 || b == 95 || b == 46
        || b == 126
}

/// Upper-case hexadecimal digit for `n < 16`.
pub open spec fn hex_digit(n: u8) -> char {
    if n < 10 {
        (48 + n) as char
    } else {
        (55 + n) as char
    }
}

/// Value of an upper-case hexadecimal digit.
pub open spec fn hex_value(c: char) -> int {
    if '0' <= c <= '9' {
        c as int - 48
    } else {
        c as int - 55
    }
}

/// The encoding of one byte: itself if unreserved, `%XX` otherwise.
pub open spec fn encode_byte(b: u8) -> Seq<char> {
    if is_unreserved(b) {
        seq![b as char]
    } else {
        seq!['%', hex_digit(b / 16), hex_digit(b % 16)]
    }
}

/// The percent-encoding of a byte string.
pub open spec fn percent_encoded(bs: Seq<u8>) -> Seq<char>
    decreases bs.len(),
{
    if bs.len() == 0 {
        Seq::empty()
    } else {
        encode_byte(bs[0]) + percent_encoded(bs.drop_first())
    }
}

/// Reads a percent-encoded string back into bytes.
pub open spec fn percent_decoded(cs: Seq<char>) -> Seq<u8>
    decreases cs.len(),
{
    if cs.len() == 0 {
        Seq::empty()
    } else if cs[0] == '%' && cs.len() >= 3 {
        seq![(hex_value(cs[1]) * 16 + hex_value(cs[2])) as u8] + percent_decoded(cs.skip(3))
    } else {
        seq![cs[0] as u8] + percent_decoded(cs.skip(1))
    }
}

proof fn lemma_encoded_append(a: Seq<u8>, b: Seq<u8>)
    ensures
        percent_encoded(a + b) == percent_encoded(a) + percent_encoded(b),
    decreases a.len(),
{
    if a.len() == 0 {
        assert(a + b =~= b);
    } else {
        lemma_encoded_append(a.drop_first(), b);
        assert((a + b).drop_first() =~= a.drop_first() + b);
        assert((a + b)[0] == a[0]);
    }
}

proof fn lemma_hex_roundtrip(b: u8)
    ensures
        hex_value(hex_digit(b / 16)) * 16 + hex_value(hex_digit(b % 16)) == b,
        b / 16 < 16,
        b % 16 < 16,
{
}

proof fn lemma_decode_encode_byte(b: u8, rest: Seq<char>)
    ensures
        percent_decoded(encode_byte(b) + rest) == seq![b] + percent_decoded(rest),
{
    let e = encode_byte(b) + rest;
    if is_unreserved(b) {
        assert(e[0] == b as char);
        assert(e.skip(1) =~= rest);
        assert((b as char) as u8 == b);
    } else {
        lemma_hex_roundtrip(b);
        assert(e[0] == '%');
        assert(e.skip(3) =~= rest);
    }
}

/// Decoding an encoded byte string gives back the bytes.
pub proof fn lemma_percent_roundtrip(bs: Seq<u8>)
    ensures
        percent_decoded(percent_encoded(bs)) == bs,
    decreases bs.len(),
{
    if bs.len() > 0 {
        lemma_percent_roundtrip(bs.drop_first());
        lemma_decode_encode_byte(bs[0], percent_encoded(bs.drop_first()));
        assert(seq![bs[0]] + bs.drop_first() =~= bs);
    } else {
        assert(percent_decoded(Seq::<char>::empty()) =~= Seq::<u8>::empty());
    }
}

/// A character of percent-encoded text: `%` or one of the unreserved
/// characters `A-Z a-z 0-9 - _ . ~` (which include the hex digits).
pub open spec fn is_encoded_char(c: char) -> bool {
    c == '%' || ((c as u32) < 256 && is_unreserved((c as u32) as u8))
}

/// The length of the encoding of `bs`: one character for each unreserved
/// byte, three for each other byte.
pub open spec fn encoded_len(bs: Seq<u8>) -> nat
    decreases bs.len(),
{
    if bs.len() == 0 {
        0
    } else {
        (if is_unreserved(bs[0]) {
            1nat
        } else {
            3nat
        }) + encoded_len(bs.drop_first())
    }
}

/// Percent-encoded text uses only `%` and the unreserved characters, and
/// takes one character per unreserved byte and three per other byte.
pub proof fn lemma_percent_encoded_shape(bs: Seq<u8>)
    ensures
        percent_encoded(bs).len() == encoded_len(bs),
        forall|i: int| 0 <= i < percent_encoded(bs).len() ==> is_encoded_char(#[trigger] percent_encoded(bs)[i]),
    decreases bs.len(),
{
    if bs.len() > 0 {
        lemma_percent_encoded_shape(bs.drop_first());
        let b = bs[0];
        let head = encode_byte(b);
        let tail = percent_encoded(bs.drop_first());
        assert(percent_encoded(bs) == head + tail);
        assert forall|i: int| 0 <= i < head.len() implies is_encoded_char(#[trigger] head[i]) by {
            if is_unreserved(b) {
                assert(head[i] == b as char);
                assert(((b as char) as u32) == b as u32);
            } else {
                assert(b / 16 < 16 && b % 16 < 16);
                if i == 1 {
                    assert(head[1] == hex_digit(b / 16));
                } else if i == 2 {
                    assert(head[2] == hex_digit(b % 16));
                }
            }
        }
        assert forall|i: int| 0 <= i < percent_encoded(bs).len() implies is_encoded_char(
            #[trigger] percent_encoded(bs)[i],
        ) by {
            if i < head.len() {
                assert(percent_encoded(bs)[i] == head[i]);
            } else {
                assert(percent_encoded(bs)[i] == tail[i - head.len()]);
            }
        }
    }
}

/// The hexadecimal digit for `n < 16`.
fn hex_char(n: u8) -> (c: char)
    requires
        n < 16,
    ensures
        c == hex_digit(n),
{
    if n < 10 {
        (48 + n) as char
    } else {
        (55 + n) as char
    }
}

/// Percent-encodes the UTF-8 bytes of `s`, leaving `A-Z a-z 0-9 - _ . ~` as they are
/// and writing every other byte as `%XX` with upper-case hex digits.
pub fn percent_encode(s: &str) -> (out: String)
    ensures
        out@ == percent_encoded(s.spec_bytes()),
        out@.len() == encoded_len(s.spec_bytes()),
        forall|i: int| 0 <= i < out@.len() ==> is_encoded_char(#[trigger] out@[i]),
        percent_decoded(out@) == s.spec_bytes(),
{
    proof {
        lemma_percent_encoded_shape(s.spec_bytes());
        lemma_percent_roundtrip(s.spec_bytes());
    }
    let bytes = s.as_bytes();
    let mut out: Vec<char> = Vec::new();
    let mut i: usize = 0;
    while i < bytes.len()
        invariant
            i <= bytes.len(),
            bytes@ == s.spec_bytes(),
            out@ == percent_encoded(bytes@.take(i as int)),
        decreases bytes.len() - i,
    {
        let b = bytes[i];
        proof {
            lemma_encoded_append(bytes@.take(i as int), seq![b]);
            assert(bytes@.take(i as int) + seq![b] =~= bytes@.take(i + 1));
            assert(seq![b].drop_first() =~= Seq::<u8>::empty());
            assert(percent_encoded(Seq::<u8>::empty()) =~= Seq::<char>::empty());
            assert(seq![b][0] == b);
            assert(percent_encoded(seq![b]) =~= encode_byte(b));
        }
        if (65 <= b && b <= 90) || (97 <= b && b <= 122) || (48 <= b && b <= 57) || b == 45 || b
            == 95 || b == 46 || b == 126 {
            out.push(b as char);
        } else {
            out.push('%');
            out.push(hex_char(b / 16));
            out.push(hex_char(b % 16));
        }
        assert(out@ =~= percent_encoded(bytes@.take(i as int)) + encode_byte(b));
        i += 1;
    }
    assert(bytes@.take(bytes.len() as int) =~= bytes@);
    string_from(&out)
}

// ---------------------------------------------------------------------------
// ArtifactHub search results
// ---------------------------------------------------------------------------

/// A package found by an ArtifactHub search.
#[derive(Debug)]
pub struct ArtifactHubPackage {
    pub name: String,
    pub version: String,
    pub description: Option<String>,
    pub repository: ArtifactHubRepo,
}

/// The repository an ArtifactHub package belongs to.
#[derive(Debug)]
pub struct ArtifactHubRepo {
    pub name: String,
}

/// One page of ArtifactHub search results.
pub struct ArtifactHubSearchResult {
    pub packages: Vec<ArtifactHubPackage>,
    pub has_more: bool,
}

/// Number of packages shown per page of search results.
pub const ARTIFACTHUB_PAGE_SIZE: usize = 20;

/// Makes one page out of a search that asked for one package more than a
/// page holds: the page keeps the first `ARTIFACTHUB_PAGE_SIZE` packages, and
/// `has_more` says whether the search returned more than that.
pub fn artifacthub_page(packages: Vec<ArtifactHubPackage>) -> (r: ArtifactHubSearchResult)
    ensures
        r.has_more == (packages.len() > ARTIFACTHUB_PAGE_SIZE),
        r.packages@ == (if packages.len() > ARTIFACTHUB_PAGE_SIZE {
            packages@.take(ARTIFACTHUB_PAGE_SIZE as int)
        } else {
            packages@
        }),
{
    let has_more = packages.len() > ARTIFACTHUB_PAGE_SIZE;
    let mut packages = packages;
    packages.truncate(ARTIFACTHUB_PAGE_SIZE);
    ArtifactHubSearchResult { packages, has_more }
}

} // verus!
