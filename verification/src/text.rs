//! Character-sequence helpers shared by the parsers and formatters of the
//! library. Text is handled as `Vec<char>` inside the library and described
//! by `Seq<char>` in contracts.
use vstd::prelude::*;

verus! {

// ---------------------------------------------------------------------------
// Specifications
// ---------------------------------------------------------------------------

/// `p` is a prefix of `s`.
pub open spec fn has_prefix(s: Seq<char>, p: Seq<char>) -> bool {
    p.len() <= s.len() && s.subrange(0, p.len() as int) == p
}

/// `p` is a suffix of `s`.
pub open spec fn has_suffix(s: Seq<char>, p: Seq<char>) -> bool {
    p.len() <= s.len() && s.subrange(s.len() - p.len(), s.len() as int) == p
}

/// `p` occurs in `s` starting at position `i`.
pub open spec fn occurs_at(s: Seq<char>, p: Seq<char>, i: int) -> bool {
    0 <= i && i + p.len() <= s.len() && s.subrange(i, i + p.len()) == p
}

/// `p` occurs somewhere in `s` (the empty sequence occurs in every sequence).
pub open spec fn contains_seq(s: Seq<char>, p: Seq<char>) -> bool {
    exists|i: int| occurs_at(s, p, i)
}

/// Position of the first `c` in `s`, or `s.len()` when `c` does not occur.
pub open spec fn char_pos(s: Seq<char>, c: char) -> int
    decreases s.len(),
{
    if s.len() == 0 {
        0
    } else if s[0] == c {
        0
    } else {
        1 + char_pos(s.drop_first(), c)
    }
}

/// Number of occurrences of `c` in `s`.
pub open spec fn count_char(s: Seq<char>, c: char) -> nat
    decreases s.len(),
{
    if s.len() == 0 {
        0
    } else {
        (if s[0] == c { 1nat } else { 0nat }) + count_char(s.drop_first(), c)
    }
}

/// The pieces of `s` between occurrences of `c` (as `str::split` with a char).
pub open spec fn split_on(s: Seq<char>, c: char) -> Seq<Seq<char>>
    decreases s.len(),
{
    let i = char_pos(s, c);
    if i >= s.len() {
        seq![s]
    } else {
        proof {
            lemma_char_pos(s, c);
        }
        seq![s.take(i)] + split_on(s.skip(i + 1), c)
    }
}

/// The pieces joined back together with `sep` between them.
pub open spec fn join_with(parts: Seq<Seq<char>>, sep: Seq<char>) -> Seq<char>
    decreases parts.len(),
{
    if parts.len() == 0 {
        Seq::empty()
    } else if parts.len() == 1 {
        parts[0]
    } else {
        join_with(parts.drop_last(), sep) + sep + parts.last()
    }
}

/// `s` with every trailing repetition of `p` removed (as `str::trim_end_matches`).
pub open spec fn trim_end_seq(s: Seq<char>, p: Seq<char>) -> Seq<char>
    decreases s.len(),
{
    if p.len() > 0 && has_suffix(s, p) {
        trim_end_seq(s.take(s.len() - p.len()), p)
    } else {
        s
    }
}

/// `s` with every leading `c` removed (as `str::trim_start_matches` with a char).
pub open spec fn trim_start_char(s: Seq<char>, c: char) -> Seq<char>
    decreases s.len(),
{
    if s.len() > 0 && s[0] == c {
        trim_start_char(s.drop_first(), c)
    } else {
        s
    }
}

/// `s` with every trailing `c` removed (as `str::trim_end_matches` with a char).
pub open spec fn trim_end_char(s: Seq<char>, c: char) -> Seq<char>
    decreases s.len(),
{
    if s.len() > 0 && s.last() == c {
        trim_end_char(s.drop_last(), c)
    } else {
        s
    }
}

/// `s` without a single leading `c`, if it has one (as `strip_prefix(c).unwrap_or(s)`).
pub open spec fn strip_one(s: Seq<char>, c: char) -> Seq<char> {
    if s.len() > 0 && s[0] == c {
        s.drop_first()
    } else {
        s
    }
}

/// The piece of `s` after the last `c` (the first item of `str::rsplit`).
pub open spec fn after_last(s: Seq<char>, c: char) -> Seq<char> {
    split_on(s, c).last()
}

/// The piece of `s` before the first `c` (the first item of `str::split`).
pub open spec fn before_first(s: Seq<char>, c: char) -> Seq<char> {
    s.take(char_pos(s, c))
}

/// ASCII decimal digit.
pub open spec fn is_digit(c: char) -> bool {
    '0' <= c && c <= '9'
}

/// ASCII lowercase letter.
pub open spec fn is_lower(c: char) -> bool {
    'a' <= c && c <= 'z'
}

/// `s` with every occurrence of `from` replaced by `to`, scanning from the
/// left without overlaps (as `str::replace`, for a non-empty `from`).
pub open spec fn replace_all(s: Seq<char>, from: Seq<char>, to: Seq<char>) -> Seq<char>
    decreases s.len(),
{
    if s.len() == 0 || from.len() == 0 {
        s
    } else if has_prefix(s, from) {
        to + replace_all(s.skip(from.len() as int), from, to)
    } else {
        seq![s[0]] + replace_all(s.drop_first(), from, to)
    }
}

/// Number of occurrences of `p` in `s`, counted from the left without
/// overlaps (as `str::matches(..).count()`, for a non-empty `p`).
pub open spec fn count_matches(s: Seq<char>, p: Seq<char>) -> nat
    decreases s.len(),
{
    if s.len() == 0 || p.len() == 0 {
        0
    } else if has_prefix(s, p) {
        1 + count_matches(s.skip(p.len() as int), p)
    } else {
        count_matches(s.drop_first(), p)
    }
}

// ---------------------------------------------------------------------------
// Lemmas
// ---------------------------------------------------------------------------

/// The position of a character is that of its first occurrence, or the
/// length of the text when it does not occur.
pub proof fn lemma_char_pos(s: Seq<char>, c: char)
    ensures
        0 <= char_pos(s, c) <= s.len(),
        char_pos(s, c) < s.len() ==> s[char_pos(s, c)] == c,
        forall|j: int| 0 <= j < char_pos(s, c) ==> s[j] != c,
        char_pos(s, c) == s.len() <==> !s.contains(c),
    decreases s.len(),
{
    if s.len() > 0 && s[0] != c {
        lemma_char_pos(s.drop_first(), c);
        assert forall|j: int| 0 <= j < char_pos(s, c) implies s[j] != c by {
            if j > 0 {
                assert(s[j] == s.drop_first()[j - 1]);
            }
        }
        if !s.contains(c) {
            assert(!s.drop_first().contains(c)) by {
                if s.drop_first().contains(c) {
                    let k = choose|k: int| 0 <= k < s.drop_first().len() && s.drop_first()[k] == c;
                    assert(s[k + 1] == c);
                }
            }
        }
        if s.drop_first().contains(c) {
            let k = choose|k: int| 0 <= k < s.drop_first().len() && s.drop_first()[k] == c;
            assert(s[k + 1] == c);
        }
    }
    if s.len() > 0 && s[0] == c {
        assert(s.contains(c));
    }
}

/// Appending a character counts it once more when it is the one counted.
pub proof fn lemma_count_char_push(s: Seq<char>, x: char, c: char)
    ensures
        count_char(s.push(x), c) == count_char(s, c) + (if x == c { 1nat } else { 0nat }),
    decreases s.len(),
{
    if s.len() == 0 {
        assert(s.push(x).drop_first() =~= Seq::<char>::empty());
        assert(count_char(Seq::<char>::empty(), c) == 0);
        assert(s.push(x)[0] == x);
    } else {
        lemma_count_char_push(s.drop_first(), x, c);
        assert(s.push(x).drop_first() =~= s.drop_first().push(x));
        assert(s.push(x)[0] == s[0]);
    }
}

/// Joining one more part appends the separator and the part.
pub proof fn lemma_join_push(parts: Seq<Seq<char>>, x: Seq<char>, sep: Seq<char>)
    ensures
        join_with(parts.push(x), sep) == (if parts.len() == 0 { x } else { join_with(
            parts,
            sep,
        ) + sep + x }),
{
    assert(parts.push(x).drop_last() =~= parts);
    if parts.len() == 0 {
        assert(parts.push(x)[0] == x);
    }
}

// ---------------------------------------------------------------------------
// Executable helpers
// ---------------------------------------------------------------------------

/// Appends `c` to `s`.
/// Wraps `String::push`, whose documentation says it appends the given char
/// to the end of the string; the contract claims exactly that.
#[verifier::external_body]
fn string_push(s: &mut String, c: char)
    ensures
        final(s)@ == old(s)@.push(c),
{
    s.push(c);
}

/// The characters of `s`.
pub fn chars_of(s: &str) -> (v: Vec<char>)
    ensures
        v@ == s@,
{
    let mut v: Vec<char> = Vec::new();
    for c in it: s.chars()
        invariant
            v@ == it.seq().take(it.index() as int),
            it.seq() == s@,
    {
        v.push(c);
    }
    v
}

/// A `String` holding exactly the characters of `v`.
pub fn string_from(v: &Vec<char>) -> (s: String)
    ensures
        s@ == v@,
{
    let mut s = String::new();
    let mut i: usize = 0;
    while i < v.len()
        invariant
            i <= v.len(),
            s@ == v@.take(i as int),
        decreases v.len() - i,
    {
        string_push(&mut s, v[i]);
        assert(v@.take(i as int).push(v@[i as int]) =~= v@.take(i + 1));
        i += 1;
    }
    assert(v@.take(v.len() as int) =~= v@);
    s
}

/// Appends the characters of `src` to `dst`.
pub fn push_all(dst: &mut Vec<char>, src: &Vec<char>)
    ensures
        final(dst)@ == old(dst)@ + src@,
{
    let mut i: usize = 0;
    while i < src.len()
        invariant
            i <= src.len(),
            dst@ == old(dst)@ + src@.take(i as int),
        decreases src.len() - i,
    {
        dst.push(src[i]);
        assert(old(dst)@ + src@.take(i + 1) =~= (old(dst)@ + src@.take(i as int)).push(src@[i as int]));
        i += 1;
    }
    assert(src@.take(src.len() as int) =~= src@);
}

/// Appends the characters of the string slice `src` to `dst`.
pub fn push_str(dst: &mut Vec<char>, src: &str)
    ensures
        final(dst)@ == old(dst)@ + src@,
{
    let cs = chars_of(src);
    push_all(dst, &cs);
}

/// `a` and `b` hold the same characters.
pub fn seq_eq(a: &Vec<char>, b: &Vec<char>) -> (r: bool)
    ensures
        r == (a@ == b@),
{
    if a.len() != b.len() {
        return false;
    }
    let mut i: usize = 0;
    while i < a.len()
        invariant
            a.len() == b.len(),
            i <= a.len(),
            forall|j: int| 0 <= j < i ==> a@[j] == b@[j],
        decreases a.len() - i,
    {
        if a[i] != b[i] {
            return false;
        }
        i += 1;
    }
    assert(a@ =~= b@);
    true
}

/// `s` equals the string slice `lit`.
pub fn eq_str(s: &Vec<char>, lit: &str) -> (r: bool)
    ensures
        r == (s@ == lit@),
{
    let l = chars_of(lit);
    seq_eq(s, &l)
}

/// `s` and `p` agree on `p.len()` characters starting at `i`.
fn matches_at(s: &Vec<char>, p: &Vec<char>, i: usize) -> (r: bool)
    requires
        i + p.len() <= s.len(),
    ensures
        r == (s@.subrange(i as int, i + p.len()) == p@),
{
    let mut k: usize = 0;
    while k < p.len()
        invariant
            i + p.len() <= s.len(),
            k <= p.len(),
            forall|j: int| 0 <= j < k ==> s@[i + j] == p@[j],
        decreases p.len() - k,
    {
        if s[i + k] != p[k] {
            assert(s@.subrange(i as int, i + p.len())[k as int] != p@[k as int]);
            return false;
        }
        k += 1;
    }
    assert(s@.subrange(i as int, i + p.len()) =~= p@);
    true
}

/// `p` is a prefix of `s`.
pub fn starts_with(s: &Vec<char>, p: &Vec<char>) -> (r: bool)
    ensures
        r == has_prefix(s@, p@),
{
    if p.len() > s.len() {
        return false;
    }
    matches_at(s, p, 0)
}

/// The string slice `lit` is a prefix of `s`.
pub fn starts_with_str(s: &Vec<char>, lit: &str) -> (r: bool)
    ensures
        r == has_prefix(s@, lit@),
{
    let p = chars_of(lit);
    starts_with(s, &p)
}

/// `p` is a suffix of `s`.
pub fn ends_with(s: &Vec<char>, p: &Vec<char>) -> (r: bool)
    ensures
        r == has_suffix(s@, p@),
{
    if p.len() > s.len() {
        return false;
    }
    matches_at(s, p, s.len() - p.len())
}

/// `p` occurs in `s`.
pub fn contains(s: &Vec<char>, p: &Vec<char>) -> (r: bool)
    ensures
        r == contains_seq(s@, p@),
{
    if p.len() > s.len() {
        assert forall|i: int| !occurs_at(s@, p@, i) by {}
        return false;
    }
    let n = s.len() - p.len();
    let mut i: usize = 0;
    while i < n
        invariant
            p.len() <= s.len(),
            n == s.len() - p.len(),
            i <= n,
            forall|j: int| 0 <= j < i ==> !occurs_at(s@, p@, j),
        decreases n - i,
    {
        if matches_at(s, p, i) {
            assert(occurs_at(s@, p@, i as int));
            return true;
        }
        i += 1;
    }
    if matches_at(s, p, n) {
        assert(occurs_at(s@, p@, n as int));
        return true;
    }
    assert forall|j: int| !occurs_at(s@, p@, j) by {
        if 0 <= j && j + p.len() <= s.len() {
            assert(j <= n);
        }
    }
    false
}

/// The string slice `lit` occurs in `s`.
pub fn contains_str(s: &Vec<char>, lit: &str) -> (r: bool)
    ensures
        r == contains_seq(s@, lit@),
{
    let p = chars_of(lit);
    contains(s, &p)
}

/// `c` occurs in `s`.
pub fn contains_char(s: &Vec<char>, c: char) -> (r: bool)
    ensures
        r == s@.contains(c),
{
    let i = find_char(s, c);
    proof {
        lemma_char_pos(s@, c);
    }
    i < s.len()
}

/// Position of the first `c` in `s`, or `s.len()` when there is none.
pub fn find_char(s: &Vec<char>, c: char) -> (r: usize)
    ensures
        r == char_pos(s@, c),
{
    let mut i: usize = 0;
    while i < s.len()
        invariant
            i <= s.len(),
            forall|j: int| 0 <= j < i ==> s@[j] != c,
        decreases s.len() - i,
    {
        if s[i] == c {
            proof {
                lemma_char_pos(s@, c);
                if char_pos(s@, c) < i {
                    assert(s@[char_pos(s@, c)] == c);
                }
                if char_pos(s@, c) > i {
                    assert(s@[i as int] != c);
                }
            }
            return i;
        }
        i += 1;
    }
    proof {
        lemma_char_pos(s@, c);
        if char_pos(s@, c) < s.len() {
            assert(s@[char_pos(s@, c)] == c);
        }
    }
    i
}

/// Number of occurrences of `c` in `s`.
pub fn count_of(s: &Vec<char>, c: char) -> (r: usize)
    ensures
        r == count_char(s@, c),
{
    let mut n: usize = 0;
    let mut i: usize = 0;
    while i < s.len()
        invariant
            i <= s.len(),
            n == count_char(s@.take(i as int), c),
            n <= i,
        decreases s.len() - i,
    {
        proof {
            lemma_count_char_push(s@.take(i as int), s@[i as int], c);
            assert(s@.take(i as int).push(s@[i as int]) =~= s@.take(i + 1));
        }
        if s[i] == c {
            n += 1;
        }
        i += 1;
    }
    assert(s@.take(s.len() as int) =~= s@);
    n
}

/// The characters of `s` from `i` (inclusive) to `j` (exclusive).
pub fn slice(s: &Vec<char>, i: usize, j: usize) -> (r: Vec<char>)
    requires
        i <= j <= s.len(),
    ensures
        r@ == s@.subrange(i as int, j as int),
{
    let mut r: Vec<char> = Vec::new();
    let mut k: usize = i;
    while k < j
        invariant
            i <= k <= j <= s.len(),
            r@ == s@.subrange(i as int, k as int),
        decreases j - k,
    {
        r.push(s[k]);
        assert(s@.subrange(i as int, k + 1) =~= s@.subrange(i as int, k as int).push(s@[k as int]));
        k += 1;
    }
    r
}

/// The pieces of `s` between occurrences of `c`.
pub fn split(s: &Vec<char>, c: char) -> (r: Vec<Vec<char>>)
    ensures
        r.deep_view() == split_on(s@, c),
        r.len() >= 1,
    decreases s.len(),
{
    let i = find_char(s, c);
    proof {
        lemma_char_pos(s@, c);
    }
    if i >= s.len() {
        let mut r: Vec<Vec<char>> = Vec::new();
        r.push(slice(s, 0, s.len()));
        assert(s@.subrange(0, s.len() as int) =~= s@);
        assert(r.deep_view().len() == 1);
        assert(r.deep_view()[0] == s@);
        assert(r.deep_view() =~= seq![s@]);
        r
    } else {
        let head = slice(s, 0, i);
        let rest = slice(s, i + 1, s.len());
        let tail = split(&rest, c);
        let mut r: Vec<Vec<char>> = Vec::new();
        r.push(head);
        let mut k: usize = 0;
        while k < tail.len()
            invariant
                k <= tail.len(),
                r.len() == k + 1,
                r.deep_view()[0] == s@.take(i as int),
                forall|j: int| 0 <= j < k ==> r.deep_view()[j + 1] == tail.deep_view()[j],
            decreases tail.len() - k,
        {
            r.push(tail[k].clone());
            k += 1;
        }
        assert(rest@ =~= s@.skip(i + 1));
        assert(r.deep_view() =~= seq![s@.take(i as int)] + split_on(s@.skip(i + 1), c));
        r
    }
}

/// The pieces joined with `sep` between them.
pub fn join(parts: &Vec<Vec<char>>, sep: &Vec<char>) -> (r: Vec<char>)
    ensures
        r@ == join_with(parts.deep_view(), sep@),
{
    let mut r: Vec<char> = Vec::new();
    let mut k: usize = 0;
    while k < parts.len()
        invariant
            k <= parts.len(),
            r@ == join_with(parts.deep_view().take(k as int), sep@),
        decreases parts.len() - k,
    {
        proof {
            lemma_join_push(parts.deep_view().take(k as int), parts.deep_view()[k as int], sep@);
            assert(parts.deep_view().take(k as int).push(parts.deep_view()[k as int])
                =~= parts.deep_view().take(k + 1));
        }
        if k > 0 {
            push_all(&mut r, sep);
        }
        push_all(&mut r, &parts[k]);
        k += 1;
    }
    assert(parts.deep_view().take(parts.len() as int) =~= parts.deep_view());
    r
}

/// `s` with every occurrence of `from` replaced by `to`.
pub fn replace(s: &Vec<char>, from: &Vec<char>, to: &Vec<char>) -> (r: Vec<char>)
    ensures
        r@ == replace_all(s@, from@, to@),
{
    if from.len() == 0 {
        return slice(s, 0, s.len());
    }
    let mut out: Vec<char> = Vec::new();
    let mut i: usize = 0;
    assert(s@.skip(0) =~= s@);
    assert(out@ + replace_all(s@, from@, to@) =~= replace_all(s@, from@, to@));
    while i < s.len()
        invariant
            from.len() > 0,
            i <= s.len(),
            out@ + replace_all(s@.skip(i as int), from@, to@) == replace_all(s@, from@, to@),
        decreases s.len() - i,
    {
        let ghost rest = s@.skip(i as int);
        if from.len() <= s.len() - i && matches_at(s, from, i) {
            assert(has_prefix(rest, from@)) by {
                assert(rest.subrange(0, from@.len() as int) =~= s@.subrange(i as int, i + from@.len()));
            }
            assert(rest.skip(from@.len() as int) =~= s@.skip(i + from.len()));
            let ghost prev = out@;
            push_all(&mut out, to);
            assert(out@ + replace_all(s@.skip(i + from.len()), from@, to@) =~= prev + (to@
                + replace_all(s@.skip(i + from.len()), from@, to@)));
            i += from.len();
        } else {
            assert(!has_prefix(rest, from@)) by {
                if has_prefix(rest, from@) {
                    assert(rest.subrange(0, from@.len() as int) =~= s@.subrange(i as int, i + from@.len()));
                }
            }
            assert(rest.drop_first() =~= s@.skip(i + 1));
            assert(rest[0] == s@[i as int]);
            let ghost prev = out@;
            out.push(s[i]);
            assert(out@ + replace_all(s@.skip(i + 1), from@, to@) =~= prev + (seq![s@[i as int]]
                + replace_all(s@.skip(i + 1), from@, to@)));
            i += 1;
        }
    }
    assert(s@.skip(s.len() as int) =~= Seq::<char>::empty());
    assert(out@ + Seq::<char>::empty() =~= out@);
    out
}

/// `s` with every trailing repetition of `p` removed.
pub fn trim_end_matches(s: &Vec<char>, p: &Vec<char>) -> (r: Vec<char>)
    ensures
        r@ == trim_end_seq(s@, p@),
    decreases s.len(),
{
    if p.len() > 0 && ends_with(s, p) {
        let shorter = slice(s, 0, s.len() - p.len());
        assert(shorter@ =~= s@.take(s.len() - p.len()));
        trim_end_matches(&shorter, p)
    } else {
        slice(s, 0, s.len())
    }
}

/// `s` with every leading `c` removed.
pub fn trim_start_matches(s: &Vec<char>, c: char) -> (r: Vec<char>)
    ensures
        r@ == trim_start_char(s@, c),
    decreases s.len(),
{
    if s.len() > 0 && s[0] == c {
        let rest = slice(s, 1, s.len());
        assert(rest@ =~= s@.drop_first());
        trim_start_matches(&rest, c)
    } else {
        slice(s, 0, s.len())
    }
}

/// `s` with every trailing `c` removed.
pub fn trim_end_char_matches(s: &Vec<char>, c: char) -> (r: Vec<char>)
    ensures
        r@ == trim_end_char(s@, c),
    decreases s.len(),
{
    if s.len() > 0 && s[s.len() - 1] == c {
        let rest = slice(s, 0, s.len() - 1);
        assert(rest@ =~= s@.drop_last());
        trim_end_char_matches(&rest, c)
    } else {
        slice(s, 0, s.len())
    }
}

/// `s` without one leading `c`, if it has one.
pub fn strip_one_char(s: &Vec<char>, c: char) -> (r: Vec<char>)
    ensures
        r@ == strip_one(s@, c),
{
    if s.len() > 0 && s[0] == c {
        slice(s, 1, s.len())
    } else {
        slice(s, 0, s.len())
    }
}

/// The piece of `s` after the last `c`.
pub fn after_last_char(s: &Vec<char>, c: char) -> (r: Vec<char>)
    ensures
        r@ == after_last(s@, c),
{
    let parts = split(s, c);
    let n = parts.len();
    assert(parts.deep_view()[n - 1] == parts[n - 1]@);
    parts[n - 1].clone()
}

/// The piece of `s` before the first `c`.
pub fn before_first_char(s: &Vec<char>, c: char) -> (r: Vec<char>)
    ensures
        r@ == before_first(s@, c),
{
    let i = find_char(s, c);
    proof {
        lemma_char_pos(s@, c);
    }
    slice(s, 0, i)
}

/// Number of occurrences of `p` in `s`, from the left without overlaps.
pub fn count_matches_of(s: &Vec<char>, p: &Vec<char>) -> (r: usize)
    requires
        p@.len() > 0,
    ensures
        r == count_matches(s@, p@),
        r * p@.len() <= s@.len(),
{
    let mut n: usize = 0;
    let mut i: usize = 0;
    assert(s@.skip(0) =~= s@);
    while i < s.len()
        invariant
            p@.len() > 0,
            i <= s.len(),
            n * p@.len() <= i,
            n + count_matches(s@.skip(i as int), p@) == count_matches(s@, p@),
        decreases s.len() - i,
    {
        let ghost rest = s@.skip(i as int);
        if p.len() <= s.len() - i && matches_at(s, p, i) {
            assert(has_prefix(rest, p@)) by {
                assert(rest.subrange(0, p@.len() as int) =~= s@.subrange(i as int, i + p@.len()));
            }
            assert(rest.skip(p@.len() as int) =~= s@.skip(i + p.len()));
            assert((n + 1) * p@.len() == n * p@.len() + p@.len()) by (nonlinear_arith);
            assert(n + 1 <= (n + 1) * p@.len()) by (nonlinear_arith)
                requires
                    p@.len() >= 1,
            ;
            n += 1;
            i += p.len();
        } else {
            assert(!has_prefix(rest, p@)) by {
                if has_prefix(rest, p@) {
                    assert(rest.subrange(0, p@.len() as int) =~= s@.subrange(i as int, i + p@.len()));
                }
            }
            assert(rest.drop_first() =~= s@.skip(i + 1));
            i += 1;
        }
    }
    assert(s@.skip(s.len() as int) =~= Seq::<char>::empty());
    n
}

} // verus!
