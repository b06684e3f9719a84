//! Choosing versions from what a source offers: the newest stable release,
//! the newest one matching a partial version, and pages of versions sorted
//! newest first. The offers come from GitHub tag listings, Helm registry
//! indexes, ArtifactHub packages and `git ls-remote` output; the caller
//! fetches them and hands over the texts.
//!
//! Versions are read by `semver::Version::parse` and ordered as semver
//! orders them: by their `major.minor.patch` numbers, and between equal
//! numbers by semver's own comparison, which looks at the build metadata.
use vstd::prelude::*;

use crate::bench::{decimal, decimal_of};
use crate::text::{
    chars_of, contains_char, push_all, push_str, seq_eq, split, split_on, starts_with_str,
    strip_one, strip_one_char, string_from, slice, has_prefix, trim_end_seq, trim_end_matches,
};
use crate::url_detect::opt_view;
use crate::version_check::{spec_version_matches_prefix, version_matches_prefix};

verus! {

// ---------------------------------------------------------------------------
// Reading and ordering versions
// ---------------------------------------------------------------------------

/// What `semver::Version::parse` reads from `text`: the major, minor and
/// patch numbers, and whether the version has no pre-release part; `None`
/// where the text is not a semantic version.
pub uninterp spec fn semver_of(text: Seq<char>) -> Option<(u64, u64, u64, bool)>;

/// Calls `semver::Version::parse` and hands back the three numbers and
/// whether the pre-release part is empty. Claims only that the result is
/// what the parser gives for this text.
#[verifier::external_body]
fn parse_semver(text: &str) -> (r: Option<(u64, u64, u64, bool)>)
    ensures
        r == semver_of(text@),
{
    match semver::Version::parse(text) {
        Ok(v) => Some((v.major, v.minor, v.patch, v.pre.is_empty())),
        Err(_) => None,
    }
}

/// Whether `semver::Version::parse` reads `a` as a version that orders
/// before the one it reads from `b` (`false` when either does not parse).
pub uninterp spec fn semver_lt(a: Seq<char>, b: Seq<char>) -> bool;

/// Parses both texts with `semver::Version::parse` and compares the versions
/// with semver's own order, which looks at the major, minor and patch
/// numbers, then the pre-release and then the build metadata. Claims only
/// that the answer is semver's for these two texts; nothing is said of how
/// that order treats build metadata.
#[verifier::external_body]
fn semver_older(a: &str, b: &str) -> (r: bool)
    ensures
        r == semver_lt(a@, b@),
{
    match (semver::Version::parse(a), semver::Version::parse(b)) {
        (Ok(x), Ok(y)) => x < y,
        _ => false,
    }
}

/// `a` comes before `b` in numeric version order.
pub open spec fn older(a: (u64, u64, u64), b: (u64, u64, u64)) -> bool {
    a.0 < b.0 || (a.0 == b.0 && (a.1 < b.1 || (a.1 == b.1 && a.2 < b.2)))
}

/// A version read from a text, with the text as listed.
pub type VersionItem = ((u64, u64, u64), String);

/// The item `a` orders before `b` the way semver orders their versions: by
/// the major, minor and patch numbers, and between equal numbers by
/// semver's comparison of the versions read from the texts (after one
/// leading `v`), which decides by the build metadata.
pub open spec fn item_older(a: ((u64, u64, u64), Seq<char>), b: ((u64, u64, u64), Seq<char>)) -> bool {
    older(a.0, b.0) || (a.0 == b.0 && semver_lt(strip_one(a.1, 'v'), strip_one(b.1, 'v')))
}

fn is_older_item(a: &VersionItem, b: &VersionItem) -> (r: bool)
    ensures
        r == item_older((a.0, a.1@), (b.0, b.1@)),
{
    let x = a.0;
    let y = b.0;
    if x.0 < y.0 || (x.0 == y.0 && (x.1 < y.1 || (x.1 == y.1 && x.2 < y.2))) {
        true
    } else if x.0 == y.0 && x.1 == y.1 && x.2 == y.2 {
        let sa = string_from(&strip_one_char(&chars_of(a.1.as_str()), 'v'));
        let sb = string_from(&strip_one_char(&chars_of(b.1.as_str()), 'v'));
        semver_older(sa.as_str(), sb.as_str())
    } else {
        false
    }
}

/// `x` placed after every leading item that does not order before it.
pub open spec fn insert_newest_first(s: Seq<((u64, u64, u64), Seq<char>)>, x: ((u64, u64, u64), Seq<char>)) -> Seq<
    ((u64, u64, u64), Seq<char>),
>
    decreases s.len(),
{
    if s.len() == 0 {
        seq![x]
    } else if item_older(s[0], x) {
        seq![x] + s
    } else {
        seq![s[0]] + insert_newest_first(s.drop_first(), x)
    }
}

/// The items sorted newest first in semver's order; items whose versions
/// are equal keep their order.
pub open spec fn newest_first(s: Seq<((u64, u64, u64), Seq<char>)>) -> Seq<((u64, u64, u64), Seq<char>)>
    decreases s.len(),
{
    if s.len() == 0 {
        s
    } else {
        insert_newest_first(newest_first(s.drop_last()), s.last())
    }
}

/// The items are sorted newest first by their version numbers.
pub open spec fn is_newest_first(s: Seq<((u64, u64, u64), Seq<char>)>) -> bool {
    forall|i: int, j: int| 0 <= i < j < s.len() ==> !older(s[i].0, s[j].0)
}

proof fn lemma_insert_at(s: Seq<((u64, u64, u64), Seq<char>)>, x: ((u64, u64, u64), Seq<char>), j: int)
    requires
        0 <= j <= s.len(),
        forall|k: int| 0 <= k < j ==> !item_older(#[trigger] s[k], x),
        j == s.len() || item_older(s[j], x),
    ensures
        insert_newest_first(s, x) == s.take(j) + seq![x] + s.skip(j),
    decreases j,
{
    if j == 0 {
        assert(s.take(0) + seq![x] + s.skip(0) =~= seq![x] + s);
        if s.len() == 0 {
            assert(seq![x] + s =~= seq![x]);
        }
    } else {
        let t = s.drop_first();
        assert forall|k: int| 0 <= k < j - 1 implies !item_older(#[trigger] t[k], x) by {
            assert(t[k] == s[k + 1]);
        }
        if j < s.len() {
            assert(t[j - 1] == s[j]);
        }
        lemma_insert_at(t, x, j - 1);
        assert(seq![s[0]] + (t.take(j - 1) + seq![x] + t.skip(j - 1)) =~= s.take(j) + seq![x]
            + s.skip(j));
    }
}

proof fn lemma_insert_keeps_order(s: Seq<((u64, u64, u64), Seq<char>)>, x: ((u64, u64, u64), Seq<char>))
    ensures
        exists|j: int|
            0 <= j <= s.len() && insert_newest_first(s, x) == s.insert(j, x),
        is_newest_first(s) ==> is_newest_first(insert_newest_first(s, x)),
    decreases s.len(),
{
    let r = insert_newest_first(s, x);
    if s.len() == 0 {
        assert(r =~= s.insert(0, x));
    } else if item_older(s[0], x) {
        assert(r =~= s.insert(0, x));
        if is_newest_first(s) {
            assert forall|i: int, j: int| 0 <= i < j < r.len() implies !older(r[i].0, r[j].0) by {
                if i == 0 {
                    assert(r[i] == x);
                    assert(r[j] == s[j - 1]);
                    if j - 1 > 0 {
                        assert(!older(s[0].0, s[j - 1].0));
                    }
                } else {
                    assert(r[i] == s[i - 1] && r[j] == s[j - 1]);
                    assert(!older(s[i - 1].0, s[j - 1].0));
                }
            }
        }
    } else {
        let t = s.drop_first();
        lemma_insert_keeps_order(t, x);
        let u = insert_newest_first(t, x);
        let k = choose|k: int| 0 <= k <= t.len() && u == t.insert(k, x);
        assert(r == seq![s[0]] + u);
        assert(r =~= s.insert(k + 1, x));
        if is_newest_first(s) {
            assert(is_newest_first(t)) by {
                assert forall|i: int, j: int| 0 <= i < j < t.len() implies !older(
                    t[i].0,
                    t[j].0,
                ) by {
                    assert(t[i] == s[i + 1] && t[j] == s[j + 1]);
                    assert(!older(s[i + 1].0, s[j + 1].0));
                }
            }
            assert forall|i: int, j: int| 0 <= i < j < r.len() implies !older(r[i].0, r[j].0) by {
                if i == 0 {
                    assert(r[0] == s[0]);
                    if j - 1 < k {
                        assert(r[j] == s[j]);
                        assert(!older(s[0].0, s[j].0));
                    } else if j - 1 > k {
                        assert(r[j] == s[j - 1]);
                        assert(!older(s[0].0, s[j - 1].0));
                    } else {
                        assert(r[j] == x);
                    }
                } else {
                    assert(r[i] == u[i - 1] && r[j] == u[j - 1]);
                    assert(!older(u[i - 1].0, u[j - 1].0));
                }
            }
        }
    }
}

/// Sorting newest first gives the items in an order in which no item's
/// version numbers are older than those of one after it, and loses or adds
/// none.
pub proof fn lemma_newest_first_sorted(s: Seq<((u64, u64, u64), Seq<char>)>)
    ensures
        is_newest_first(newest_first(s)),
        newest_first(s).to_multiset() == s.to_multiset(),
    decreases s.len(),
{
    broadcast use vstd::seq_lib::group_to_multiset_ensures;

    if s.len() > 0 {
        let t = s.drop_last();
        lemma_newest_first_sorted(t);
        lemma_insert_keeps_order(newest_first(t), s.last());
        let j = choose|j: int|
            0 <= j <= newest_first(t).len() && insert_newest_first(newest_first(t), s.last())
                == newest_first(t).insert(j, s.last());
        assert(s =~= t.push(s.last()));
    }
}

/// The items with each text taken by its view.
pub open spec fn viewed(s: Seq<VersionItem>) -> Seq<((u64, u64, u64), Seq<char>)> {
    s.map_values(|e: VersionItem| (e.0, e.1@))
}

/// Sorts the items newest first in semver's order, keeping the order of
/// equal versions.
pub fn sort_newest_first(items: Vec<VersionItem>) -> (r: Vec<VersionItem>)
    ensures
        viewed(r@) == newest_first(viewed(items@)),
{
    let ghost orig = items@;
    let mut rest = items;
    let mut out: Vec<VersionItem> = Vec::new();
    let n = rest.len();
    let mut i: usize = 0;
    while i < n
        invariant
            n == orig.len(),
            i <= n,
            rest@ == orig.skip(i as int),
            viewed(out@) == newest_first(viewed(orig.take(i as int))),
        decreases n - i,
    {
        let x = rest.remove(0);
        assert(x == orig[i as int]);
        let mut j: usize = 0;
        while j < out.len() && !is_older_item(&out[j], &x)
            invariant
                j <= out@.len(),
                forall|k: int| 0 <= k < j ==> !item_older(#[trigger] viewed(out@)[k], (x.0, x.1@)),
            decreases out@.len() - j,
        {
            assert(viewed(out@)[j as int] == (out@[j as int].0, out@[j as int].1@));
            j += 1;
        }
        proof {
            if j < out@.len() {
                assert(viewed(out@)[j as int] == (out@[j as int].0, out@[j as int].1@));
            }
            lemma_insert_at(viewed(out@), (x.0, x.1@), j as int);
            assert(viewed(orig.take(i + 1)).drop_last() =~= viewed(orig.take(i as int)));
            assert(viewed(orig.take(i + 1)).last() == (x.0, x.1@));
        }
        let ghost before = out@;
        out.insert(j, x);
        assert(viewed(out@) =~= viewed(before).take(j as int) + seq![(x.0, x.1@)] + viewed(before).skip(j as int));
        assert(viewed(out@) =~= newest_first(viewed(orig.take(i + 1))));
        proof {
            assert(rest@ =~= orig.skip(i + 1));
        }
        i += 1;
    }
    assert(orig.take(n as int) =~= orig);
    out
}

/// The items from position `offset` on, at most `limit` of them.
pub open spec fn page<T>(s: Seq<T>, offset: int, limit: int) -> Seq<T> {
    let start = if offset < s.len() { offset } else { s.len() as int };
    let end = if limit <= s.len() - start { start + limit } else { s.len() as int };
    s.subrange(start, end)
}

/// A page holds at most `limit` items, and they are the items of the list
/// from position `offset` on, in order.
pub proof fn lemma_page_bounds<T>(s: Seq<T>, offset: int, limit: int)
    requires
        offset >= 0,
        limit >= 0,
    ensures
        page(s, offset, limit).len() <= limit,
        forall|i: int|
            0 <= i < page(s, offset, limit).len() ==> #[trigger] page(s, offset, limit)[i] == s[offset
                + i],
{
}

/// The items from position `offset` on, at most `limit` of them (as
/// `skip(offset).take(limit)`).
pub fn take_page<T>(items: Vec<T>, offset: usize, limit: usize) -> (r: Vec<T>)
    ensures
        r@ == page(items@, offset as int, limit as int),
{
    let ghost orig = items@;
    let len = items.len();
    let start = if offset < len { offset } else { len };
    let end = if limit <= len - start { start + limit } else { len };
    let mut rest = items;
    let mut out: Vec<T> = Vec::new();
    let mut i: usize = 0;
    while i < end
        invariant
            len == orig.len(),
            start <= end <= len,
            i <= end,
            i < start ==> out@.len() == 0,
            i >= start ==> out@ == orig.subrange(start as int, i as int),
            rest@ == orig.skip(i as int),
        decreases end - i,
    {
        let x = rest.remove(0);
        assert(x == orig[i as int]);
        if i >= start {
            out.push(x);
            assert(out@ =~= orig.subrange(start as int, i + 1));
        } else if i + 1 == start {
            assert(orig.subrange(start as int, start as int) =~= Seq::<T>::empty());
        }
        assert(rest@ =~= orig.skip(i + 1));
        i += 1;
    }
    if end == start {
        assert(out@ =~= orig.subrange(start as int, end as int));
    }
    out
}

/// The first of the newest items: an item replaces the one kept only when
/// its version is newer in semver's order.
pub open spec fn newest(s: Seq<((u64, u64, u64), Seq<char>)>) -> Option<((u64, u64, u64), Seq<char>)>
    decreases s.len(),
{
    if s.len() == 0 {
        None
    } else {
        match newest(s.drop_last()) {
            None => Some(s.last()),
            Some(b) => if item_older(b, s.last()) {
                Some(s.last())
            } else {
                Some(b)
            },
        }
    }
}

/// The newest item is one of the items, and no item's version numbers are
/// newer.
pub proof fn lemma_newest_is_greatest(s: Seq<((u64, u64, u64), Seq<char>)>)
    ensures
        newest(s) is None <==> s.len() == 0,
        newest(s) matches Some(b) ==> s.contains(b) && forall|i: int|
            0 <= i < s.len() ==> !older(b.0, #[trigger] s[i].0),
    decreases s.len(),
{
    if s.len() > 0 {
        let t = s.drop_last();
        lemma_newest_is_greatest(t);
        match newest(t) {
            None => {
                assert(s[s.len() - 1] == s.last());
            },
            Some(b) => {
                let k = choose|k: int| 0 <= k < t.len() && t[k] == b;
                assert(s[k] == b);
                assert(s[s.len() - 1] == s.last());
                assert forall|i: int| 0 <= i < s.len() implies !older(
                    newest(s).unwrap().0,
                    #[trigger] s[i].0,
                ) by {
                    if i < s.len() - 1 {
                        assert(s[i] == t[i]);
                    }
                }
            },
        }
    }
}

/// Picks the newest item, the first of them where several are newest.
pub fn pick_newest(items: Vec<VersionItem>) -> (r: Option<VersionItem>)
    ensures
        match newest(viewed(items@)) {
            Some(b) => r matches Some(x) && (x.0, x.1@) == b,
            None => r is None,
        },
{
    let ghost orig = items@;
    let mut rest = items;
    let mut best: Option<VersionItem> = None;
    let n = rest.len();
    let mut i: usize = 0;
    while i < n
        invariant
            n == orig.len(),
            i <= n,
            rest@ == orig.skip(i as int),
            match newest(viewed(orig.take(i as int))) {
                Some(b) => best matches Some(x) && (x.0, x.1@) == b,
                None => best is None,
            },
        decreases n - i,
    {
        let x = rest.remove(0);
        assert(x == orig[i as int]);
        proof {
            assert(viewed(orig.take(i + 1)).drop_last() =~= viewed(orig.take(i as int)));
            assert(viewed(orig.take(i + 1)).last() == (x.0, x.1@));
        }
        let replace = match &best {
            None => true,
            Some(b) => is_older_item(b, &x),
        };
        if replace {
            best = Some(x);
        }
        assert(rest@ =~= orig.skip(i + 1));
        i += 1;
    }
    assert(orig.take(n as int) =~= orig);
    best
}

// ---------------------------------------------------------------------------
// Kubernetes releases from GitHub tag names
// ---------------------------------------------------------------------------

/// The views of optional texts.
pub open spec fn opt_texts(v: Seq<Option<String>>) -> Seq<Option<Seq<char>>> {
    v.map_values(|o: Option<String>| opt_view(o))
}

/// The views of texts.
pub open spec fn texts(v: Seq<String>) -> Seq<Seq<char>> {
    v.map_values(|t: String| t@)
}

/// A tag name read as a release: after dropping one leading `v` it holds
/// no `-` and parses as a version.
pub open spec fn release_of(name: Seq<char>) -> Option<(u64, u64, u64)> {
    let s = strip_one(name, 'v');
    if s.contains('-') {
        None
    } else {
        match semver_of(s) {
            Some(p) => Some((p.0, p.1, p.2)),
            None => None,
        }
    }
}

/// The releases named by the tags, in order, each with its tag name (a tag
/// without a name is passed over).
pub open spec fn releases(names: Seq<Option<Seq<char>>>) -> Seq<((u64, u64, u64), Seq<char>)>
    decreases names.len(),
{
    if names.len() == 0 {
        Seq::empty()
    } else {
        let rest = releases(names.drop_last());
        match names.last() {
            Some(n) => match release_of(n) {
                Some(v) => rest.push((v, n)),
                None => rest,
            },
            None => rest,
        }
    }
}

/// Some item has the major and minor numbers of `v`.
pub open spec fn has_minor<T>(s: Seq<((u64, u64, u64), T)>, v: (u64, u64, u64)) -> bool {
    exists|i: int| 0 <= i < s.len() && (#[trigger] s[i]).0.0 == v.0 && s[i].0.1 == v.1
}

/// The items, keeping only the first of each `major.minor`.
pub open spec fn first_per_minor<T>(s: Seq<((u64, u64, u64), T)>) -> Seq<((u64, u64, u64), T)>
    decreases s.len(),
{
    if s.len() == 0 {
        s
    } else {
        let d = first_per_minor(s.drop_last());
        if has_minor(d, s.last().0) {
            d
        } else {
            d.push(s.last())
        }
    }
}

/// Keeping the first of each minor release leaves no two items of the same
/// `major.minor`.
pub proof fn lemma_one_per_minor<T>(s: Seq<((u64, u64, u64), T)>)
    ensures
        forall|i: int, j: int|
            0 <= i < j < first_per_minor(s).len() ==> !((#[trigger] first_per_minor(s)[i]).0.0
                == (#[trigger] first_per_minor(s)[j]).0.0 && first_per_minor(s)[i].0.1
                == first_per_minor(s)[j].0.1),
    decreases s.len(),
{
    if s.len() > 0 {
        lemma_one_per_minor(s.drop_last());
        let d = first_per_minor(s.drop_last());
        if !has_minor(d, s.last().0) {
            let r = d.push(s.last());
            assert forall|i: int, j: int| 0 <= i < j < r.len() implies !(r[i].0.0 == r[j].0.0
                && r[i].0.1 == r[j].0.1) by {
                if j == r.len() - 1 {
                    assert(r[i] == d[i]);
                    if r[i].0.0 == r[j].0.0 && r[i].0.1 == r[j].0.1 {
                        assert(d[i].0.0 == s.last().0.0 && d[i].0.1 == s.last().0.1);
                    }
                } else {
                    assert(r[i] == d[i] && r[j] == d[j]);
                }
            }
        }
    }
}

/// `major.minor` of a version.
pub open spec fn minor_text(v: (u64, u64, u64)) -> Seq<char> {
    decimal(v.0 as nat) + seq!['.'] + decimal(v.1 as nat)
}

/// The `major.minor` lines of the tagged releases, one per line, newest
/// first, from position `offset` on and at most `limit` of them.
pub open spec fn recent_releases_of(names: Seq<Option<Seq<char>>>, limit: int, offset: int) -> Seq<
    Seq<char>,
> {
    page(newest_first(first_per_minor(releases(names))), offset, limit).map_values(
        |e: ((u64, u64, u64), Seq<char>)| minor_text(e.0),
    )
}

/// The newest release among the tags, as `major.minor`.
pub open spec fn latest_release_of(names: Seq<Option<Seq<char>>>) -> Option<Seq<char>> {
    match newest(releases(names)) {
        Some(e) => Some(minor_text(e.0)),
        None => None,
    }
}

fn release_of_name(name: &str) -> (r: Option<(u64, u64, u64)>)
    ensures
        r == release_of(name@),
{
    let cs = chars_of(name);
    let s = strip_one_char(&cs, 'v');
    if contains_char(&s, '-') {
        None
    } else {
        let t = string_from(&s);
        match parse_semver(t.as_str()) {
            Some(p) => Some((p.0, p.1, p.2)),
            None => None,
        }
    }
}

fn releases_in(names: &Vec<Option<String>>) -> (r: Vec<VersionItem>)
    ensures
        viewed(r@) == releases(opt_texts(names@)),
{
    let ghost all = opt_texts(names@);
    let mut out: Vec<VersionItem> = Vec::new();
    let mut i: usize = 0;
    while i < names.len()
        invariant
            i <= names@.len(),
            all == opt_texts(names@),
            viewed(out@) == releases(all.take(i as int)),
        decreases names@.len() - i,
    {
        proof {
            assert(all.take(i + 1).drop_last() =~= all.take(i as int));
            assert(all.take(i + 1).last() == opt_view(names@[i as int]));
        }
        match &names[i] {
            Some(n) => {
                match release_of_name(n.as_str()) {
                    Some(v) => {
                        let ghost before = out@;
                        out.push((v, n.clone()));
                        assert(viewed(out@) =~= viewed(before).push((v, n@)));
                    },
                    None => {},
                }
            },
            None => {},
        }
        i += 1;
    }
    assert(all.take(names@.len() as int) =~= all);
    out
}

fn find_minor<T>(s: &Vec<((u64, u64, u64), T)>, v: (u64, u64, u64)) -> (r: bool)
    ensures
        r == has_minor(s@, v),
{
    let mut i: usize = 0;
    while i < s.len()
        invariant
            i <= s@.len(),
            forall|k: int| 0 <= k < i ==> !((#[trigger] s@[k]).0.0 == v.0 && s@[k].0.1 == v.1),
        decreases s@.len() - i,
    {
        if s[i].0.0 == v.0 && s[i].0.1 == v.1 {
            return true;
        }
        i += 1;
    }
    false
}

fn keep_first_per_minor<T>(items: Vec<((u64, u64, u64), T)>) -> (r: Vec<((u64, u64, u64), T)>)
    ensures
        r@ == first_per_minor(items@),
{
    let ghost orig = items@;
    let mut rest = items;
    let mut out: Vec<((u64, u64, u64), T)> = Vec::new();
    let n = rest.len();
    let mut i: usize = 0;
    while i < n
        invariant
            n == orig.len(),
            i <= n,
            rest@ == orig.skip(i as int),
            out@ == first_per_minor(orig.take(i as int)),
        decreases n - i,
    {
        let x = rest.remove(0);
        proof {
            assert(x == orig[i as int]);
            assert(orig.take(i + 1).drop_last() =~= orig.take(i as int));
            assert(orig.take(i + 1).last() == x);
        }
        if !find_minor(&out, x.0) {
            out.push(x);
        }
        assert(rest@ =~= orig.skip(i + 1));
        i += 1;
    }
    assert(orig.take(n as int) =~= orig);
    out
}

proof fn lemma_first_per_minor_viewed(s: Seq<VersionItem>)
    ensures
        viewed(first_per_minor(s)) == first_per_minor(viewed(s)),
    decreases s.len(),
{
    if s.len() > 0 {
        lemma_first_per_minor_viewed(s.drop_last());
        assert(viewed(s).drop_last() =~= viewed(s.drop_last()));
        assert(viewed(s).last() == (s.last().0, s.last().1@));
        let d = first_per_minor(s.drop_last());
        assert(has_minor(d, s.last().0) == has_minor(viewed(d), s.last().0)) by {
            if has_minor(d, s.last().0) {
                let i = choose|i: int| 0 <= i < d.len() && (#[trigger] d[i]).0.0 == s.last().0.0 && d[i].0.1 == s.last().0.1;
                assert(viewed(d)[i].0 == d[i].0);
            }
            if has_minor(viewed(d), s.last().0) {
                let i = choose|i: int| 0 <= i < viewed(d).len() && (#[trigger] viewed(d)[i]).0.0 == s.last().0.0 && viewed(d)[i].0.1 == s.last().0.1;
                assert(viewed(d)[i].0 == d[i].0);
            }
        }
        assert(viewed(d.push(s.last())) =~= viewed(d).push((s.last().0, s.last().1@)));
    } else {
        assert(viewed(s) =~= Seq::<((u64, u64, u64), Seq<char>)>::empty());
    }
}

fn minor_string(v: (u64, u64, u64)) -> (r: String)
    ensures
        r@ == minor_text(v),
{
    let mut cs = decimal_of(v.0);
    cs.push('.');
    let m = decimal_of(v.1);
    push_all(&mut cs, &m);
    string_from(&cs)
}

/// The most recent Kubernetes releases named by a list of tag names, as
/// `major.minor`, newest first: only the first tag of each minor release
/// counts; `offset` of them are passed over and at most `limit` returned.
pub fn recent_releases(names: &Vec<Option<String>>, limit: usize, offset: usize) -> (r: Vec<String>)
    ensures
        texts(r@) == recent_releases_of(opt_texts(names@), limit as int, offset as int),
{
    let found = releases_in(names);
    let firsts = keep_first_per_minor(found);
    proof {
        lemma_first_per_minor_viewed(found@);
    }
    let sorted = sort_newest_first(firsts);
    let chosen = take_page(sorted, offset, limit);
    let ghost wanted = page(newest_first(first_per_minor(releases(opt_texts(names@)))), offset as int, limit as int);
    assert(viewed(chosen@) =~= wanted);
    let mut out: Vec<String> = Vec::new();
    let mut i: usize = 0;
    while i < chosen.len()
        invariant
            i <= chosen@.len(),
            viewed(chosen@) == wanted,
            texts(out@) == chosen@.take(i as int).map_values(
                |e: VersionItem| minor_text(e.0),
            ),
        decreases chosen@.len() - i,
    {
        let t = minor_string(chosen[i].0);
        let ghost before = out@;
        out.push(t);
        proof {
            assert(texts(out@) =~= texts(before).push(t@));
            assert(chosen@.take(i + 1) =~= chosen@.take(i as int).push(chosen@[i as int]));
        }
        assert(texts(out@) =~= chosen@.take(i + 1).map_values(
            |e: VersionItem| minor_text(e.0),
        ));
        i += 1;
    }
    assert(chosen@.take(chosen@.len() as int) =~= chosen@);
    assert(texts(out@) =~= wanted.map_values(|e: ((u64, u64, u64), Seq<char>)| minor_text(e.0))) by {
        assert forall|k: int| 0 <= k < chosen@.len() implies #[trigger] wanted[k].0 == chosen@[k].0 by {
            assert(viewed(chosen@)[k] == (chosen@[k].0, chosen@[k].1@));
        }
    }
    out
}

/// The newest Kubernetes release named by a list of tag names, as
/// `major.minor`; an error when no tag names a stable release.
pub fn latest_release(names: &Vec<Option<String>>) -> (r: Result<String, String>)
    ensures
        match latest_release_of(opt_texts(names@)) {
            Some(t) => r matches Ok(s) && s@ == t,
            None => r matches Err(e) && e@ == "no stable release tags found"@,
        },
{
    let found = releases_in(names);
    match pick_newest(found) {
        Some(e) => Ok(minor_string(e.0)),
        None => Err(String::from_str("no stable release tags found")),
    }
}

// ---------------------------------------------------------------------------
// Versions that carry their own text
// ---------------------------------------------------------------------------

/// The texts of the items, in order.
pub open spec fn item_texts(s: Seq<((u64, u64, u64), Seq<char>)>) -> Seq<Seq<char>> {
    s.map_values(|e: ((u64, u64, u64), Seq<char>)| e.1)
}

fn take_texts(items: Vec<VersionItem>) -> (r: Vec<String>)
    ensures
        texts(r@) == item_texts(viewed(items@)),
{
    let ghost orig = items@;
    let mut rest = items;
    let mut out: Vec<String> = Vec::new();
    let n = rest.len();
    let mut i: usize = 0;
    while i < n
        invariant
            n == orig.len(),
            i <= n,
            rest@ == orig.skip(i as int),
            texts(out@) == item_texts(viewed(orig.take(i as int))),
        decreases n - i,
    {
        let x = rest.remove(0);
        assert(x == orig[i as int]);
        let ghost before = out@;
        out.push(x.1);
        assert(texts(out@) =~= item_texts(viewed(orig.take(i + 1)))) by {
            assert(texts(out@) =~= texts(before).push(orig[i as int].1@));
            assert(orig.take(i + 1) =~= orig.take(i as int).push(orig[i as int]));
        }
        assert(rest@ =~= orig.skip(i + 1));
        i += 1;
    }
    assert(orig.take(n as int) =~= orig);
    out
}

/// Sorts newest first, takes a page, and hands back the texts.
fn page_of_texts(items: Vec<VersionItem>, offset: usize, limit: usize) -> (r: Vec<
    String,
>)
    ensures
        texts(r@) == item_texts(page(newest_first(viewed(items@)), offset as int, limit as int)),
{
    let sorted = sort_newest_first(items);
    let chosen = take_page(sorted, offset, limit);
    proof {
        assert(viewed(page(sorted@, offset as int, limit as int)) =~= page(
            viewed(sorted@),
            offset as int,
            limit as int,
        ));
    }
    take_texts(chosen)
}

/// A version text read as a stable version: it parses and has no
/// pre-release part.
pub open spec fn stable_of(text: Seq<char>) -> Option<(u64, u64, u64)> {
    match semver_of(text) {
        Some(p) => if p.3 {
            Some((p.0, p.1, p.2))
        } else {
            None
        },
        None => None,
    }
}

fn stable_of_chars(t: &Vec<char>) -> (r: Option<(u64, u64, u64)>)
    ensures
        r == stable_of(t@),
{
    let s = string_from(t);
    match parse_semver(s.as_str()) {
        Some(p) => if p.3 {
            Some((p.0, p.1, p.2))
        } else {
            None
        },
        None => None,
    }
}

// ---------------------------------------------------------------------------
// Helm registry indexes
// ---------------------------------------------------------------------------

/// The stable versions among a chart's index entries, each with its text (an
/// entry without a version text is passed over).
pub open spec fn stable_versions(vs: Seq<Option<Seq<char>>>) -> Seq<((u64, u64, u64), Seq<char>)>
    decreases vs.len(),
{
    if vs.len() == 0 {
        Seq::empty()
    } else {
        let rest = stable_versions(vs.drop_last());
        match vs.last() {
            Some(t) => match stable_of(t) {
                Some(v) => rest.push((v, t)),
                None => rest,
            },
            None => rest,
        }
    }
}

fn stable_items(vs: &Vec<Option<String>>) -> (r: Vec<((u64, u64, u64), String)>)
    ensures
        viewed(r@) == stable_versions(opt_texts(vs@)),
{
    let ghost all = opt_texts(vs@);
    let mut out: Vec<((u64, u64, u64), String)> = Vec::new();
    let mut i: usize = 0;
    while i < vs.len()
        invariant
            i <= vs@.len(),
            all == opt_texts(vs@),
            viewed(out@) == stable_versions(all.take(i as int)),
        decreases vs@.len() - i,
    {
        proof {
            assert(all.take(i + 1).drop_last() =~= all.take(i as int));
            assert(all.take(i + 1).last() == opt_view(vs@[i as int]));
        }
        match &vs[i] {
            Some(t) => {
                let cs = chars_of(t.as_str());
                match stable_of_chars(&cs) {
                    Some(v) => {
                        let ghost before = out@;
                        out.push((v, t.clone()));
                        assert(viewed(out@) =~= viewed(before).push((v, t@)));
                    },
                    None => {},
                }
            },
            None => {},
        }
        i += 1;
    }
    assert(all.take(vs@.len() as int) =~= all);
    out
}

/// What `serde_yaml_ng::from_str` reads from a registry's `index.yaml`
/// text for `chart`: the parser's message when the text is not YAML; else
/// the version text of each item of `entries.<chart>` (`None` for an item
/// without a string `version`), or `None` when there is no such list.
pub uninterp spec fn registry_chart_versions(text: Seq<char>, chart: Seq<char>) -> Result<
    Option<Seq<Option<Seq<char>>>>,
    Seq<char>,
>;

/// The view of what an index read gives.
pub open spec fn index_view(r: Result<Option<Vec<Option<String>>>, String>) -> Result<
    Option<Seq<Option<Seq<char>>>>,
    Seq<char>,
> {
    match r {
        Ok(Some(v)) => Ok(Some(opt_texts(v@))),
        Ok(None) => Ok(None),
        Err(e) => Err(e@),
    }
}

/// Parses a registry index with `serde_yaml_ng::from_str` and reads the
/// `version` string of each item of `entries.<chart>`. Claims only that
/// the result is what the parser gives for this text and chart.
#[verifier::external_body]
fn read_registry_index(text: &str, chart: &str) -> (r: Result<Option<Vec<Option<String>>>, String>)
    ensures
        index_view(r) == registry_chart_versions(text@, chart@),
{
    let index: serde_yaml_ng::Value = serde_yaml_ng::from_str(text).map_err(|e| e.to_string())?;
    Ok(index.get("entries").and_then(|e| e.get(chart)).and_then(|e| e.as_sequence()).map(|items| {
        items.iter().map(|e| e.get("version").and_then(|v| v.as_str()).map(str::to_string)).collect()
    }))
}

/// The version texts of `chart`'s entries in a registry's `index.yaml`
/// text: `None` when the index lists no entries for the chart, and an error
/// naming the parser's message when the text is not YAML.
pub fn registry_index_versions(text: &str, chart: &str) -> (r: Result<Option<Vec<Option<String>>>, String>)
    ensures
        match registry_chart_versions(text@, chart@) {
            Err(m) => r matches Err(e) && e@ == "parse registry index: "@ + m,
            Ok(o) => r is Ok && index_view(r) == Ok::<Option<Seq<Option<Seq<char>>>>, Seq<char>>(o),
        },
{
    match read_registry_index(text, chart) {
        Ok(o) => Ok(o),
        Err(m) => {
            let mut v: Vec<char> = Vec::new();
            push_str(&mut v, "parse registry index: ");
            push_str(&mut v, m.as_str());
            Err(string_from(&v))
        },
    }
}

/// The message for a chart that a registry index does not list.
pub open spec fn chart_missing_text(chart: Seq<char>) -> Seq<char> {
    "chart '"@ + chart + "' not found in registry index"@
}

fn chart_missing(chart: &str) -> (r: String)
    ensures
        r@ == chart_missing_text(chart@),
{
    let mut v: Vec<char> = Vec::new();
    push_str(&mut v, "chart '");
    push_str(&mut v, chart);
    push_str(&mut v, "' not found in registry index");
    string_from(&v)
}

/// The stable versions of a chart listed in a Helm registry index, newest
/// first, from position `offset` on and at most `limit` of them. `entries`
/// holds the version text of each of the chart's entries (`None` for an entry
/// without one), and is `None` when the index has no entry list for the chart.
pub fn registry_versions(
    entries: Option<&Vec<Option<String>>>,
    chart: &str,
    limit: usize,
    offset: usize,
) -> (r: Result<Vec<String>, String>)
    ensures
        match entries {
            None => r matches Err(e) && e@ == chart_missing_text(chart@),
            Some(vs) => r matches Ok(v) && texts(v@) == item_texts(
                page(newest_first(stable_versions(opt_texts(vs@))), offset as int, limit as int),
            ),
        },
{
    match entries {
        None => Err(chart_missing(chart)),
        Some(vs) => {
            let items = stable_items(vs);
            Ok(page_of_texts(items, offset, limit))
        },
    }
}

/// The stable versions among the entries that match the partial version
/// `prefix` (all of them when there is none), read after dropping one
/// leading `v`, each with its text as listed.
pub open spec fn prefixed_versions(vs: Seq<Option<Seq<char>>>, prefix: Option<Seq<char>>) -> Seq<
    ((u64, u64, u64), Seq<char>),
>
    decreases vs.len(),
{
    if vs.len() == 0 {
        Seq::empty()
    } else {
        let rest = prefixed_versions(vs.drop_last(), prefix);
        match vs.last() {
            Some(t) => if (match prefix {
                Some(p) => spec_version_matches_prefix(t, p),
                None => true,
            }) {
                match stable_of(strip_one(t, 'v')) {
                    Some(v) => rest.push((v, t)),
                    None => rest,
                }
            } else {
                rest
            },
            None => rest,
        }
    }
}

fn matches_prefix(t: &str, prefix: Option<&str>) -> (r: bool)
    ensures
        r == (match prefix {
            Some(p) => spec_version_matches_prefix(t@, p@),
            None => true,
        }),
{
    match prefix {
        Some(p) => version_matches_prefix(t, p),
        None => true,
    }
}

fn prefixed_items(vs: &Vec<Option<String>>, prefix: Option<&str>) -> (r: Vec<
    ((u64, u64, u64), String),
>)
    ensures
        viewed(r@) == prefixed_versions(opt_texts(vs@), opt_str(prefix)),
{
    let ghost all = opt_texts(vs@);
    let mut out: Vec<((u64, u64, u64), String)> = Vec::new();
    let mut i: usize = 0;
    while i < vs.len()
        invariant
            i <= vs@.len(),
            all == opt_texts(vs@),
            viewed(out@) == prefixed_versions(all.take(i as int), opt_str(prefix)),
        decreases vs@.len() - i,
    {
        proof {
            assert(all.take(i + 1).drop_last() =~= all.take(i as int));
            assert(all.take(i + 1).last() == opt_view(vs@[i as int]));
        }
        match &vs[i] {
            Some(t) => {
                if matches_prefix(t.as_str(), prefix) {
                    let cs = chars_of(t.as_str());
                    let s = strip_one_char(&cs, 'v');
                    match stable_of_chars(&s) {
                        Some(v) => {
                            let ghost before = out@;
                            out.push((v, t.clone()));
                            assert(viewed(out@) =~= viewed(before).push((v, t@)));
                        },
                        None => {},
                    }
                }
            },
            None => {},
        }
        i += 1;
    }
    assert(all.take(vs@.len() as int) =~= all);
    out
}

/// The view of an optional text.
pub open spec fn opt_str(o: Option<&str>) -> Option<Seq<char>> {
    match o {
        Some(s) => Some(s@),
        None => None,
    }
}

/// The message when no listed version of a chart is chosen.
pub open spec fn no_chart_version_text(chart: Seq<char>, prefix: Option<Seq<char>>) -> Seq<char> {
    match prefix {
        Some(p) => "no versions matching '"@ + p + "' found for chart '"@ + chart + "'"@,
        None => "no versions found for chart '"@ + chart + "'"@,
    }
}

fn no_chart_version(chart: &str, prefix: Option<&str>) -> (r: String)
    ensures
        r@ == no_chart_version_text(chart@, opt_str(prefix)),
{
    let mut v: Vec<char> = Vec::new();
    match prefix {
        Some(p) => {
            push_str(&mut v, "no versions matching '");
            push_str(&mut v, p);
            push_str(&mut v, "' found for chart '");
        },
        None => {
            push_str(&mut v, "no versions found for chart '");
        },
    }
    push_str(&mut v, chart);
    push_str(&mut v, "'");
    string_from(&v)
}

/// The newest stable version of a chart in a Helm registry index, as
/// listed; with `prefix`, the newest of those matching that partial version
/// (`"16"` picks the newest `16.x.y`). Among equally new versions the first
/// listed is taken.
pub fn latest_registry(entries: Option<&Vec<Option<String>>>, chart: &str, prefix: Option<&str>) -> (r:
    Result<String, String>)
    ensures
        match entries {
            None => r matches Err(e) && e@ == chart_missing_text(chart@),
            Some(vs) => match newest(prefixed_versions(opt_texts(vs@), opt_str(prefix))) {
                Some(b) => r matches Ok(t) && t@ == b.1,
                None => r matches Err(e) && e@ == no_chart_version_text(chart@, opt_str(prefix)),
            },
        },
{
    match entries {
        None => Err(chart_missing(chart)),
        Some(vs) => {
            let items = prefixed_items(vs, prefix);
            match pick_newest(items) {
                Some(b) => Ok(b.1),
                None => Err(no_chart_version(chart, prefix)),
            }
        },
    }
}

// ---------------------------------------------------------------------------
// ArtifactHub packages
// ---------------------------------------------------------------------------

/// The stable versions among ArtifactHub's `available_versions` entries:
/// each entry is whether it is flagged as a pre-release and its version text.
pub open spec fn artifacthub_stable(entries: Seq<(bool, Option<Seq<char>>)>) -> Seq<
    ((u64, u64, u64), Seq<char>),
>
    decreases entries.len(),
{
    if entries.len() == 0 {
        Seq::empty()
    } else {
        let rest = artifacthub_stable(entries.drop_last());
        let e = entries.last();
        if e.0 {
            rest
        } else {
            match e.1 {
                Some(t) => match stable_of(t) {
                    Some(v) => rest.push((v, t)),
                    None => rest,
                },
                None => rest,
            }
        }
    }
}

/// The views of ArtifactHub version entries.
pub open spec fn entry_views(v: Seq<(bool, Option<String>)>) -> Seq<(bool, Option<Seq<char>>)> {
    v.map_values(|e: (bool, Option<String>)| (e.0, opt_view(e.1)))
}

fn artifacthub_items(entries: &Vec<(bool, Option<String>)>) -> (r: Vec<((u64, u64, u64), String)>)
    ensures
        viewed(r@) == artifacthub_stable(entry_views(entries@)),
{
    let ghost all = entry_views(entries@);
    let mut out: Vec<((u64, u64, u64), String)> = Vec::new();
    let mut i: usize = 0;
    while i < entries.len()
        invariant
            i <= entries@.len(),
            all == entry_views(entries@),
            viewed(out@) == artifacthub_stable(all.take(i as int)),
        decreases entries@.len() - i,
    {
        proof {
            assert(all.take(i + 1).drop_last() =~= all.take(i as int));
            assert(all.take(i + 1).last() == all[i as int]);
        }
        let e = &entries[i];
        if !e.0 {
            match &e.1 {
                Some(t) => {
                    let cs = chars_of(t.as_str());
                    match stable_of_chars(&cs) {
                        Some(v) => {
                            let ghost before = out@;
                            out.push((v, t.clone()));
                            assert(viewed(out@) =~= viewed(before).push((v, t@)));
                        },
                        None => {},
                    }
                },
                None => {},
            }
        }
        i += 1;
    }
    assert(all.take(entries@.len() as int) =~= all);
    out
}

/// The stable versions of an ArtifactHub package, newest first, from
/// position `offset` on and at most `limit` of them: entries flagged as
/// pre-releases, without a version text, not parsing as a version, or with
/// a pre-release part are passed over.
pub fn artifacthub_versions(entries: &Vec<(bool, Option<String>)>, limit: usize, offset: usize) -> (r:
    Vec<String>)
    ensures
        texts(r@) == item_texts(
            page(newest_first(artifacthub_stable(entry_views(entries@))), offset as int, limit as int),
        ),
{
    let items = artifacthub_items(entries);
    page_of_texts(items, offset, limit)
}

/// The first text that matches the partial version `prefix`.
pub open spec fn first_matching(s: Seq<Seq<char>>, prefix: Seq<char>) -> Option<Seq<char>>
    decreases s.len(),
{
    if s.len() == 0 {
        None
    } else if spec_version_matches_prefix(s[0], prefix) {
        Some(s[0])
    } else {
        first_matching(s.drop_first(), prefix)
    }
}

/// The message when no ArtifactHub version matches a partial version.
pub open spec fn no_package_match_text(package: Seq<char>, prefix: Seq<char>) -> Seq<char> {
    "no versions matching '"@ + prefix + "' for '"@ + package + "'"@
}

/// The message when an ArtifactHub package has no version field.
pub open spec fn no_version_field_text(package: Seq<char>) -> Seq<char> {
    "no version field in ArtifactHub response for '"@ + package + "'"@
}

/// The newest version of an ArtifactHub package. With `prefix`, the first
/// of its stable versions, newest first, that matches that partial version;
/// without, the package's own `version` field (`version`).
pub fn latest_artifacthub(
    entries: &Vec<(bool, Option<String>)>,
    version: Option<String>,
    package: &str,
    prefix: Option<&str>,
) -> (r: Result<String, String>)
    ensures
        match prefix {
            Some(p) => match first_matching(
                item_texts(newest_first(artifacthub_stable(entry_views(entries@)))),
                p@,
            ) {
                Some(t) => r matches Ok(s) && s@ == t,
                None => r matches Err(e) && e@ == no_package_match_text(package@, p@),
            },
            None => match version {
                Some(t) => r matches Ok(s) && s@ == t@,
                None => r matches Err(e) && e@ == no_version_field_text(package@),
            },
        },
{
    match prefix {
        Some(p) => {
            let items = artifacthub_items(entries);
            let sorted = sort_newest_first(items);
            let all = take_texts(sorted);
            let ghost ts = texts(all@);
            assert(ts == item_texts(newest_first(artifacthub_stable(entry_views(entries@)))));
            assert(ts.skip(0) =~= ts);
            let mut i: usize = 0;
            while i < all.len()
                invariant
                    i <= all@.len(),
                    prefix == Some(p),
                    ts == texts(all@),
                    ts == item_texts(newest_first(artifacthub_stable(entry_views(entries@)))),
                    first_matching(ts, p@) == first_matching(ts.skip(i as int), p@),
                decreases all@.len() - i,
            {
                if version_matches_prefix(all[i].as_str(), p) {
                    assert(ts.skip(i as int)[0] == all@[i as int]@);
                    let found = all[i].clone();
                    assert(found@ == ts[i as int]);
                    assert(ts.skip(i as int).len() > 0);
                    assert(spec_version_matches_prefix(ts.skip(i as int)[0], p@));
                    assert(first_matching(ts.skip(i as int), p@) == Some(ts[i as int]));
                    assert(first_matching(ts, p@) == Some(found@));
                    return Ok(found);
                }
                assert(ts.skip(i as int).drop_first() =~= ts.skip(i + 1));
                i += 1;
            }
            let mut v: Vec<char> = Vec::new();
            push_str(&mut v, "no versions matching '");
            push_str(&mut v, p);
            push_str(&mut v, "' for '");
            push_str(&mut v, package);
            push_str(&mut v, "'");
            Err(string_from(&v))
        },
        None => match version {
            Some(t) => Ok(t),
            None => {
                let mut v: Vec<char> = Vec::new();
                push_str(&mut v, "no version field in ArtifactHub response for '");
                push_str(&mut v, package);
                push_str(&mut v, "'");
                Err(string_from(&v))
            },
        },
    }
}

// ---------------------------------------------------------------------------
// Tags listed by `git ls-remote --tags`
// ---------------------------------------------------------------------------

/// `l` without one trailing carriage return.
pub open spec fn without_cr(l: Seq<char>) -> Seq<char> {
    if l.len() > 0 && l.last() == '\r' {
        l.drop_last()
    } else {
        l
    }
}

/// The lines of a text as `str::lines` gives them: the pieces between line
/// feeds, each ended one without a carriage return before its line feed,
/// and the last piece only when it is not empty.
pub open spec fn lines_of(s: Seq<char>) -> Seq<Seq<char>> {
    let parts = split_on(s, '\n');
    let ended = parts.drop_last().map_values(|l: Seq<char>| without_cr(l));
    if parts.last().len() == 0 {
        ended
    } else {
        ended.push(parts.last())
    }
}

pub(crate) fn lines(s: &str) -> (r: Vec<Vec<char>>)
    ensures
        r.deep_view() == lines_of(s@),
{
    let cs = chars_of(s);
    let parts = split(&cs, '\n');
    let ghost ps = split_on(s@, '\n');
    let n = parts.len();
    let mut out: Vec<Vec<char>> = Vec::new();
    let mut i: usize = 0;
    while i + 1 < n
        invariant
            n == parts@.len(),
            n >= 1,
            parts.deep_view() == ps,
            i + 1 <= n,
            out@.len() == i,
            out.deep_view() == ps.take(i as int).map_values(|l: Seq<char>| without_cr(l)),
        decreases n - i,
    {
        let l = &parts[i];
        assert(l@ == ps[i as int]);
        let t = if l.len() > 0 && l[l.len() - 1] == '\r' {
            slice(l, 0, l.len() - 1)
        } else {
            slice(l, 0, l.len())
        };
        assert(t@ == without_cr(ps[i as int])) by {
            if l@.len() > 0 && l@.last() == '\r' {
                assert(l@.subrange(0, l@.len() - 1) =~= l@.drop_last());
            } else {
                assert(l@.subrange(0, l@.len() as int) =~= l@);
            }
        }
        let ghost before = out.deep_view();
        out.push(t);
        assert(out.deep_view() =~= before.push(t@)) by {
            assert(out.deep_view()[i as int] =~= t@);
        }
        assert(ps.take(i + 1) =~= ps.take(i as int).push(ps[i as int]));
        assert(out.deep_view() =~= ps.take(i + 1).map_values(|l: Seq<char>| without_cr(l)));
        i += 1;
    }
    assert(ps.take(n - 1) =~= ps.drop_last());
    let last = &parts[n - 1];
    assert(last@ == ps.last());
    if last.len() > 0 {
        let t = slice(last, 0, last.len());
        assert(last@.subrange(0, last@.len() as int) =~= last@);
        let ghost before = out.deep_view();
        out.push(t);
        assert(out.deep_view() =~= before.push(t@)) by {
            assert(out.deep_view()[out@.len() - 1] =~= t@);
        }
    }
    out
}

/// The tag named on a line of `git ls-remote --tags` output: the second
/// tab-separated field, without a leading `refs/tags/` and without trailing
/// `^{}`; `None` for a line with fewer than two fields.
pub open spec fn tag_of_line(line: Seq<char>) -> Option<Seq<char>> {
    let parts = split_on(line, '\t');
    if parts.len() < 2 {
        None
    } else {
        let refname = parts[1];
        let t = if has_prefix(refname, "refs/tags/"@) {
            refname.skip("refs/tags/"@.len() as int)
        } else {
            refname
        };
        Some(trim_end_seq(t, "^{}"@))
    }
}

fn tag_on_line(line: &Vec<char>) -> (r: Option<Vec<char>>)
    ensures
        match tag_of_line(line@) {
            Some(t) => r matches Some(v) && v@ == t,
            None => r is None,
        },
{
    let parts = split(line, '\t');
    if parts.len() < 2 {
        return None;
    }
    let refname = &parts[1];
    assert(refname@ =~= split_on(line@, '\t')[1]) by {
        assert(parts.deep_view()[1] =~= refname@);
    }
    let pre = chars_of("refs/tags/");
    let t = if starts_with_str(refname, "refs/tags/") {
        let t = slice(refname, pre.len(), refname.len());
        assert(t@ =~= refname@.skip("refs/tags/"@.len() as int));
        t
    } else {
        let t = slice(refname, 0, refname.len());
        assert(t@ =~= refname@);
        t
    };
    let suffix = chars_of("^{}");
    Some(trim_end_matches(&t, &suffix))
}

/// The stable tags on the lines of `git ls-remote --tags` output that match
/// the partial version `prefix` (all of them when there is none), read after
/// dropping one leading `v`, each with the tag as listed.
pub open spec fn tagged_versions(lines: Seq<Seq<char>>, prefix: Option<Seq<char>>) -> Seq<
    ((u64, u64, u64), Seq<char>),
>
    decreases lines.len(),
{
    if lines.len() == 0 {
        Seq::empty()
    } else {
        let rest = tagged_versions(lines.drop_last(), prefix);
        match tag_of_line(lines.last()) {
            Some(t) => if (match prefix {
                Some(p) => spec_version_matches_prefix(t, p),
                None => true,
            }) {
                match stable_of(strip_one(t, 'v')) {
                    Some(v) => rest.push((v, t)),
                    None => rest,
                }
            } else {
                rest
            },
            None => rest,
        }
    }
}

fn tagged_items(out_text: &str, prefix: Option<&str>) -> (r: Vec<((u64, u64, u64), String)>)
    ensures
        viewed(r@) == tagged_versions(lines_of(out_text@), opt_str(prefix)),
{
    let ls = lines(out_text);
    let ghost all = lines_of(out_text@);
    let mut out: Vec<((u64, u64, u64), String)> = Vec::new();
    let mut i: usize = 0;
    while i < ls.len()
        invariant
            i <= ls@.len(),
            ls.deep_view() == all,
            viewed(out@) == tagged_versions(all.take(i as int), opt_str(prefix)),
        decreases ls@.len() - i,
    {
        proof {
            assert(all.take(i + 1).drop_last() =~= all.take(i as int));
            assert(all.take(i + 1).last() == ls@[i as int]@);
        }
        match tag_on_line(&ls[i]) {
            Some(tag) => {
                let ts = string_from(&tag);
                if matches_prefix(ts.as_str(), prefix) {
                    let stripped = strip_one_char(&tag, 'v');
                    match stable_of_chars(&stripped) {
                        Some(v) => {
                            let ghost before = out@;
                            out.push((v, ts));
                            assert(viewed(out@) =~= viewed(before).push((v, tag@)));
                        },
                        None => {},
                    }
                }
            },
            None => {},
        }
        i += 1;
    }
    assert(all.take(ls@.len() as int) =~= all);
    out
}

/// The newest stable tag listed in `git ls-remote --tags` output; with
/// `prefix`, the newest of those matching that partial version. Among
/// equally new tags the first listed is taken.
pub fn latest_git_tag(ls_remote: &str, prefix: Option<&str>) -> (r: Option<String>)
    ensures
        match newest(tagged_versions(lines_of(ls_remote@), opt_str(prefix))) {
            Some(b) => r matches Some(t) && t@ == b.1,
            None => r is None,
        },
{
    let items = tagged_items(ls_remote, prefix);
    match pick_newest(items) {
        Some(b) => Some(b.1),
        None => None,
    }
}

/// Some item carries the text `t`.
pub open spec fn has_text(s: Seq<((u64, u64, u64), Seq<char>)>, t: Seq<char>) -> bool {
    exists|i: int| 0 <= i < s.len() && (#[trigger] s[i]).1 == t
}

/// The items, keeping only the first of each text.
pub open spec fn first_per_text(s: Seq<((u64, u64, u64), Seq<char>)>) -> Seq<
    ((u64, u64, u64), Seq<char>),
>
    decreases s.len(),
{
    if s.len() == 0 {
        s
    } else {
        let d = first_per_text(s.drop_last());
        if has_text(d, s.last().1) {
            d
        } else {
            d.push(s.last())
        }
    }
}

/// Keeping the first of each tag leaves every tag once.
pub proof fn lemma_one_per_text(s: Seq<((u64, u64, u64), Seq<char>)>)
    ensures
        forall|i: int, j: int|
            0 <= i < j < first_per_text(s).len() ==> (#[trigger] first_per_text(s)[i]).1
                != (#[trigger] first_per_text(s)[j]).1,
    decreases s.len(),
{
    if s.len() > 0 {
        lemma_one_per_text(s.drop_last());
        let d = first_per_text(s.drop_last());
        if !has_text(d, s.last().1) {
            let r = d.push(s.last());
            assert forall|i: int, j: int| 0 <= i < j < r.len() implies r[i].1 != r[j].1 by {
                assert(r[i] == d[i]);
                if j < r.len() - 1 {
                    assert(r[j] == d[j]);
                }
            }
        }
    }
}

fn find_text(s: &Vec<((u64, u64, u64), String)>, t: &String) -> (r: bool)
    ensures
        r == has_text(viewed(s@), t@),
{
    let tc = chars_of(t.as_str());
    let mut i: usize = 0;
    while i < s.len()
        invariant
            i <= s@.len(),
            tc@ == t@,
            forall|k: int| 0 <= k < i ==> (#[trigger] viewed(s@)[k]).1 != t@,
        decreases s@.len() - i,
    {
        let c = chars_of(s[i].1.as_str());
        if seq_eq(&c, &tc) {
            assert(viewed(s@)[i as int].1 == t@);
            return true;
        }
        i += 1;
    }
    false
}

fn keep_first_per_text(items: Vec<((u64, u64, u64), String)>) -> (r: Vec<((u64, u64, u64), String)>)
    ensures
        viewed(r@) == first_per_text(viewed(items@)),
{
    let ghost orig = items@;
    let mut rest = items;
    let mut out: Vec<((u64, u64, u64), String)> = Vec::new();
    let n = rest.len();
    let mut i: usize = 0;
    while i < n
        invariant
            n == orig.len(),
            i <= n,
            rest@ == orig.skip(i as int),
            viewed(out@) == first_per_text(viewed(orig.take(i as int))),
        decreases n - i,
    {
        let x = rest.remove(0);
        proof {
            assert(x == orig[i as int]);
            assert(viewed(orig.take(i + 1)).drop_last() =~= viewed(orig.take(i as int)));
            assert(viewed(orig.take(i + 1)).last() == (x.0, x.1@));
        }
        if !find_text(&out, &x.1) {
            let ghost before = out@;
            out.push(x);
            assert(viewed(out@) =~= viewed(before).push((x.0, x.1@)));
        }
        assert(rest@ =~= orig.skip(i + 1));
        i += 1;
    }
    assert(orig.take(n as int) =~= orig);
    out
}

/// The stable tags listed in `git ls-remote --tags` output, each once,
/// newest first, from position `offset` on and at most `limit` of them.
pub fn git_tags(ls_remote: &str, limit: usize, offset: usize) -> (r: Vec<String>)
    ensures
        texts(r@) == item_texts(
            page(
                newest_first(first_per_text(tagged_versions(lines_of(ls_remote@), None))),
                offset as int,
                limit as int,
            ),
        ),
{
    let items = tagged_items(ls_remote, None);
    let firsts = keep_first_per_text(items);
    page_of_texts(firsts, offset, limit)
}

} // verus!
