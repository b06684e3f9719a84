//! Auto-detection of the source type behind a URL or package identifier
//! given to `husako add`.
use vstd::prelude::*;

use crate::text::{
    chars_of, char_pos, contains_seq, count_char, count_of, find_char, has_prefix,
    is_digit, is_lower, join, join_with, lemma_char_pos, slice, split, split_on, starts_with_str,
    string_from, trim_end_matches, trim_end_seq, trim_start_char, trim_start_matches, contains_str,
    eq_str, push_all, push_str,
};

verus! {

/// Result of URL/package auto-detection for `husako add`.
#[derive(Debug, PartialEq)]
pub enum UrlDetected {
    ArtifactHub { package: String },
    Oci { reference: String },
    Git { repo: String, sub_path: Option<String>, branch: Option<String> },
    HelmRegistry { repo: String },
    LocalPath { path: String },
}

/// What a detection result holds, as character sequences.
pub enum Detected {
    ArtifactHub(Seq<char>),
    Oci(Seq<char>),
    Git(Seq<char>, Option<Seq<char>>, Option<Seq<char>>),
    HelmRegistry(Seq<char>),
    LocalPath(Seq<char>),
}

pub open spec fn opt_view(o: Option<String>) -> Option<Seq<char>> {
    match o {
        Some(s) => Some(s@),
        None => None,
    }
}

impl View for UrlDetected {
    type V = Detected;

    open spec fn view(&self) -> Detected {
        match self {
            UrlDetected::ArtifactHub { package } => Detected::ArtifactHub(package@),
            UrlDetected::Oci { reference } => Detected::Oci(reference@),
            UrlDetected::Git { repo, sub_path, branch } => Detected::Git(
                repo@,
                opt_view(*sub_path),
                opt_view(*branch),
            ),
            UrlDetected::HelmRegistry { repo } => Detected::HelmRegistry(repo@),
            UrlDetected::LocalPath { path } => Detected::LocalPath(path@),
        }
    }
}

pub open spec fn detected_view(o: Option<UrlDetected>) -> Option<Detected> {
    match o {
        Some(d) => Some(d@),
        None => None,
    }
}

/// A character allowed in an ArtifactHub org or chart name.
pub open spec fn is_package_char(c: char) -> bool {
    is_lower(c) || is_digit(c) || c == '-' || c == '_' || c == '.'
}

/// A non-empty name of package characters.
pub open spec fn is_package_part(p: Seq<char>) -> bool {
    p.len() > 0 && forall|k: int| 0 <= k < p.len() ==> is_package_char(#[trigger] p[k])
}

/// `org/chart`: no `://`, exactly one `/`, and both sides made of lowercase
/// letters, digits, `-`, `_` and `.`.
pub open spec fn spec_is_artifacthub_package(s: Seq<char>) -> bool {
    &&& !contains_seq(s, "://"@)
    &&& count_char(s, '/') == 1
    &&& is_package_part(s.take(char_pos(s, '/')))
    &&& is_package_part(s.skip(char_pos(s, '/') + 1))
}

/// The hosts whose URLs are read as git repositories.
pub open spec fn is_git_host(h: Seq<char>) -> bool {
    h == "github.com"@ || h == "gitlab.com"@ || h == "bitbucket.org"@
}

/// The part of `s` after `https://` or `http://`.
pub open spec fn after_scheme(s: Seq<char>) -> Option<Seq<char>> {
    if has_prefix(s, "https://"@) {
        Some(s.skip("https://"@.len() as int))
    } else if has_prefix(s, "http://"@) {
        Some(s.skip("http://"@.len() as int))
    } else {
        None
    }
}

/// Reads `s` as a URL of a repository on a git host:
/// `http(s)://<host>/<org>/<repo>[.git]` followed by either
/// `/tree/<branch>[/<sub path>]` or `/<sub path>`. The repository is
/// normalised to `https://<host>/<org>/<repo>`.
pub open spec fn spec_try_git_url(s: Seq<char>) -> Option<Detected> {
    match after_scheme(s) {
        None => None,
        Some(rest) => {
            let host_end = char_pos(rest, '/');
            let host = rest.take(host_end);
            let segs = split_on(trim_start_char(rest.skip(host_end), '/'), '/');
            if !is_git_host(host) || segs.len() < 2 || segs[0].len() == 0 || segs[1].len() == 0 {
                None
            } else {
                let repo = "https://"@ + host + "/"@ + segs[0] + "/"@ + trim_end_seq(segs[1], ".git"@);
                let rs = segs.skip(2);
                if rs.len() == 0 {
                    Some(Detected::Git(repo, None, None))
                } else if rs.len() >= 2 && rs[0] == "tree"@ {
                    Some(
                        Detected::Git(
                            repo,
                            if rs.len() > 2 { Some(join_with(rs.skip(2), "/"@)) } else { None },
                            Some(rs[1]),
                        ),
                    )
                } else {
                    Some(Detected::Git(repo, Some(join_with(rs, "/"@)), None))
                }
            }
        }
    }
}

/// Detection in order: `oci://` is OCI; `org/chart` is ArtifactHub; a URL on
/// a git host is Git; any other `http(s)://` URL is a Helm registry; `./`,
/// `../` or `/` is a local path; anything else is not recognised.
pub open spec fn spec_detect_url(s: Seq<char>) -> Option<Detected> {
    if has_prefix(s, "oci://"@) {
        Some(Detected::Oci(s))
    } else if spec_is_artifacthub_package(s) {
        Some(Detected::ArtifactHub(s))
    } else if spec_try_git_url(s) is Some {
        spec_try_git_url(s)
    } else if has_prefix(s, "https://"@) || has_prefix(s, "http://"@) {
        Some(Detected::HelmRegistry(s))
    } else if has_prefix(s, "./"@) || has_prefix(s, "../"@) || has_prefix(s, "/"@) {
        Some(Detected::LocalPath(s))
    } else {
        None
    }
}

/// Auto-detect the source type from a URL or package identifier.
///
/// Detection order:
/// 1. `oci://` → OCI
/// 2. `org/chart` (exactly one `/`, no protocol) → ArtifactHub
/// 3. `https?://github.com/`, `gitlab.com/`, `bitbucket.org/` → Git
/// 4. Other `https?://` → HelmRegistry
/// 5. `./`, `../`, `/` prefix → LocalPath
/// 6. Otherwise → None
pub fn detect_url(input: &str) -> (r: Option<UrlDetected>)
    ensures
        detected_view(r) == spec_detect_url(input@),
{
    let v = chars_of(input);
    if starts_with_str(&v, "oci://") {
        return Some(UrlDetected::Oci { reference: string_from(&v) });
    }
    if is_artifacthub_package(&v) {
        return Some(UrlDetected::ArtifactHub { package: string_from(&v) });
    }
    let git = try_git_url(&v);
    if git.is_some() {
        return git;
    }
    if starts_with_str(&v, "https://") || starts_with_str(&v, "http://") {
        return Some(UrlDetected::HelmRegistry { repo: string_from(&v) });
    }
    if starts_with_str(&v, "./") || starts_with_str(&v, "../") || starts_with_str(&v, "/") {
        return Some(UrlDetected::LocalPath { path: string_from(&v) });
    }
    None
}

/// `p` is a non-empty name of package characters.
fn valid_part(p: &Vec<char>) -> (r: bool)
    ensures
        r == is_package_part(p@),
{
    if p.len() == 0 {
        return false;
    }
    let mut i: usize = 0;
    while i < p.len()
        invariant
            i <= p.len(),
            forall|k: int| 0 <= k < i ==> is_package_char(#[trigger] p@[k]),
        decreases p.len() - i,
    {
        let c = p[i];
        if !(('a' <= c && c <= 'z') || ('0' <= c && c <= '9') || c == '-' || c == '_' || c == '.') {
            return false;
        }
        i += 1;
    }
    true
}

/// `org/chart` with safe characters only.
fn is_artifacthub_package(v: &Vec<char>) -> (r: bool)
    ensures
        r == spec_is_artifacthub_package(v@),
{
    if contains_str(v, "://") {
        return false;
    }
    if count_of(v, '/') != 1 {
        return false;
    }
    let i = find_char(v, '/');
    proof {
        lemma_char_pos(v@, '/');
        if i >= v.len() {
            assert(!v@.contains('/'));
            lemma_no_char_count(v@, '/');
        }
    }
    let left = slice(v, 0, i);
    let right = slice(v, i + 1, v.len());
    assert(right@ =~= v@.skip(i + 1));
    valid_part(&left) && valid_part(&right)
}

proof fn lemma_no_char_count(s: Seq<char>, c: char)
    requires
        !s.contains(c),
    ensures
        count_char(s, c) == 0,
    decreases s.len(),
{
    if s.len() > 0 {
        assert(s[0] != c);
        assert(!s.drop_first().contains(c)) by {
            if s.drop_first().contains(c) {
                let k = choose|k: int| 0 <= k < s.drop_first().len() && s.drop_first()[k] == c;
                assert(s[k + 1] == c);
            }
        }
        lemma_no_char_count(s.drop_first(), c);
    }
}

/// Reads `v` as a URL of a repository on a git host.
fn try_git_url(v: &Vec<char>) -> (r: Option<UrlDetected>)
    ensures
        detected_view(r) == spec_try_git_url(v@),
{
    let https = chars_of("https://");
    let http = chars_of("http://");
    let rest = if starts_with_str(v, "https://") {
        slice(v, https.len(), v.len())
    } else if starts_with_str(v, "http://") {
        slice(v, http.len(), v.len())
    } else {
        return None;
    };
    assert(after_scheme(v@) == Some(rest@));
    let host_end = find_char(&rest, '/');
    proof {
        lemma_char_pos(rest@, '/');
    }
    let host = slice(&rest, 0, host_end);
    if !(eq_str(&host, "github.com") || eq_str(&host, "gitlab.com") || eq_str(&host, "bitbucket.org")) {
        return None;
    }
    let path_part = slice(&rest, host_end, rest.len());
    assert(path_part@ =~= rest@.skip(host_end as int));
    let trimmed = trim_start_matches(&path_part, '/');
    let segments = split(&trimmed, '/');
    if segments.len() < 2 || segments[0].len() == 0 || segments[1].len() == 0 {
        assert(segments.deep_view()[0] == segments[0]@);
        assert(segments.len() >= 2 ==> segments.deep_view()[1] == segments[1]@);
        return None;
    }
    assert(segments.deep_view()[0] == segments[0]@);
    assert(segments.deep_view()[1] == segments[1]@);
    let dotgit = chars_of(".git");
    let repo_name = trim_end_matches(&segments[1], &dotgit);
    let mut repo_base: Vec<char> = Vec::new();
    push_str(&mut repo_base, "https://");
    push_all(&mut repo_base, &host);
    push_str(&mut repo_base, "/");
    push_all(&mut repo_base, &segments[0]);
    push_str(&mut repo_base, "/");
    push_all(&mut repo_base, &repo_name);
    let ghost segs = segments.deep_view();
    let ghost repo_spec = "https://"@ + host@ + "/"@ + segs[0] + "/"@ + trim_end_seq(segs[1], ".git"@);
    assert(repo_base@ =~= repo_spec);
    if segments.len() == 2 {
        assert(segs.skip(2) =~= Seq::<Seq<char>>::empty());
        return Some(UrlDetected::Git { repo: string_from(&repo_base), sub_path: None, branch: None });
    }
    let mut rest_segments: Vec<Vec<char>> = Vec::new();
    let mut k: usize = 2;
    while k < segments.len()
        invariant
            2 <= k <= segments.len(),
            segs == segments.deep_view(),
            rest_segments.len() == k - 2,
            forall|j: int| 0 <= j < k - 2 ==> rest_segments.deep_view()[j] == segs[j + 2],
        decreases segments.len() - k,
    {
        let seg = slice(&segments[k], 0, segments[k].len());
        assert(seg@ =~= segs[k as int]);
        assert(seg.deep_view() =~= seg@);
        let ghost prev = rest_segments@;
        let ghost prev_dv = rest_segments.deep_view();
        let ghost sv = seg.deep_view();
        rest_segments.push(seg);
        assert forall|j: int| 0 <= j < k - 1 implies rest_segments.deep_view()[j] == segs[j + 2] by {
            assert(rest_segments.deep_view()[j] == rest_segments@[j].deep_view());
            if j < k - 2 {
                assert(rest_segments@[j] == prev[j]);
                assert(prev_dv[j] == segs[j + 2]);
                assert(prev_dv[j] == prev[j].deep_view());
            } else {
                assert(rest_segments@[j].deep_view() == sv);
            }
        }
        k += 1;
    }
    let ghost rs = rest_segments.deep_view();
    assert(rs =~= segs.skip(2));
    let slash = chars_of("/");
    if rest_segments.len() >= 2 && eq_str(&rest_segments[0], "tree") {
        assert(rs[0] == rest_segments[0]@);
        assert(rs[1] == rest_segments[1]@);
        let branch = string_from(&rest_segments[1]);
        let sub_path = if rest_segments.len() > 2 {
            let mut tail: Vec<Vec<char>> = Vec::new();
            let mut j: usize = 2;
            while j < rest_segments.len()
                invariant
                    2 <= j <= rest_segments.len(),
                    rs == rest_segments.deep_view(),
                    tail.len() == j - 2,
                    forall|i: int| 0 <= i < j - 2 ==> tail.deep_view()[i] == rs[i + 2],
                decreases rest_segments.len() - j,
            {
                let seg = slice(&rest_segments[j], 0, rest_segments[j].len());
                assert(seg@ =~= rs[j as int]);
                assert(seg.deep_view() =~= seg@);
                let ghost prev = tail@;
                let ghost prev_dv = tail.deep_view();
                let ghost sv = seg.deep_view();
                tail.push(seg);
                assert forall|i: int| 0 <= i < j - 1 implies tail.deep_view()[i] == rs[i + 2] by {
                    assert(tail.deep_view()[i] == tail@[i].deep_view());
                    if i < j - 2 {
                        assert(tail@[i] == prev[i]);
                        assert(prev_dv[i] == rs[i + 2]);
                        assert(prev_dv[i] == prev[i].deep_view());
                    } else {
                        assert(tail@[i].deep_view() == sv);
                    }
                }
                j += 1;
            }
            assert(tail.deep_view() =~= rs.skip(2));
            Some(string_from(&join(&tail, &slash)))
        } else {
            None
        };
        return Some(UrlDetected::Git { repo: string_from(&repo_base), sub_path, branch: Some(branch) });
    }
    proof {
        if rest_segments.len() >= 2 {
            assert(rs[0] == rest_segments[0]@);
        }
    }
    let sub_path = string_from(&join(&rest_segments, &slash));
    Some(UrlDetected::Git { repo: string_from(&repo_base), sub_path: Some(sub_path), branch: None })
}

/// Source kind detected from content inspection.
#[derive(Debug, PartialEq)]
pub enum SourceKind {
    Resource,
    Chart,
}

/// The content declares a CustomResourceDefinition.
pub fn content_is_crd(content: &str) -> (r: bool)
    ensures
        r == contains_seq(content@, "kind: CustomResourceDefinition"@),
{
    let v = chars_of(content);
    contains_str(&v, "kind: CustomResourceDefinition")
}

/// What lies at a path, as far as telling a CRD from a chart needs.
#[derive(Debug)]
pub enum PathFacts {
    /// A file: its text, or why it could not be read, and whether its
    /// extension is `json`.
    File { content: Result<String, String>, is_json: bool },
    /// A directory: whether it holds `Chart.yaml` (or `chart.yaml`), and the
    /// texts of its `.yaml`/`.yml` files in listing order (a file that could
    /// not be read reads as empty), or why the directory could not be read.
    Dir { has_chart_yaml: bool, yaml_files: Result<Vec<String>, String> },
    /// Nothing.
    Missing,
}

/// The text declares a JSON Schema, as a chart's values schema does.
pub open spec fn declares_schema(content: Seq<char>) -> bool {
    contains_seq(content, "\"$schema\""@)
}

/// Some of the texts declares a CustomResourceDefinition.
pub open spec fn any_crd(files: Seq<String>) -> bool {
    exists|i: int|
        0 <= i < files.len() && contains_seq(
            (#[trigger] files[i])@,
            "kind: CustomResourceDefinition"@,
        )
}

fn has_crd_file(files: &Vec<String>) -> (r: bool)
    ensures
        r == any_crd(files@),
{
    let mut i: usize = 0;
    while i < files.len()
        invariant
            i <= files@.len(),
            forall|k: int|
                0 <= k < i ==> !contains_seq(
                    (#[trigger] files@[k])@,
                    "kind: CustomResourceDefinition"@,
                ),
        decreases files@.len() - i,
    {
        if content_is_crd(files[i].as_str()) {
            return true;
        }
        i += 1;
    }
    false
}

/// The message for a local path that is neither a CRD nor a values schema.
pub open spec fn undetermined_local_text(path: Seq<char>) -> Seq<char> {
    "could not determine if '"@ + path + "' is a CRD or a Helm values schema"@
}

/// What a local path holds: a file declaring a CRD is a resource, one
/// declaring a JSON Schema a chart; a directory with `Chart.yaml` is a
/// chart, one with a CRD among its YAML files a resource.
pub fn detect_local_kind(path: &str, facts: &PathFacts) -> (r: Result<SourceKind, String>)
    ensures
        match facts {
            PathFacts::File { content: Err(e), .. } => r matches Err(m) && m@ == "could not read "@
                + path@ + ": "@ + e@,
            PathFacts::File { content: Ok(c), .. } => if contains_seq(c@, "kind: CustomResourceDefinition"@) {
                r matches Ok(SourceKind::Resource)
            } else if declares_schema(c@) {
                r matches Ok(SourceKind::Chart)
            } else {
                r matches Err(m) && m@ == undetermined_local_text(path@)
            },
            PathFacts::Dir { has_chart_yaml, yaml_files } => if *has_chart_yaml {
                r matches Ok(SourceKind::Chart)
            } else {
                match yaml_files {
                    Err(e) => r matches Err(m) && m@ == e@,
                    Ok(files) => if any_crd(files@) {
                        r matches Ok(SourceKind::Resource)
                    } else {
                        r matches Err(m) && m@ == undetermined_local_text(path@)
                    },
                }
            },
            PathFacts::Missing => r matches Err(m) && m@ == undetermined_local_text(path@),
        },
{
    let undetermined = || -> (m: String)
        ensures
            m@ == undetermined_local_text(path@),
    {
        let mut v: Vec<char> = Vec::new();
        push_str(&mut v, "could not determine if '");
        push_str(&mut v, path);
        push_str(&mut v, "' is a CRD or a Helm values schema");
        string_from(&v)
    };
    match facts {
        PathFacts::File { content: Err(e), .. } => {
            let mut v: Vec<char> = Vec::new();
            push_str(&mut v, "could not read ");
            push_str(&mut v, path);
            push_str(&mut v, ": ");
            push_str(&mut v, e.as_str());
            Err(string_from(&v))
        },
        PathFacts::File { content: Ok(c), .. } => {
            if content_is_crd(c.as_str()) {
                Ok(SourceKind::Resource)
            } else {
                let cs = chars_of(c.as_str());
                if contains_str(&cs, "\"$schema\"") {
                    Ok(SourceKind::Chart)
                } else {
                    Err(undetermined())
                }
            }
        },
        PathFacts::Dir { has_chart_yaml, yaml_files } => {
            if *has_chart_yaml {
                Ok(SourceKind::Chart)
            } else {
                match yaml_files {
                    Err(e) => Err(e.clone()),
                    Ok(files) => if has_crd_file(files) {
                        Ok(SourceKind::Resource)
                    } else {
                        Err(undetermined())
                    },
                }
            }
        },
        PathFacts::Missing => Err(undetermined()),
    }
}

/// The message for a path in a repository that is neither a CRD nor a chart.
pub open spec fn undetected_git_text(sub_path: Seq<char>) -> Seq<char> {
    "could not detect resource or chart at '"@ + sub_path
        + "'; check the path or use --path"@
}

/// What lies at `sub_path` of a cloned repository, whose facts are `facts`
/// (`target` names it in messages): a directory with `Chart.yaml`, or a
/// JSON file declaring a JSON Schema, is a chart; CRD YAML is a resource.
pub fn detect_git_kind(sub_path: &str, target: &str, facts: &PathFacts) -> (r: Result<SourceKind, String>)
    ensures
        match facts {
            PathFacts::Dir { has_chart_yaml: true, .. } => r matches Ok(SourceKind::Chart),
            PathFacts::File { content: Err(e), .. } => r matches Err(m) && m@ == "could not read "@
                + target@ + ": "@ + e@,
            PathFacts::File { content: Ok(c), is_json } => if *is_json && declares_schema(c@) {
                r matches Ok(SourceKind::Chart)
            } else if contains_seq(c@, "kind: CustomResourceDefinition"@) {
                r matches Ok(SourceKind::Resource)
            } else {
                r matches Err(m) && m@ == undetected_git_text(sub_path@)
            },
            PathFacts::Dir { has_chart_yaml: false, yaml_files } => match yaml_files {
                Err(e) => r matches Err(m) && m@ == e@,
                Ok(files) => if any_crd(files@) {
                    r matches Ok(SourceKind::Resource)
                } else {
                    r matches Err(m) && m@ == undetected_git_text(sub_path@)
                },
            },
            PathFacts::Missing => r matches Err(m) && m@ == undetected_git_text(sub_path@),
        },
{
    let undetected = || -> (m: String)
        ensures
            m@ == undetected_git_text(sub_path@),
    {
        let mut v: Vec<char> = Vec::new();
        push_str(&mut v, "could not detect resource or chart at '");
        push_str(&mut v, sub_path);
        push_str(&mut v, "'; check the path or use --path");
        string_from(&v)
    };
    match facts {
        PathFacts::Dir { has_chart_yaml: true, .. } => Ok(SourceKind::Chart),
        PathFacts::File { content: Err(e), .. } => {
            let mut v: Vec<char> = Vec::new();
            push_str(&mut v, "could not read ");
            push_str(&mut v, target);
            push_str(&mut v, ": ");
            push_str(&mut v, e.as_str());
            Err(string_from(&v))
        },
        PathFacts::File { content: Ok(c), is_json } => {
            let cs = chars_of(c.as_str());
            if *is_json && contains_str(&cs, "\"$schema\"") {
                Ok(SourceKind::Chart)
            } else if content_is_crd(c.as_str()) {
                Ok(SourceKind::Resource)
            } else {
                Err(undetected())
            }
        },
        PathFacts::Dir { has_chart_yaml: false, yaml_files } => match yaml_files {
            Err(e) => Err(e.clone()),
            Ok(files) => if has_crd_file(files) {
                Ok(SourceKind::Resource)
            } else {
                Err(undetected())
            },
        },
        PathFacts::Missing => Err(undetected()),
    }
}

/// A `Git` result always names its repository by an `https://` URL.
pub proof fn lemma_git_repo_is_https(s: Seq<char>)
    ensures
        spec_detect_url(s) matches Some(Detected::Git(repo, _, _)) ==> has_prefix(repo, "https://"@),
{
    if spec_detect_url(s) matches Some(Detected::Git(repo, _, _)) {
        let rest = after_scheme(s)->0;
        let host_end = char_pos(rest, '/');
        let host = rest.take(host_end);
        let segs = split_on(trim_start_char(rest.skip(host_end), '/'), '/');
        let r = "https://"@ + host + "/"@ + segs[0] + "/"@ + trim_end_seq(segs[1], ".git"@);
        assert(r.subrange(0, "https://"@.len() as int) =~= "https://"@);
    }
}

/// An input that starts like a relative or absolute path (`./`, `../` or
/// `/`) and is not read as an ArtifactHub `org/chart` is a local path, held
/// as given; in particular every such input with a `/` count other than one.
pub proof fn lemma_path_prefix_is_local(s: Seq<char>)
    requires
        has_prefix(s, "./"@) || has_prefix(s, "../"@) || has_prefix(s, "/"@),
        !spec_is_artifacthub_package(s) || count_char(s, '/') != 1,
    ensures
        spec_detect_url(s) == Some(Detected::LocalPath(s)),
{
    reveal_strlit("./");
    reveal_strlit("../");
    reveal_strlit("/");
    reveal_strlit("oci://");
    reveal_strlit("https://");
    reveal_strlit("http://");
    assert(s[0] == '.' || s[0] == '/') by {
        if has_prefix(s, "./"@) {
            assert(s.subrange(0, 2)[0] == s[0]);
        } else if has_prefix(s, "../"@) {
            assert(s.subrange(0, 3)[0] == s[0]);
        } else {
            assert(s.subrange(0, 1)[0] == s[0]);
        }
    }
    assert(!has_prefix(s, "oci://"@)) by {
        if has_prefix(s, "oci://"@) {
            assert(s.subrange(0, 6)[0] == s[0]);
        }
    }
    assert(!has_prefix(s, "https://"@)) by {
        if has_prefix(s, "https://"@) {
            assert(s.subrange(0, 8)[0] == s[0]);
        }
    }
    assert(!has_prefix(s, "http://"@)) by {
        if has_prefix(s, "http://"@) {
            assert(s.subrange(0, 7)[0] == s[0]);
        }
    }
    assert(after_scheme(s) is None);
}

} // verus!
