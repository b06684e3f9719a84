//! The lock file: content hashes, the decisions to skip regenerating types
//! or reinstalling plugins, and the entries recorded after generation.
//!
//! What only the file system can tell (whether a generated file exists, the
//! hash of a directory's current content, the version in an installed
//! manifest) is handed in as plain values.
use vstd::prelude::*;

use crate::config::{ChartSource, HusakoConfig, PluginManifest, PluginSource, SchemaSource};
use crate::table::{find_key, has_key, key_pos, keyed, keys_unique, lemma_key_pos, lookup};
use crate::text::{chars_of, string_from};

verus! {

/// Lock entry of a resource dependency.
#[derive(Debug)]
pub enum ResourceLockEntry {
    Release { version: String, generated_at: String },
    Git { repo: String, tag: String, path: String, generated_at: String },
    File { path: String, content_hash: String, generated_at: String },
}

/// Lock entry of a chart dependency.
#[derive(Debug)]
pub enum ChartLockEntry {
    Registry { repo: String, chart: String, version: String, generated_at: String },
    ArtifactHub { package: String, version: String, generated_at: String },
    File { path: String, content_hash: String, generated_at: String },
    Git { repo: String, tag: String, path: String, generated_at: String },
    Oci { reference: String, version: String, generated_at: String },
}

/// Lock entry of a plugin.
#[derive(Debug)]
#[allow(inconsistent_fields)]
pub enum PluginLockEntry {
    Git { url: String, path: Option<String>, plugin_version: String, generated_at: String },
    Path { path: String, content_hash: String, plugin_version: String, generated_at: String },
}

/// The lock file: what the generated types and installed plugins were made from.
#[derive(Debug)]
pub struct HusakoLock {
    /// The version of the lock file's format.
    pub format_version: u32,
    pub husako_version: String,
    pub resources: Vec<(String, ResourceLockEntry)>,
    pub charts: Vec<(String, ChartLockEntry)>,
    pub plugins: Vec<(String, PluginLockEntry)>,
}

impl HusakoLock {
    /// Each table of the lock names every entry once.
    pub open spec fn wf(self) -> bool {
        &&& keys_unique(keyed(self.resources@))
        &&& keys_unique(keyed(self.charts@))
        &&& keys_unique(keyed(self.plugins@))
    }
}

// ---------------------------------------------------------------------------
// djb2 hashing
// ---------------------------------------------------------------------------

/// The djb2 hash: start at 5381 and, for each byte `b`, take `h * 33 + b`
/// modulo 2^64.
pub open spec fn djb2_from(h: u64, data: Seq<u8>) -> u64
    decreases data.len(),
{
    if data.len() == 0 {
        h
    } else {
        djb2_from((((h as int) * 33 + data[0] as int) % 0x1_0000_0000_0000_0000) as u64, data.drop_first())
    }
}

/// The djb2 hash of `data`.
pub open spec fn djb2(data: Seq<u8>) -> u64 {
    djb2_from(5381, data)
}

proof fn lemma_djb2_step(h: u64, b: u8)
    ensures
        vstd::wrapping::u64_specs::wrapping_add(vstd::wrapping::u64_specs::wrapping_mul(h, 33), b as u64)
            == (((h as int) * 33 + b as int) % 0x1_0000_0000_0000_0000) as u64,
{
    let m: int = 0x1_0000_0000_0000_0000;
    let q: int = h as int * 33;
    let p: int = q % m;
    assert(0 <= p < m) by (nonlinear_arith)
        requires
            p == q % m,
            m > 0,
    ;
    assert((h as nat * 33nat) % (m as nat) == p);
    vstd::arithmetic::div_mod::lemma_add_mod_noop(q, b as int, m);
    vstd::arithmetic::div_mod::lemma_small_mod(b as nat, m as nat);
    assert((p + b) % m == if p + b < m { p + b } else { p + b - m }) by (nonlinear_arith)
        requires
            0 <= p < m,
            0 <= b < 256,
            m == 0x1_0000_0000_0000_0000,
    ;
}

/// Continues the djb2 hash `h` over `data`.
pub fn djb2_extend(h: u64, data: &[u8]) -> (r: u64)
    ensures
        r == djb2_from(h, data@),
{
    let mut hash = h;
    let mut i: usize = 0;
    assert(data@.skip(0) =~= data@);
    while i < data.len()
        invariant
            i <= data.len(),
            djb2_from(h, data@) == djb2_from(hash, data@.skip(i as int)),
        decreases data.len() - i,
    {
        let b = data[i];
        proof {
            lemma_djb2_step(hash, b);
            assert(data@.skip(i as int).drop_first() =~= data@.skip(i + 1));
            assert(data@.skip(i as int)[0] == b);
        }
        hash = hash.wrapping_mul(33).wrapping_add(b as u64);
        i += 1;
    }
    hash
}

/// The djb2 hash of `data`.
pub fn djb2_bytes(data: &[u8]) -> (r: u64)
    ensures
        r == djb2(data@),
{
    djb2_extend(5381, data)
}

/// Lower-case hexadecimal digit for `n < 16`.
pub open spec fn lower_hex(n: int) -> char {
    if n < 10 {
        (48 + n) as char
    } else {
        (87 + n) as char
    }
}

/// The last `n` hexadecimal digits of `h`, most significant first (zero-padded).
pub open spec fn hex_digits(h: nat, n: nat) -> Seq<char>
    decreases n,
{
    if n == 0 {
        Seq::empty()
    } else {
        hex_digits(h / 16, (n - 1) as nat).push(lower_hex((h % 16) as int))
    }
}

fn hex_digits_of(h: u64, n: usize) -> (r: Vec<char>)
    ensures
        r@ == hex_digits(h as nat, n as nat),
    decreases n,
{
    if n == 0 {
        Vec::new()
    } else {
        let mut v = hex_digits_of(h / 16, n - 1);
        let d = h % 16;
        let c = if d < 10 {
            (48 + d as u8) as char
        } else {
            (87 + d as u8) as char
        };
        v.push(c);
        v
    }
}

proof fn lemma_hex_digits_len(h: nat, n: nat)
    ensures
        hex_digits(h, n).len() == n,
    decreases n,
{
    if n > 0 {
        lemma_hex_digits_len(h / 16, (n - 1) as nat);
    }
}

/// The hash written as sixteen lower-case hexadecimal digits (`{:016x}`).
pub open spec fn hash_hex(h: u64) -> Seq<char> {
    hex_digits(h as nat, 16)
}

/// The content hash of a file: djb2 of its bytes, as sixteen hex digits.
pub fn hash_content(content: &[u8]) -> (r: String)
    ensures
        r@ == hash_hex(djb2(content@)),
        r@.len() == 16,
{
    let h = djb2_bytes(content);
    proof {
        lemma_hex_digits_len(h as nat, 16);
    }
    string_from(&hex_digits_of(h, 16))
}

/// djb2 over the files of a directory, in the order given: for each file,
/// the bytes of its path relative to the directory, then its content.
pub open spec fn tree_hash(h: u64, files: Seq<(Seq<u8>, Seq<u8>)>) -> u64
    decreases files.len(),
{
    if files.len() == 0 {
        h
    } else {
        tree_hash(djb2_from(djb2_from(h, files[0].0), files[0].1), files.drop_first())
    }
}

/// The content hash of a directory whose files, sorted by path, are given
/// as pairs of relative path bytes and content.
pub fn hash_tree(files: &Vec<(Vec<u8>, Vec<u8>)>) -> (r: String)
    ensures
        r@ == hash_hex(tree_hash(5381, files@.map_values(|f: (Vec<u8>, Vec<u8>)| (f.0@, f.1@)))),
        r@.len() == 16,
{
    let ghost fs = files@.map_values(|f: (Vec<u8>, Vec<u8>)| (f.0@, f.1@));
    let mut hash: u64 = 5381;
    let mut i: usize = 0;
    assert(fs.skip(0) =~= fs);
    while i < files.len()
        invariant
            i <= files.len(),
            fs == files@.map_values(|f: (Vec<u8>, Vec<u8>)| (f.0@, f.1@)),
            tree_hash(5381, fs) == tree_hash(hash, fs.skip(i as int)),
        decreases files.len() - i,
    {
        proof {
            assert(fs.skip(i as int).drop_first() =~= fs.skip(i + 1));
            assert(fs.skip(i as int)[0] == fs[i as int]);
        }
        hash = djb2_extend(hash, files[i].0.as_slice());
        hash = djb2_extend(hash, files[i].1.as_slice());
        i += 1;
    }
    proof {
        lemma_hex_digits_len(hash as nat, 16);
    }
    string_from(&hex_digits_of(hash, 16))
}

// ---------------------------------------------------------------------------
// Skip decisions
// ---------------------------------------------------------------------------

/// A resource's lock entry was made from the same source: same release
/// version; same git repo, tag and path; or same file path with a current
/// content hash that is non-empty and equal to the recorded one. A cluster
/// source never matches, since a live cluster can change at any time.
pub open spec fn resource_matches(source: SchemaSource, entry: Option<ResourceLockEntry>, current_hash: Seq<char>) -> bool {
    match (source, entry) {
        (SchemaSource::Release { version }, Some(ResourceLockEntry::Release { version: lv, .. })) =>
            lv@ == version@,
        (SchemaSource::Git { repo, tag, path }, Some(ResourceLockEntry::Git { repo: lr, tag: lt, path: lp, .. })) =>
            lr@ == repo@ && lt@ == tag@ && lp@ == path@,
        (SchemaSource::File { path }, Some(ResourceLockEntry::File { path: lp, content_hash: lh, .. })) =>
            lp@ == path@ && current_hash == lh@ && current_hash.len() > 0,
        _ => false,
    }
}

fn clone_resource_entry_match(source: &SchemaSource, entry: Option<&ResourceLockEntry>, current_hash: &str) -> (r: bool)
    ensures
        r == resource_matches(*source, match entry {
            Some(e) => Some(*e),
            None => None,
        }, current_hash@),
{
    match (source, entry) {
        (SchemaSource::Release { version }, Some(ResourceLockEntry::Release { version: lv, .. })) => {
            *lv == *version
        },
        (SchemaSource::Git { repo, tag, path }, Some(ResourceLockEntry::Git { repo: lr, tag: lt, path: lp, .. })) => {
            *lr == *repo && *lt == *tag && *lp == *path
        },
        (SchemaSource::File { path }, Some(ResourceLockEntry::File { path: lp, content_hash: lh, .. })) => {
            if !(*lp == *path) {
                return false;
            }
            let cur = chars_of(current_hash);
            let lhv = chars_of(lh.as_str());
            crate::text::seq_eq(&cur, &lhv) && cur.len() > 0
        },
        _ => false,
    }
}

/// Whether the resource `name` with `source` is recorded in `lock` as made
/// from the same source; `current_hash` is the content hash of a file
/// source's path now.
pub fn resource_identity_matches(name: &String, source: &SchemaSource, lock: &HusakoLock, current_hash: &str) -> (r: bool)
    ensures
        r == resource_matches(*source, lookup(keyed(lock.resources@), name@), current_hash@),
{
    let i = find_key(&lock.resources, name);
    proof {
        lemma_key_pos(keyed(lock.resources@), name@);
    }
    if i < lock.resources.len() {
        assert(keyed(lock.resources@)[i as int].1 == lock.resources@[i as int].1);
        clone_resource_entry_match(source, Some(&lock.resources[i].1), current_hash)
    } else {
        clone_resource_entry_match(source, None, current_hash)
    }
}

/// A chart's lock entry was made from the same source.
pub open spec fn chart_matches(source: ChartSource, entry: Option<ChartLockEntry>, current_hash: Seq<char>) -> bool {
    match (source, entry) {
        (ChartSource::Registry { repo, chart, version }, Some(ChartLockEntry::Registry { repo: lr, chart: lc, version: lv, .. })) =>
            lr@ == repo@ && lc@ == chart@ && lv@ == version@,
        (ChartSource::ArtifactHub { package, version }, Some(ChartLockEntry::ArtifactHub { package: lp, version: lv, .. })) =>
            lp@ == package@ && lv@ == version@,
        (ChartSource::File { path }, Some(ChartLockEntry::File { path: lp, content_hash: lh, .. })) =>
            lp@ == path@ && current_hash == lh@ && current_hash.len() > 0,
        (ChartSource::Git { repo, tag, path }, Some(ChartLockEntry::Git { repo: lr, tag: lt, path: lp, .. })) =>
            lr@ == repo@ && lt@ == tag@ && lp@ == path@,
        (ChartSource::Oci { reference, version }, Some(ChartLockEntry::Oci { reference: lr, version: lv, .. })) =>
            lr@ == reference@ && lv@ == version@,
        _ => false,
    }
}

/// Whether the chart `name` with `source` is recorded in `lock` as made from
/// the same source; `current_hash` is the content hash of a file source's
/// path now.
pub fn chart_identity_matches(name: &String, source: &ChartSource, lock: &HusakoLock, current_hash: &str) -> (r: bool)
    ensures
        r == chart_matches(*source, lookup(keyed(lock.charts@), name@), current_hash@),
{
    let i = find_key(&lock.charts, name);
    proof {
        lemma_key_pos(keyed(lock.charts@), name@);
    }
    if i >= lock.charts.len() {
        return false;
    }
    let entry = &lock.charts[i].1;
    assert(keyed(lock.charts@)[i as int].1 == lock.charts@[i as int].1);
    match (source, entry) {
        (ChartSource::Registry { repo, chart, version }, ChartLockEntry::Registry { repo: lr, chart: lc, version: lv, .. }) => {
            *lr == *repo && *lc == *chart && *lv == *version
        },
        (ChartSource::ArtifactHub { package, version }, ChartLockEntry::ArtifactHub { package: lp, version: lv, .. }) => {
            *lp == *package && *lv == *version
        },
        (ChartSource::File { path }, ChartLockEntry::File { path: lp, content_hash: lh, .. }) => {
            if !(*lp == *path) {
                return false;
            }
            let cur = chars_of(current_hash);
            let lhv = chars_of(lh.as_str());
            crate::text::seq_eq(&cur, &lhv) && cur.len() > 0
        },
        (ChartSource::Git { repo, tag, path }, ChartLockEntry::Git { repo: lr, tag: lt, path: lp, .. }) => {
            *lr == *repo && *lt == *tag && *lp == *path
        },
        (ChartSource::Oci { reference, version }, ChartLockEntry::Oci { reference: lr, version: lv, .. }) => {
            *lr == *reference && *lv == *version
        },
        _ => false,
    }
}

/// Whether a chart's types can be kept: there is a lock, made by this
/// version of husako, the chart's generated type file exists, and the lock
/// records the chart as made from the same source.
pub open spec fn spec_should_skip_chart(
    name: Seq<char>,
    source: ChartSource,
    old_lock: Option<HusakoLock>,
    husako_version: Seq<char>,
    type_file_exists: bool,
    current_hash: Seq<char>,
) -> bool {
    match old_lock {
        None => false,
        Some(lock) => lock.husako_version@ == husako_version && type_file_exists && chart_matches(
            source,
            lookup(keyed(lock.charts@), name),
            current_hash,
        ),
    }
}

/// Returns `true` if a single Helm chart's type generation can be skipped.
/// `type_file_exists` says whether `helm/<name>.d.ts` exists among the
/// generated types; `current_hash` is the content hash of a file source's
/// path now.
pub fn should_skip_chart(
    name: &String,
    source: &ChartSource,
    old_lock: Option<&HusakoLock>,
    husako_version: &str,
    type_file_exists: bool,
    current_hash: &str,
) -> (r: bool)
    ensures
        r == spec_should_skip_chart(name@, *source, match old_lock {
            Some(l) => Some(*l),
            None => None,
        }, husako_version@, type_file_exists, current_hash@),
{
    let lock = match old_lock {
        None => return false,
        Some(l) => l,
    };
    let v = chars_of(husako_version);
    let lv = chars_of(lock.husako_version.as_str());
    if !crate::text::seq_eq(&lv, &v) {
        return false;
    }
    if !type_file_exists {
        return false;
    }
    chart_identity_matches(name, source, lock, current_hash)
}

/// Whether every resource's types can be kept: there is a configuration and
/// a lock made by this version of husako, the k8s type directory has files,
/// the configuration and the lock name the same resources, and each resource
/// is recorded as made from the same source. `hashes` gives the current
/// content hash of each file source, by resource name.
pub open spec fn spec_should_skip_k8s(
    config: Option<HusakoConfig>,
    old_lock: Option<HusakoLock>,
    husako_version: Seq<char>,
    k8s_types_present: bool,
    hashes: Seq<(Seq<char>, String)>,
) -> bool {
    match (old_lock, config) {
        (Some(lock), Some(cfg)) => {
            &&& lock.husako_version@ == husako_version
            &&& k8s_types_present
            &&& forall|k: Seq<char>| has_key(keyed(cfg.resources@), k) <==> has_key(keyed(lock.resources@), k)
            &&& forall|i: int| 0 <= i < cfg.resources@.len() ==> resource_matches(
                #[trigger] cfg.resources@[i].1,
                lookup(keyed(lock.resources@), cfg.resources@[i].0@),
                hash_for(hashes, cfg.resources@[i].0@),
            )
        },
        _ => false,
    }
}

/// The hash recorded for `name`, or the empty text.
pub open spec fn hash_for(hashes: Seq<(Seq<char>, String)>, name: Seq<char>) -> Seq<char> {
    match lookup(hashes, name) {
        Some(h) => h@,
        None => Seq::empty(),
    }
}

fn has_name<V>(m: &Vec<(String, V)>, k: &String) -> (r: bool)
    ensures
        r == has_key(keyed(m@), k@),
{
    let i = find_key(m, k);
    proof {
        lemma_key_pos(keyed(m@), k@);
    }
    i < m.len()
}

fn hash_of(hashes: &Vec<(String, String)>, name: &String) -> (r: String)
    ensures
        r@ == hash_for(keyed(hashes@), name@),
{
    let i = find_key(hashes, name);
    proof {
        lemma_key_pos(keyed(hashes@), name@);
    }
    if i < hashes.len() {
        hashes[i].1.clone()
    } else {
        String::new()
    }
}

/// Returns `true` if the whole block of k8s resource types can be kept:
/// resources are one unit, so if any resource fails its check, all k8s types
/// are regenerated. `k8s_types_present` says whether the k8s type directory
/// exists and has files; `hashes` gives the current content hash of each
/// file source, by resource name.
#[verifier::loop_isolation(false)]
pub fn should_skip_k8s(
    config: Option<&HusakoConfig>,
    old_lock: Option<&HusakoLock>,
    husako_version: &str,
    k8s_types_present: bool,
    hashes: &Vec<(String, String)>,
) -> (r: bool)
    ensures
        r == spec_should_skip_k8s(
            match config {
                Some(c) => Some(*c),
                None => None,
            },
            match old_lock {
                Some(l) => Some(*l),
                None => None,
            },
            husako_version@,
            k8s_types_present,
            keyed(hashes@),
        ),
{
    let lock = match old_lock {
        None => return false,
        Some(l) => l,
    };
    let config = match config {
        None => return false,
        Some(c) => c,
    };
    let v = chars_of(husako_version);
    let lv = chars_of(lock.husako_version.as_str());
    if !crate::text::seq_eq(&lv, &v) {
        return false;
    }
    if !k8s_types_present {
        return false;
    }
    let ghost ck = keyed(config.resources@);
    let ghost lk = keyed(lock.resources@);
    let mut i: usize = 0;
    while i < config.resources.len()
        invariant
            i <= config.resources.len(),
            ck == keyed(config.resources@),
            lk == keyed(lock.resources@),
            forall|j: int| 0 <= j < i ==> has_key(lk, #[trigger] ck[j].0),
        decreases config.resources.len() - i,
    {
        if !has_name(&lock.resources, &config.resources[i].0) {
            assert(ck[i as int].0 == config.resources@[i as int].0@);
            assert(has_key(ck, ck[i as int].0));
            return false;
        }
        i += 1;
    }
    let mut i: usize = 0;
    while i < lock.resources.len()
        invariant
            i <= lock.resources.len(),
            ck == keyed(config.resources@),
            lk == keyed(lock.resources@),
            forall|j: int| 0 <= j < i ==> has_key(ck, #[trigger] lk[j].0),
        decreases lock.resources.len() - i,
    {
        if !has_name(&config.resources, &lock.resources[i].0) {
            assert(lk[i as int].0 == lock.resources@[i as int].0@);
            assert(has_key(lk, lk[i as int].0));
            return false;
        }
        i += 1;
    }
    assert forall|k: Seq<char>| has_key(ck, k) <==> has_key(lk, k) by {
        if has_key(ck, k) {
            let j = choose|j: int| 0 <= j < ck.len() && ck[j].0 == k;
            assert(has_key(lk, ck[j].0));
        }
        if has_key(lk, k) {
            let j = choose|j: int| 0 <= j < lk.len() && lk[j].0 == k;
            assert(has_key(ck, lk[j].0));
        }
    }
    let mut i: usize = 0;
    while i < config.resources.len()
        invariant
            i <= config.resources.len(),
            forall|j: int| 0 <= j < i ==> resource_matches(
                #[trigger] config.resources@[j].1,
                lookup(keyed(lock.resources@), config.resources@[j].0@),
                hash_for(keyed(hashes@), config.resources@[j].0@),
            ),
        decreases config.resources.len() - i,
    {
        let (name, source) = &config.resources[i];
        let h = hash_of(hashes, name);
        if !resource_identity_matches(name, source, lock, h.as_str()) {
            assert(!resource_matches(
                config.resources@[i as int].1,
                lookup(keyed(lock.resources@), config.resources@[i as int].0@),
                hash_for(keyed(hashes@), config.resources@[i as int].0@),
            ));
            return false;
        }
        i += 1;
    }
    true
}

/// Whether a plugin's installation can be reused: there is a lock with an
/// entry for it, its installed directory exists, the source is of the same
/// kind with the same location (and, for a path source, a non-empty current
/// content hash equal to the recorded one), and the installed manifest has
/// the recorded version.
pub open spec fn spec_should_skip_plugin(
    name: Seq<char>,
    source: PluginSource,
    old_lock: Option<HusakoLock>,
    dir_exists: bool,
    installed_version: Option<Seq<char>>,
    current_hash: Seq<char>,
) -> bool {
    match old_lock {
        None => false,
        Some(lock) => match lookup(keyed(lock.plugins@), name) {
            None => false,
            Some(entry) => dir_exists && match (source, entry) {
                (PluginSource::Git { url, path }, PluginLockEntry::Git { url: lu, path: lp, plugin_version: lv, .. }) =>
                    url@ == lu@ && crate::url_detect::opt_view(path) == crate::url_detect::opt_view(lp)
                        && installed_version == Some(lv@),
                (PluginSource::Path { path }, PluginLockEntry::Path { path: lp, content_hash: lh, plugin_version: lv, .. }) =>
                    path@ == lp@ && current_hash == lh@ && current_hash.len() > 0 && installed_version == Some(lv@),
                _ => false,
            },
        },
    }
}

fn opt_str_eq(a: &Option<String>, b: &Option<String>) -> (r: bool)
    ensures
        r == (crate::url_detect::opt_view(*a) == crate::url_detect::opt_view(*b)),
{
    match (a, b) {
        (Some(x), Some(y)) => *x == *y,
        (None, None) => true,
        _ => false,
    }
}

/// Returns `true` if a plugin can be reused from the existing installation
/// without re-cloning or re-copying. `dir_exists` says whether the installed
/// directory exists; `installed_version` is the version in its manifest, if
/// it has a readable one; `current_hash` is the content hash of a path
/// source's directory now.
pub fn should_skip_plugin(
    name: &String,
    source: &PluginSource,
    old_lock: Option<&HusakoLock>,
    dir_exists: bool,
    installed_version: Option<&str>,
    current_hash: &str,
) -> (r: bool)
    ensures
        r == spec_should_skip_plugin(name@, *source, match old_lock {
            Some(l) => Some(*l),
            None => None,
        }, dir_exists, match installed_version {
            Some(v) => Some(v@),
            None => None,
        }, current_hash@),
{
    let lock = match old_lock {
        None => return false,
        Some(l) => l,
    };
    let i = find_key(&lock.plugins, name);
    proof {
        lemma_key_pos(keyed(lock.plugins@), name@);
    }
    if i >= lock.plugins.len() {
        return false;
    }
    if !dir_exists {
        return false;
    }
    let version_is = |lv: &String| -> (b: bool)
        ensures
            b == (match installed_version {
                Some(v) => Some(v@),
                None => None,
            } == Some(lv@)),
        {
            match installed_version {
                Some(v) => {
                    let a = chars_of(v);
                    let b = chars_of(lv.as_str());
                    crate::text::seq_eq(&a, &b)
                },
                None => false,
            }
        };
    match (source, &lock.plugins[i].1) {
        (PluginSource::Git { url, path }, PluginLockEntry::Git { url: lu, path: lp, plugin_version: lv, .. }) => {
            if !(*url == *lu) || !opt_str_eq(path, lp) {
                return false;
            }
            version_is(lv)
        },
        (PluginSource::Path { path }, PluginLockEntry::Path { path: lp, content_hash: lh, plugin_version: lv, .. }) => {
            if !(*path == *lp) {
                return false;
            }
            let cur = chars_of(current_hash);
            let lhv = chars_of(lh.as_str());
            if !crate::text::seq_eq(&cur, &lhv) || cur.len() == 0 {
                return false;
            }
            version_is(lv)
        },
        _ => false,
    }
}

// ---------------------------------------------------------------------------
// Entry builders
// ---------------------------------------------------------------------------

/// The lock entry recorded for a resource source: its fields, the time of
/// generation, and for a file source its content hash. A cluster source has
/// no entry.
pub open spec fn resource_entry_for(source: SchemaSource, now: Seq<char>, hash: Seq<char>, e: ResourceLockEntry) -> bool {
    match (source, e) {
        (SchemaSource::Release { version }, ResourceLockEntry::Release { version: v, generated_at: g }) =>
            v@ == version@ && g@ == now,
        (SchemaSource::Git { repo, tag, path }, ResourceLockEntry::Git { repo: r, tag: t, path: p, generated_at: g }) =>
            r@ == repo@ && t@ == tag@ && p@ == path@ && g@ == now,
        (SchemaSource::File { path }, ResourceLockEntry::File { path: p, content_hash: h, generated_at: g }) =>
            p@ == path@ && h@ == hash && g@ == now,
        _ => false,
    }
}

/// The entry `e` records the resource `res` (name and source), with
/// generation time `now` and file hashes `hashes`.
pub open spec fn records(res: (String, SchemaSource), now: Seq<char>, hashes: Seq<(Seq<char>, String)>, e: (String, ResourceLockEntry)) -> bool {
    e.0@ == res.0@ && resource_entry_for(res.1, now, hash_for(hashes, res.0@), e.1)
}

/// `r` holds, in order, one entry recording each resource of `res` that is
/// not a cluster source.
pub open spec fn records_all(
    res: Seq<(String, SchemaSource)>,
    now: Seq<char>,
    hashes: Seq<(Seq<char>, String)>,
    r: Seq<(String, ResourceLockEntry)>,
) -> bool
    decreases res.len(),
{
    if res.len() == 0 {
        r.len() == 0
    } else if res.last().1 is Cluster {
        records_all(res.drop_last(), now, hashes, r)
    } else {
        r.len() > 0 && records(res.last(), now, hashes, r.last()) && records_all(
            res.drop_last(),
            now,
            hashes,
            r.drop_last(),
        )
    }
}

/// Build lock entries for the resource sources of the config, in order;
/// `now` is the time of generation and `hashes` gives the content hash of
/// each file source, by resource name. Cluster sources are not recorded.
pub fn build_resource_entries(config: &HusakoConfig, now: &str, hashes: &Vec<(String, String)>) -> (r: Vec<(String, ResourceLockEntry)>)
    ensures
        records_all(config.resources@, now@, keyed(hashes@), r@),
{
    let ghost res = config.resources@;
    let ghost hs = keyed(hashes@);
    let mut entries: Vec<(String, ResourceLockEntry)> = Vec::new();
    let mut i: usize = 0;
    while i < config.resources.len()
        invariant
            i <= config.resources.len(),
            res == config.resources@,
            hs == keyed(hashes@),
            records_all(res.take(i as int), now@, hs, entries@),
        decreases config.resources.len() - i,
    {
        let (name, source) = &config.resources[i];
        let entry = match source {
            SchemaSource::Release { version } => Some(ResourceLockEntry::Release {
                version: version.clone(),
                generated_at: String::from_str(now),
            }),
            SchemaSource::Git { repo, tag, path } => Some(ResourceLockEntry::Git {
                repo: repo.clone(),
                tag: tag.clone(),
                path: path.clone(),
                generated_at: String::from_str(now),
            }),
            SchemaSource::File { path } => Some(ResourceLockEntry::File {
                path: path.clone(),
                content_hash: hash_of(hashes, name),
                generated_at: String::from_str(now),
            }),
            SchemaSource::Cluster { .. } => None,
        };
        let ghost prev = entries@;
        assert(res.take(i + 1).drop_last() =~= res.take(i as int));
        assert(res.take(i + 1).last() == res[i as int]);
        match entry {
            Some(e) => {
                entries.push((name.clone(), e));
                assert(entries@.drop_last() =~= prev);
            },
            None => {},
        }
        i += 1;
    }
    assert(res.take(res.len() as int) =~= res);
    entries
}

/// The lock entry recorded for a chart source.
pub open spec fn chart_entry_for(source: ChartSource, now: Seq<char>, hash: Seq<char>, e: ChartLockEntry) -> bool {
    match (source, e) {
        (ChartSource::Registry { repo, chart, version }, ChartLockEntry::Registry { repo: r, chart: c, version: v, generated_at: g }) =>
            r@ == repo@ && c@ == chart@ && v@ == version@ && g@ == now,
        (ChartSource::ArtifactHub { package, version }, ChartLockEntry::ArtifactHub { package: p, version: v, generated_at: g }) =>
            p@ == package@ && v@ == version@ && g@ == now,
        (ChartSource::File { path }, ChartLockEntry::File { path: p, content_hash: h, generated_at: g }) =>
            p@ == path@ && h@ == hash && g@ == now,
        (ChartSource::Git { repo, tag, path }, ChartLockEntry::Git { repo: r, tag: t, path: p, generated_at: g }) =>
            r@ == repo@ && t@ == tag@ && p@ == path@ && g@ == now,
        (ChartSource::Oci { reference, version }, ChartLockEntry::Oci { reference: r, version: v, generated_at: g }) =>
            r@ == reference@ && v@ == version@ && g@ == now,
        _ => false,
    }
}

/// Build a lock entry for a single Helm chart source; `now` is the time of
/// generation and `content_hash` the hash of a file source's path.
pub fn build_chart_entry(source: &ChartSource, now: &str, content_hash: &str) -> (r: ChartLockEntry)
    ensures
        chart_entry_for(*source, now@, content_hash@, r),
{
    let now = String::from_str(now);
    match source {
        ChartSource::Registry { repo, chart, version } => ChartLockEntry::Registry {
            repo: repo.clone(),
            chart: chart.clone(),
            version: version.clone(),
            generated_at: now,
        },
        ChartSource::ArtifactHub { package, version } => ChartLockEntry::ArtifactHub {
            package: package.clone(),
            version: version.clone(),
            generated_at: now,
        },
        ChartSource::File { path } => ChartLockEntry::File {
            path: path.clone(),
            content_hash: String::from_str(content_hash),
            generated_at: now,
        },
        ChartSource::Git { repo, tag, path } => ChartLockEntry::Git {
            repo: repo.clone(),
            tag: tag.clone(),
            path: path.clone(),
            generated_at: now,
        },
        ChartSource::Oci { reference, version } => ChartLockEntry::Oci {
            reference: reference.clone(),
            version: version.clone(),
            generated_at: now,
        },
    }
}

/// The lock entry recorded for a plugin: its source, the version in its
/// manifest and the time of installation; for a path source the content
/// hash of the source directory, or of the installed directory when the
/// source directory gave none.
pub open spec fn plugin_entry_for(
    source: PluginSource,
    version: Seq<char>,
    now: Seq<char>,
    source_hash: Seq<char>,
    installed_hash: Seq<char>,
    e: PluginLockEntry,
) -> bool {
    match (source, e) {
        (PluginSource::Git { url, path }, PluginLockEntry::Git { url: u, path: p, plugin_version: v, generated_at: g }) =>
            u@ == url@ && crate::url_detect::opt_view(p) == crate::url_detect::opt_view(path) && v@ == version && g@ == now,
        (PluginSource::Path { path }, PluginLockEntry::Path { path: p, content_hash: h, plugin_version: v, generated_at: g }) =>
            p@ == path@ && h@ == (if source_hash.len() == 0 { installed_hash } else { source_hash })
                && v@ == version && g@ == now,
        _ => false,
    }
}

/// Build a lock entry for a plugin after successful installation; `now` is
/// the time of installation, `source_hash` and `installed_hash` the content
/// hashes of a path source's directory and of the installed directory.
pub fn build_plugin_entry(
    source: &PluginSource,
    manifest: &PluginManifest,
    now: &str,
    source_hash: &str,
    installed_hash: &str,
) -> (r: PluginLockEntry)
    ensures
        plugin_entry_for(*source, manifest.plugin.version@, now@, source_hash@, installed_hash@, r),
{
    let version = manifest.plugin.version.clone();
    let now = String::from_str(now);
    match source {
        PluginSource::Git { url, path } => PluginLockEntry::Git {
            url: url.clone(),
            path: match path {
                Some(p) => Some(p.clone()),
                None => None,
            },
            plugin_version: version,
            generated_at: now,
        },
        PluginSource::Path { path } => {
            let sh = chars_of(source_hash);
            let content_hash = if sh.len() == 0 {
                String::from_str(installed_hash)
            } else {
                String::from_str(source_hash)
            };
            PluginLockEntry::Path { path: path.clone(), content_hash, plugin_version: version, generated_at: now }
        },
    }
}

// ---------------------------------------------------------------------------
// What is recorded is accepted again
// ---------------------------------------------------------------------------

/// A chart recorded in the lock is skipped next time while nothing changed:
/// the lock holds the entry built for its source, was made by this version
/// of husako, its type file exists, and a file source still hashes to the
/// recorded, non-empty hash.
pub proof fn lemma_recorded_chart_is_skipped(
    name: Seq<char>,
    source: ChartSource,
    lock: HusakoLock,
    now: Seq<char>,
    hash: Seq<char>,
    entry: ChartLockEntry,
)
    requires
        chart_entry_for(source, now, hash, entry),
        lookup(keyed(lock.charts@), name) == Some(entry),
        source is File ==> hash.len() > 0,
    ensures
        spec_should_skip_chart(name, source, Some(lock), lock.husako_version@, true, hash),
{
}

/// Two chart sources name the same chart: the same kind of source with the
/// same repository, chart, package, reference, tag, path and version.
pub open spec fn same_chart_source(a: ChartSource, b: ChartSource) -> bool {
    match (a, b) {
        (ChartSource::Registry { repo, chart, version }, ChartSource::Registry { repo: r, chart: c, version: v }) =>
            repo@ == r@ && chart@ == c@ && version@ == v@,
        (ChartSource::ArtifactHub { package, version }, ChartSource::ArtifactHub { package: p, version: v }) =>
            package@ == p@ && version@ == v@,
        (ChartSource::File { path }, ChartSource::File { path: p }) => path@ == p@,
        (ChartSource::Git { repo, tag, path }, ChartSource::Git { repo: r, tag: t, path: p }) =>
            repo@ == r@ && tag@ == t@ && path@ == p@,
        (ChartSource::Oci { reference, version }, ChartSource::Oci { reference: r, version: v }) =>
            reference@ == r@ && version@ == v@,
        _ => false,
    }
}

/// A chart recorded in the lock is generated again when anything changed:
/// its source is now of another kind or differs in one of its fields, or
/// the lock was made by another version of husako.
pub proof fn lemma_changed_chart_is_not_skipped(
    name: Seq<char>,
    recorded: ChartSource,
    source: ChartSource,
    lock: HusakoLock,
    now: Seq<char>,
    hash: Seq<char>,
    entry: ChartLockEntry,
    husako_version: Seq<char>,
    type_file_exists: bool,
    current_hash: Seq<char>,
)
    requires
        chart_entry_for(recorded, now, hash, entry),
        lookup(keyed(lock.charts@), name) == Some(entry),
        !same_chart_source(source, recorded) || lock.husako_version@ != husako_version,
    ensures
        !spec_should_skip_chart(name, source, Some(lock), husako_version, type_file_exists, current_hash),
{
}

/// A plugin recorded in the lock is skipped next time while nothing
/// changed: same source, same installed version, installed directory
/// present, and for a path source the same non-empty content hash.
pub proof fn lemma_recorded_plugin_is_skipped(
    name: Seq<char>,
    source: PluginSource,
    lock: HusakoLock,
    version: Seq<char>,
    now: Seq<char>,
    source_hash: Seq<char>,
    installed_hash: Seq<char>,
    entry: PluginLockEntry,
)
    requires
        plugin_entry_for(source, version, now, source_hash, installed_hash, entry),
        lookup(keyed(lock.plugins@), name) == Some(entry),
        source is Path ==> (if source_hash.len() == 0 { installed_hash } else { source_hash }).len() > 0,
    ensures
        spec_should_skip_plugin(
            name,
            source,
            Some(lock),
            true,
            Some(version),
            if source_hash.len() == 0 {
                installed_hash
            } else {
                source_hash
            },
        ),
{
}

proof fn lemma_records_all_pointwise(
    res: Seq<(String, SchemaSource)>,
    now: Seq<char>,
    hashes: Seq<(Seq<char>, String)>,
    r: Seq<(String, ResourceLockEntry)>,
)
    requires
        records_all(res, now, hashes, r),
        forall|i: int| 0 <= i < res.len() ==> !(#[trigger] res[i].1 is Cluster),
    ensures
        r.len() == res.len(),
        forall|i: int| 0 <= i < res.len() ==> records(res[i], now, hashes, #[trigger] r[i]),
    decreases res.len(),
{
    if res.len() > 0 {
        assert(!(res[res.len() - 1].1 is Cluster));
        assert forall|i: int| 0 <= i < res.drop_last().len() implies !(#[trigger] res.drop_last()[i].1 is Cluster) by {
            assert(res.drop_last()[i] == res[i]);
        }
        lemma_records_all_pointwise(res.drop_last(), now, hashes, r.drop_last());
        assert forall|i: int| 0 <= i < res.len() implies records(res[i], now, hashes, #[trigger] r[i]) by {
            if i < res.len() - 1 {
                assert(res.drop_last()[i] == res[i]);
                assert(r.drop_last()[i] == r[i]);
            }
        }
    }
}

proof fn lemma_unique_key_pos<V>(m: Seq<(Seq<char>, V)>, i: int)
    requires
        keys_unique(m),
        0 <= i < m.len(),
    ensures
        lookup(m, m[i].0) == Some(m[i].1),
{
    lemma_key_pos(m, m[i].0);
    let p = key_pos(m, m[i].0);
    assert(has_key(m, m[i].0));
    if p != i {
        assert(m[p].0 == m[i].0);
    }
}

/// Generating records every resource of the configuration; checking the
/// same configuration against that record with this version of husako and
/// the types in place skips regeneration, as long as no resource reads a
/// live cluster (those are never recorded), names are unique, and every
/// file source still hashes to its recorded, non-empty hash.
pub proof fn lemma_recorded_resources_are_skipped(
    cfg: HusakoConfig,
    lock: HusakoLock,
    now: Seq<char>,
    hashes: Seq<(Seq<char>, String)>,
)
    requires
        records_all(cfg.resources@, now, hashes, lock.resources@),
        keys_unique(keyed(cfg.resources@)),
        forall|i: int| 0 <= i < cfg.resources@.len() ==> !(#[trigger] cfg.resources@[i].1 is Cluster),
        forall|i: int|
            0 <= i < cfg.resources@.len() && (#[trigger] cfg.resources@[i].1 is File) ==> hash_for(
                hashes,
                cfg.resources@[i].0@,
            ).len() > 0,
    ensures
        spec_should_skip_k8s(Some(cfg), Some(lock), lock.husako_version@, true, hashes),
{
    let res = cfg.resources@;
    let r = lock.resources@;
    lemma_records_all_pointwise(res, now, hashes, r);
    let kc = keyed(res);
    let kl = keyed(r);
    assert forall|i: int| 0 <= i < res.len() implies #[trigger] kl[i].0 == kc[i].0 by {
        assert(records(res[i], now, hashes, r[i]));
    }
    assert(keys_unique(kl)) by {
        assert forall|i: int, j: int| 0 <= i < kl.len() && 0 <= j < kl.len() && i != j implies kl[i].0 != kl[j].0 by {
            assert(kl[i].0 == kc[i].0);
            assert(kl[j].0 == kc[j].0);
        }
    }
    assert forall|k: Seq<char>| has_key(kc, k) <==> has_key(kl, k) by {
        if has_key(kc, k) {
            let i = choose|i: int| 0 <= i < kc.len() && kc[i].0 == k;
            assert(kl[i].0 == k);
        }
        if has_key(kl, k) {
            let i = choose|i: int| 0 <= i < kl.len() && kl[i].0 == k;
            assert(kc[i].0 == k);
        }
    }
    assert forall|i: int| 0 <= i < res.len() implies resource_matches(
        #[trigger] res[i].1,
        lookup(kl, res[i].0@),
        hash_for(hashes, res[i].0@),
    ) by {
        assert(records(res[i], now, hashes, r[i]));
        lemma_unique_key_pos(kl, i);
        assert(kl[i] == (r[i].0@, r[i].1));
    }
}

} // verus!
