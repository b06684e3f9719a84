//! Date formatting, report headers and the facts shown in them, and the
//! arguments of the benchmark report tool.
use vstd::prelude::*;

use crate::text::{
    char_pos, chars_of, eq_str, find_char, has_prefix, lemma_char_pos, push_all, push_str, slice,
    split, split_on, starts_with_str, string_from,
};
use crate::url_detect::opt_view;
use crate::versions::{lines, lines_of};
use crate::workspace::{trim_space, trim_start_space, trimmed, trimmed_start};

verus! {

// ---------------------------------------------------------------------------
// Decimal text
// ---------------------------------------------------------------------------

/// The decimal digit for `n < 10`.
pub open spec fn digit_char(n: nat) -> char {
    (48 + n) as char
}

/// The decimal text of `n`, without leading zeros.
pub open spec fn decimal(n: nat) -> Seq<char>
    decreases n,
{
    if n < 10 {
        seq![digit_char(n)]
    } else {
        decimal(n / 10).push(digit_char(n % 10))
    }
}

/// The decimal text of `n`, with leading zeros up to `width` characters.
pub open spec fn padded(n: nat, width: nat) -> Seq<char> {
    if decimal(n).len() >= width {
        decimal(n)
    } else {
        Seq::new((width - decimal(n).len()) as nat, |_i: int| '0') + decimal(n)
    }
}

pub fn decimal_of(n: u64) -> (r: Vec<char>)
    ensures
        r@ == decimal(n as nat),
    decreases n,
{
    if n < 10 {
        let mut v: Vec<char> = Vec::new();
        v.push((48 + n as u8) as char);
        v
    } else {
        let mut v = decimal_of(n / 10);
        v.push((48 + (n % 10) as u8) as char);
        v
    }
}

/// Appends `n` with leading zeros up to `width` characters.
fn push_padded(out: &mut Vec<char>, n: u64, width: usize)
    ensures
        final(out)@ == old(out)@ + padded(n as nat, width as nat),
{
    let d = decimal_of(n);
    let mut zeros: Vec<char> = Vec::new();
    if d.len() < width {
        let k = width - d.len();
        let mut i: usize = 0;
        while i < k
            invariant
                i <= k,
                zeros@ == Seq::new(i as nat, |_i: int| '0'),
            decreases k - i,
        {
            zeros.push('0');
            assert(zeros@ =~= Seq::new((i + 1) as nat, |_i: int| '0'));
            i += 1;
        }
    }
    push_all(out, &zeros);
    push_all(out, &d);
    assert(final(out)@ =~= old(out)@ + padded(n as nat, width as nat)) by {
        if d@.len() >= width {
            assert(zeros@ =~= Seq::<char>::empty());
        }
    };
}

// ---------------------------------------------------------------------------
// Calendar
// ---------------------------------------------------------------------------

/// A leap year of the proleptic Gregorian calendar.
pub open spec fn is_leap_year(year: int) -> bool {
    (year % 4 == 0 && year % 100 != 0) || year % 400 == 0
}

/// Days in `year`.
pub open spec fn year_len(year: int) -> int {
    if is_leap_year(year) { 366 } else { 365 }
}

/// Days from 1970-01-01 to the first day of `year` (for `year >= 1970`).
pub open spec fn days_before_year(year: int) -> int
    decreases year - 1970,
{
    if year <= 1970 {
        0
    } else {
        days_before_year(year - 1) + year_len(year - 1)
    }
}

/// Days in month `month` (1 to 12) of `year`.
pub open spec fn month_len(year: int, month: int) -> int {
    if month == 2 {
        if is_leap_year(year) { 29 } else { 28 }
    } else if month == 4 || month == 6 || month == 9 || month == 11 {
        30
    } else {
        31
    }
}

/// Days from the first day of `year` to the first day of `month`.
pub open spec fn days_before_month(year: int, month: int) -> int
    decreases month,
{
    if month <= 1 {
        0
    } else {
        days_before_month(year, month - 1) + month_len(year, month - 1)
    }
}

/// `year-month-day` is the date `days` days after 1970-01-01.
pub open spec fn is_date_of(days: int, year: int, month: int, day: int) -> bool {
    &&& year >= 1970
    &&& 1 <= month <= 12
    &&& 1 <= day <= month_len(year, month)
    &&& days == days_before_year(year) + days_before_month(year, month) + day - 1
}

/// `YYYY-MM-DD HH:MM:SS` with each field zero-padded.
pub open spec fn datetime_text(year: nat, month: nat, day: nat, h: nat, m: nat, s: nat) -> Seq<char> {
    padded(year, 4) + seq!['-'] + padded(month, 2) + seq!['-'] + padded(day, 2) + seq![' '] + padded(h, 2)
        + seq![':'] + padded(m, 2) + seq![':'] + padded(s, 2)
}

/// Returns whether `year` is a leap year of the proleptic Gregorian calendar.
pub fn is_leap(year: u64) -> (r: bool)
    ensures
        r == is_leap_year(year as int),
{
    (year % 4 == 0 && year % 100 != 0) || year % 400 == 0
}

proof fn lemma_days_before_month_bound(year: int, month: int)
    requires
        1 <= month <= 13,
    ensures
        days_before_month(year, month) >= 0,
        month == 13 ==> days_before_month(year, month) == year_len(year),
    decreases month,
{
    if month > 1 {
        lemma_days_before_month_bound(year, month - 1);
    }
    if month == 13 {
        reveal_with_fuel(days_before_month, 13);
    }
}

/// `t` is the time `secs` seconds after the Unix epoch, written as
/// `YYYY-MM-DD HH:MM:SS` (UTC, proleptic Gregorian calendar).
pub open spec fn formats_datetime(secs: u64, t: Seq<char>) -> bool {
    exists|year: nat, month: nat, day: nat|
        #[trigger] is_date_of((secs / 86400) as int, year as int, month as int, day as int) && t
            == datetime_text(
            year,
            month,
            day,
            ((secs % 86400) / 3600) as nat,
            ((secs % 3600) / 60) as nat,
            (secs % 60) as nat,
        )
}

/// Formats a time given as seconds since the Unix epoch as
/// `YYYY-MM-DD HH:MM:SS` (UTC, proleptic Gregorian calendar).
pub fn format_datetime(secs: u64) -> (r: String)
    ensures
        formats_datetime(secs, r@),
{
    let days = secs / 86400;
    let time_of_day = secs % 86400;
    let h = time_of_day / 3600;
    let m = (time_of_day % 3600) / 60;
    let s = time_of_day % 60;
    assert((secs % 86400) % 3600 == secs % 3600) by (nonlinear_arith);
    assert((secs % 86400) % 60 == secs % 60) by (nonlinear_arith);
    let mut remaining = days;
    let mut year: u64 = 1970;
    loop
        invariant
            1970 <= year,
            year - 1970 <= days - remaining,
            remaining <= days,
            days == secs / 86400,
            days_before_year(year as int) + remaining == days,
        ensures
            1970 <= year,
            days_before_year(year as int) + remaining == days,
            remaining < year_len(year as int),
        decreases remaining,
    {
        let days_in_year: u64 = if is_leap(year) { 366 } else { 365 };
        if remaining < days_in_year {
            break;
        }
        remaining -= days_in_year;
        year += 1;
    }
    let leap = is_leap(year);
    let mut month: u64 = 1;
    proof {
        lemma_days_before_month_bound(year as int, 13);
        assert(days_before_month(year as int, 1) == 0);
    }
    loop
        invariant
            1 <= month <= 12,
            remaining < year_len(year as int) - days_before_month(year as int, month as int),
            days_before_year(year as int) + days_before_month(year as int, month as int) + remaining
                == days,
            leap == is_leap_year(year as int),
            days_before_month(year as int, 13) == year_len(year as int),
        ensures
            1 <= month <= 12,
            days_before_year(year as int) + days_before_month(year as int, month as int) + remaining
                == days,
            remaining < month_len(year as int, month as int),
        decreases 12 - month,
    {
        let md: u64 = if month == 2 {
            if leap { 29 } else { 28 }
        } else if month == 4 || month == 6 || month == 9 || month == 11 {
            30
        } else {
            31
        };
        if remaining < md {
            break;
        }
        proof {
            if month == 12 {
                reveal_with_fuel(days_before_month, 13);
                assert(false);
            }
        }
        remaining -= md;
        month += 1;
    }
    let day = remaining + 1;
    let mut out: Vec<char> = Vec::new();
    push_padded(&mut out, year, 4);
    out.push('-');
    push_padded(&mut out, month, 2);
    out.push('-');
    push_padded(&mut out, day, 2);
    out.push(' ');
    push_padded(&mut out, h, 2);
    out.push(':');
    push_padded(&mut out, m, 2);
    out.push(':');
    push_padded(&mut out, s, 2);
    assert(is_date_of(days as int, year as int, month as int, day as int));
    assert(out@ =~= datetime_text(year as nat, month as nat, day as nat, h as nat, m as nat, s as nat));
    string_from(&out)
}

// ---------------------------------------------------------------------------
// Report header
// ---------------------------------------------------------------------------

/// Facts about the run shown at the top of the benchmark reports.
pub struct Meta {
    pub datetime: String,
    pub commit: String,
    pub version: String,
    pub platform: String,
    pub cpu: String,
    pub memory: Option<String>,
    pub runner: Option<String>,
}

/// One header line: `> <label>: <value>` and a line break.
pub open spec fn header_line(label: Seq<char>, value: Seq<char>) -> Seq<char> {
    label + value + "\n"@
}

/// The header lines: generation time, commit, version, platform, CPU, and
/// the memory and runner lines when they are known.
pub open spec fn header_text(meta: Meta) -> Seq<char> {
    header_line("> Generated: "@, meta.datetime@) + header_line("> Commit: "@, meta.commit@)
        + header_line("> Version: husako v"@, meta.version@) + header_line("> Platform: "@, meta.platform@)
        + header_line("> CPU: "@, meta.cpu@) + (match meta.memory {
        Some(mem) => header_line("> Memory: "@, mem@),
        None => Seq::empty(),
    }) + (match meta.runner {
        Some(run) => header_line("> Runner: "@, run@),
        None => Seq::empty(),
    })
}

fn push_line(v: &mut Vec<char>, label: &str, value: &String)
    ensures
        final(v)@ == old(v)@ + header_line(label@, value@),
{
    push_str(v, label);
    push_str(v, value.as_str());
    push_str(v, "\n");
    assert(final(v)@ =~= old(v)@ + header_line(label@, value@));
}

impl Meta {
    /// Appends the header lines to `out`.
    pub fn write_header(&self, out: &mut String)
        ensures
            final(out)@ == old(out)@ + header_text(*self),
    {
        let mut v = chars_of(out.as_str());
        let ghost o = v@;
        let ghost l1 = header_line("> Generated: "@, self.datetime@);
        let ghost l2 = header_line("> Commit: "@, self.commit@);
        let ghost l3 = header_line("> Version: husako v"@, self.version@);
        let ghost l4 = header_line("> Platform: "@, self.platform@);
        let ghost l5 = header_line("> CPU: "@, self.cpu@);
        push_line(&mut v, "> Generated: ", &self.datetime);
        push_line(&mut v, "> Commit: ", &self.commit);
        assert(v@ =~= o + (l1 + l2));
        push_line(&mut v, "> Version: husako v", &self.version);
        assert(v@ =~= o + (l1 + l2 + l3));
        push_line(&mut v, "> Platform: ", &self.platform);
        assert(v@ =~= o + (l1 + l2 + l3 + l4));
        push_line(&mut v, "> CPU: ", &self.cpu);
        assert(v@ =~= o + (l1 + l2 + l3 + l4 + l5));
        let ghost l6 = match &self.memory {
            Some(mem) => header_line("> Memory: "@, mem@),
            None => Seq::<char>::empty(),
        };
        let ghost l7 = match &self.runner {
            Some(run) => header_line("> Runner: "@, run@),
            None => Seq::<char>::empty(),
        };
        match &self.memory {
            Some(mem) => {
                push_line(&mut v, "> Memory: ", mem);
            },
            None => {},
        }
        assert(v@ =~= o + (l1 + l2 + l3 + l4 + l5 + l6));
        match &self.runner {
            Some(run) => {
                push_line(&mut v, "> Runner: ", run);
            },
            None => {},
        }
        assert(v@ =~= o + (l1 + l2 + l3 + l4 + l5 + l6 + l7));
        *out = string_from(&v);
    }
}

// ---------------------------------------------------------------------------
// Facts shown in the header
// ---------------------------------------------------------------------------

/// The label of the CPU: its name, with the number of cores when known.
pub open spec fn cpu_label_text(name: Seq<char>, cores: nat) -> Seq<char> {
    if cores > 0 {
        name + " ("@ + decimal(cores) + " cores)"@
    } else {
        name
    }
}

/// The CPU label of the header.
pub fn cpu_label(name: &str, cores: usize) -> (r: String)
    ensures
        r@ == cpu_label_text(name@, cores as nat),
{
    let mut v = chars_of(name);
    if cores > 0 {
        push_str(&mut v, " (");
        let d = decimal_of(cores as u64);
        push_all(&mut v, &d);
        push_str(&mut v, " cores)");
    }
    string_from(&v)
}

/// The commit of the header: the abbreviated revision, `unknown` without
/// one, marked `-dirty` when the work tree has changes.
pub open spec fn commit_text(rev: Option<Seq<char>>, dirty: bool) -> Seq<char> {
    let base = match rev {
        Some(r) => if trim_space(r).len() > 0 {
            trim_space(r)
        } else {
            "unknown"@
        },
        None => "unknown"@,
    };
    if dirty {
        base + "-dirty"@
    } else {
        base
    }
}

/// The commit label from what `git rev-parse --short HEAD` printed (`None`
/// when it gave nothing readable) and whether `git status` listed changes.
pub fn commit_label(rev: Option<String>, dirty: bool) -> (r: String)
    ensures
        r@ == commit_text(
            match rev {
                Some(s) => Some(s@),
                None => None,
            },
            dirty,
        ),
{
    let mut base: Vec<char> = match &rev {
        Some(s) => {
            let cs = chars_of(s.as_str());
            let t = trimmed(&cs);
            if t.len() > 0 {
                t
            } else {
                chars_of("unknown")
            }
        },
        None => chars_of("unknown"),
    };
    if dirty {
        push_str(&mut base, "-dirty");
    }
    string_from(&base)
}

/// The first line that starts with `prefix`, after its leading whitespace
/// when `trim` holds.
pub open spec fn first_line_with(ls: Seq<Seq<char>>, prefix: Seq<char>, trim: bool) -> Option<Seq<char>>
    decreases ls.len(),
{
    if ls.len() == 0 {
        None
    } else if has_prefix(if trim { trim_start_space(ls[0]) } else { ls[0] }, prefix) {
        Some(ls[0])
    } else {
        first_line_with(ls.drop_first(), prefix, trim)
    }
}

fn find_line(ls: &Vec<Vec<char>>, prefix: &str, trim: bool) -> (r: Option<Vec<char>>)
    ensures
        match first_line_with(ls.deep_view(), prefix@, trim) {
            Some(l) => r matches Some(v) && v@ == l,
            None => r is None,
        },
{
    let ghost all = ls.deep_view();
    let mut i: usize = 0;
    assert(all.skip(0) =~= all);
    while i < ls.len()
        invariant
            i <= ls@.len(),
            all == ls.deep_view(),
            first_line_with(all, prefix@, trim) == first_line_with(all.skip(i as int), prefix@, trim),
        decreases ls@.len() - i,
    {
        let l = &ls[i];
        assert(l@ == all[i as int]);
        let probe = if trim { trimmed_start(l) } else { slice(l, 0, l.len()) };
        assert(!trim ==> probe@ =~= l@);
        if starts_with_str(&probe, prefix) {
            assert(all.skip(i as int)[0] == l@);
            return Some(slice(l, 0, l.len()));
        }
        assert(all.skip(i as int).drop_first() =~= all.skip(i + 1));
        i += 1;
    }
    None
}

/// The version written in a manifest: the text between the first two
/// double quotes of its first line that starts, after leading whitespace,
/// with `version`; `unknown` when there is no such line or it has no quote.
pub open spec fn manifest_version_text(content: Option<Seq<char>>) -> Seq<char> {
    match content {
        Some(c) => match first_line_with(lines_of(c), "version"@, true) {
            Some(l) => if split_on(l, '"').len() > 1 {
                split_on(l, '"')[1]
            } else {
                "unknown"@
            },
            None => "unknown"@,
        },
        None => "unknown"@,
    }
}

/// The version of husako read from its manifest's text (`None` when the
/// manifest could not be read).
pub fn manifest_version(content: Option<&str>) -> (r: String)
    ensures
        r@ == manifest_version_text(
            match content {
                Some(c) => Some(c@),
                None => None,
            },
        ),
{
    match content {
        None => String::from_str("unknown"),
        Some(c) => {
            let ls = lines(c);
            match find_line(&ls, "version", true) {
                None => String::from_str("unknown"),
                Some(l) => {
                    let parts = split(&l, '"');
                    if parts.len() > 1 {
                        assert(parts.deep_view()[1] == parts@[1]@);
                        string_from(&parts[1])
                    } else {
                        String::from_str("unknown")
                    }
                },
            }
        },
    }
}

/// The CPU model named in `/proc/cpuinfo`: the first line starting with
/// `model name`, after its first `:` and trimmed; `None` when there is no such
/// line or it has no `:`.
pub open spec fn cpu_model_text(cpuinfo: Seq<char>) -> Option<Seq<char>> {
    match first_line_with(lines_of(cpuinfo), "model name"@, false) {
        Some(l) => if l.contains(':') {
            Some(trim_space(l.skip(char_pos(l, ':') + 1)))
        } else {
            None
        },
        None => None,
    }
}

/// The CPU model read from the text of `/proc/cpuinfo`.
pub fn cpu_model(cpuinfo: &str) -> (r: Option<String>)
    ensures
        match cpu_model_text(cpuinfo@) {
            Some(t) => r matches Some(s) && s@ == t,
            None => r is None,
        },
{
    let ls = lines(cpuinfo);
    match find_line(&ls, "model name", false) {
        None => None,
        Some(l) => {
            let i = find_char(&l, ':');
            proof {
                lemma_char_pos(l@, ':');
            }
            if i < l.len() {
                let rest = slice(&l, i + 1, l.len());
                assert(rest@ =~= l@.skip(i + 1));
                Some(string_from(&trimmed(&rest)))
            } else {
                None
            }
        },
    }
}

// ---------------------------------------------------------------------------
// Arguments of the report tool
// ---------------------------------------------------------------------------

/// The values of `--criterion-dir` and `--output-dir` among the arguments
/// from position `i` on, the later of a repeated flag winning; a flag at the
/// end, without a value, clears it.
pub open spec fn scan_args(
    args: Seq<Seq<char>>,
    i: int,
    criterion: Option<Seq<char>>,
    output: Option<Seq<char>>,
) -> (Option<Seq<char>>, Option<Seq<char>>)
    decreases args.len() + 1 - i,
{
    if i < 0 || i >= args.len() {
        (criterion, output)
    } else {
        let next = if i + 1 < args.len() {
            Some(args[i + 1])
        } else {
            None
        };
        if args[i] == "--criterion-dir"@ {
            scan_args(args, i + 2, next, output)
        } else if args[i] == "--output-dir"@ {
            scan_args(args, i + 2, criterion, next)
        } else {
            scan_args(args, i + 1, criterion, output)
        }
    }
}

/// The directories named on the command line `args` (the program's name
/// first): the criterion directory and the output directory, each `None`
/// when not given.
pub fn report_args(args: &Vec<String>) -> (r: (Option<String>, Option<String>))
    ensures
        ({
            let s = scan_args(args@.map_values(|a: String| a@), 1, None, None);
            &&& s.0 == opt_view(r.0)
            &&& s.1 == opt_view(r.1)
        }),
{
    let ghost av = args@.map_values(|a: String| a@);
    let mut criterion: Option<String> = None;
    let mut output: Option<String> = None;
    let mut i: usize = 1;
    while i < args.len()
        invariant
            av == args@.map_values(|a: String| a@),
            1 <= i,
            i <= args@.len() + 1,
            scan_args(av, 1, None, None) == scan_args(
                av,
                i as int,
                opt_view(criterion),
                opt_view(output),
            ),
        decreases args@.len() + 1 - i,
    {
        let a = chars_of(args[i].as_str());
        let next: Option<String> = if i + 1 < args.len() {
            Some(args[i + 1].clone())
        } else {
            None
        };
        let after_value: usize = if i + 1 < args.len() {
            i + 2
        } else {
            args.len()
        };
        let ghost oc = opt_view(criterion);
        let ghost oo = opt_view(output);
        let ghost nv = opt_view(next);
        proof {
            assert(av[i as int] == a@);
            if i + 1 < args@.len() {
                assert(av[i + 1] == args@[i + 1]@);
            }
            assert(nv == (if i + 1 < av.len() { Some(av[i + 1]) } else { None }));
            if i + 1 >= args@.len() {
                assert(scan_args(av, args@.len() as int, nv, oo) == scan_args(av, i + 2, nv, oo));
                assert(scan_args(av, args@.len() as int, oc, nv) == scan_args(av, i + 2, oc, nv));
            }
        }
        if eq_str(&a, "--criterion-dir") {
            criterion = next;
            i = after_value;
        } else if eq_str(&a, "--output-dir") {
            output = next;
            i = after_value;
        } else {
            i = i + 1;
        }
    }
    (criterion, output)
}

// ---------------------------------------------------------------------------
// Collecting the header and writing the reports
// ---------------------------------------------------------------------------

/// What is known of the machine and the checkout when a report is written.
pub struct HostFacts {
    /// Seconds since the Unix epoch.
    pub now_secs: u64,
    /// What `git rev-parse --short HEAD` printed, if anything readable.
    pub rev: Option<String>,
    /// `git status --porcelain` listed changes.
    pub dirty: bool,
    /// The text of the tool's manifest, if it could be read.
    pub manifest: Option<String>,
    pub arch: String,
    pub os: String,
    pub cpu_name: String,
    /// The number of CPU cores, 0 when unknown.
    pub cores: usize,
    /// The memory, already written (for example `16 GiB`).
    pub memory: Option<String>,
    /// The report runs on GitHub Actions.
    pub github_actions: bool,
}

impl Meta {
    /// The header facts of a report.
    pub fn collect(facts: &HostFacts) -> (r: Meta)
        ensures
            formats_datetime(facts.now_secs, r.datetime@),
            r.commit@ == commit_text(opt_view(facts.rev), facts.dirty),
            r.version@ == manifest_version_text(opt_view(facts.manifest)),
            r.platform@ == facts.arch@ + "-"@ + facts.os@,
            r.cpu@ == cpu_label_text(facts.cpu_name@, facts.cores as nat),
            opt_view(r.memory) == opt_view(facts.memory),
            opt_view(r.runner) == (if facts.github_actions {
                Some("GitHub Actions"@)
            } else {
                None
            }),
    {
        let mut platform = chars_of(facts.arch.as_str());
        push_str(&mut platform, "-");
        push_str(&mut platform, facts.os.as_str());
        let memory = match &facts.memory {
            Some(m) => Some(m.clone()),
            None => None,
        };
        let rev = match &facts.rev {
            Some(r) => Some(r.clone()),
            None => None,
        };
        Meta {
            datetime: format_datetime(facts.now_secs),
            commit: commit_label(rev, facts.dirty),
            version: manifest_version(match &facts.manifest {
                Some(m) => Some(m.as_str()),
                None => None,
            }),
            platform: string_from(&platform),
            cpu: cpu_label(facts.cpu_name.as_str(), facts.cores),
            memory,
            runner: if facts.github_actions {
                Some(String::from_str("GitHub Actions"))
            } else {
                None
            },
        }
    }
}

/// The figures of one benchmark, already written with their units.
pub struct BenchFigures {
    pub mean: String,
    pub mean_lower: String,
    pub mean_upper: String,
    pub std_dev: String,
    pub slope: Option<String>,
}

/// A group of benchmarks: its name, and each benchmark's name with its
/// figures (`None` when its estimates could not be read).
pub type BenchGroup = (String, Vec<(String, Option<BenchFigures>)>);

/// The summary rows of the benchmarks of one group that have figures.
pub open spec fn summary_rows(group: Seq<char>, benches: Seq<(String, Option<BenchFigures>)>) -> Seq<char>
    decreases benches.len(),
{
    if benches.len() == 0 {
        Seq::empty()
    } else {
        summary_rows(group, benches.drop_last()) + match benches.last().1 {
            Some(e) => "| "@ + group + " | "@ + benches.last().0@ + " | "@ + e.mean@ + " | \u{b1} "@
                + e.std_dev@ + " |\n"@,
            None => Seq::empty(),
        }
    }
}

/// The summary rows of all groups, in order.
pub open spec fn all_summary_rows(data: Seq<BenchGroup>) -> Seq<char>
    decreases data.len(),
{
    if data.len() == 0 {
        Seq::empty()
    } else {
        all_summary_rows(data.drop_last()) + summary_rows(data.last().0@, data.last().1@)
    }
}

/// The summary report: the header and a table of means and deviations.
pub open spec fn summary_text(meta: Meta, data: Seq<BenchGroup>) -> Seq<char> {
    "# Benchmark Summary\n\n"@ + header_text(meta) + "\n"@
        + "| Group | Benchmark | Mean | \u{b1} Std Dev |\n"@
        + "|-------|-----------|------|-----------|\n"@ + all_summary_rows(data)
}

/// The section of one benchmark in the full report.
pub open spec fn bench_section(name: Seq<char>, figures: Option<BenchFigures>) -> Seq<char> {
    "\n### "@ + name + "\n"@ + match figures {
        Some(e) => "- **Mean**: "@ + e.mean@ + " ("@ + e.mean_lower@ + " \u{2013} "@ + e.mean_upper@
            + ", 95% CI)\n"@ + "- **Std Dev**: "@ + e.std_dev@ + "\n"@ + match e.slope {
            Some(sl) => "- **Slope**: "@ + sl@ + "\n"@,
            None => Seq::empty(),
        },
        None => "- *(no data)*\n"@,
    }
}

/// The sections of the benchmarks of one group.
pub open spec fn bench_sections(benches: Seq<(String, Option<BenchFigures>)>) -> Seq<char>
    decreases benches.len(),
{
    if benches.len() == 0 {
        Seq::empty()
    } else {
        bench_sections(benches.drop_last()) + bench_section(benches.last().0@, benches.last().1)
    }
}

/// The sections of all groups, each under its heading.
pub open spec fn group_sections(data: Seq<BenchGroup>) -> Seq<char>
    decreases data.len(),
{
    if data.len() == 0 {
        Seq::empty()
    } else {
        group_sections(data.drop_last()) + "\n## "@ + data.last().0@ + "\n"@ + bench_sections(
            data.last().1@,
        )
    }
}

/// The full report: the header, then every group and benchmark.
pub open spec fn report_text(meta: Meta, data: Seq<BenchGroup>) -> Seq<char> {
    "# Benchmark Report\n\n"@ + header_text(meta) + group_sections(data)
}

fn push_text(v: &mut Vec<char>, s: &String)
    ensures
        final(v)@ == old(v)@ + s@,
{
    push_str(v, s.as_str());
}

fn push_summary_row(v: &mut Vec<char>, group: &String, bench: &(String, Option<BenchFigures>))
    ensures
        final(v)@ == old(v)@ + summary_rows(group@, seq![*bench]),
{
    match &bench.1 {
        Some(e) => {
            push_str(v, "| ");
            push_text(v, group);
            push_str(v, " | ");
            push_text(v, &bench.0);
            push_str(v, " | ");
            push_text(v, &e.mean);
            push_str(v, " | \u{b1} ");
            push_text(v, &e.std_dev);
            push_str(v, " |\n");
        },
        None => {},
    }
    assert(seq![*bench].drop_last() =~= Seq::<(String, Option<BenchFigures>)>::empty());
    assert(summary_rows(group@, Seq::<(String, Option<BenchFigures>)>::empty()) =~= Seq::<char>::empty());
    assert(v@ =~= old(v)@ + summary_rows(group@, seq![*bench]));
}

fn push_bench_section(v: &mut Vec<char>, bench: &(String, Option<BenchFigures>))
    ensures
        final(v)@ == old(v)@ + bench_section(bench.0@, bench.1),
{
    push_str(v, "\n### ");
    push_text(v, &bench.0);
    push_str(v, "\n");
    match &bench.1 {
        Some(e) => {
            push_str(v, "- **Mean**: ");
            push_text(v, &e.mean);
            push_str(v, " (");
            push_text(v, &e.mean_lower);
            push_str(v, " \u{2013} ");
            push_text(v, &e.mean_upper);
            push_str(v, ", 95% CI)\n");
            push_str(v, "- **Std Dev**: ");
            push_text(v, &e.std_dev);
            push_str(v, "\n");
            match &e.slope {
                Some(sl) => {
                    push_str(v, "- **Slope**: ");
                    push_text(v, sl);
                    push_str(v, "\n");
                },
                None => {},
            }
        },
        None => {
            push_str(v, "- *(no data)*\n");
        },
    }
    assert(v@ =~= old(v)@ + bench_section(bench.0@, bench.1));
}

/// The summary report, over groups and benchmarks in the order given.
pub fn generate_summary(meta: &Meta, data: &Vec<BenchGroup>) -> (r: String)
    ensures
        r@ == summary_text(*meta, data@),
{
    let mut head = String::from_str("# Benchmark Summary\n\n");
    meta.write_header(&mut head);
    let mut v = chars_of(head.as_str());
    push_str(&mut v, "\n");
    push_str(&mut v, "| Group | Benchmark | Mean | \u{b1} Std Dev |\n");
    push_str(&mut v, "|-------|-----------|------|-----------|\n");
    let ghost start = v@;
    let mut i: usize = 0;
    while i < data.len()
        invariant
            i <= data@.len(),
            v@ == start + all_summary_rows(data@.take(i as int)),
        decreases data@.len() - i,
    {
        let group = &data[i].0;
        let benches = &data[i].1;
        let ghost before = v@;
        let mut j: usize = 0;
        while j < benches.len()
            invariant
                j <= benches@.len(),
                v@ == before + summary_rows(group@, benches@.take(j as int)),
            decreases benches@.len() - j,
        {
            push_summary_row(&mut v, group, &benches[j]);
            proof {
                assert(summary_rows(group@, seq![benches@[j as int]]) == summary_rows(
                    group@,
                    Seq::<(String, Option<BenchFigures>)>::empty(),
                ) + match benches@[j as int].1 {
                    Some(e) => "| "@ + group@ + " | "@ + benches@[j as int].0@ + " | "@ + e.mean@
                        + " | \u{b1} "@ + e.std_dev@ + " |\n"@,
                    None => Seq::<char>::empty(),
                }) by {
                    assert(seq![benches@[j as int]].drop_last() =~= Seq::<
                        (String, Option<BenchFigures>),
                    >::empty());
                }
                assert(benches@.take(j + 1).drop_last() =~= benches@.take(j as int));
                assert(benches@.take(j + 1).last() == benches@[j as int]);
            }
            assert(v@ =~= before + summary_rows(group@, benches@.take(j + 1)));
            j += 1;
        }
        proof {
            assert(benches@.take(benches@.len() as int) =~= benches@);
            assert(data@.take(i + 1).drop_last() =~= data@.take(i as int));
            assert(data@.take(i + 1).last() == data@[i as int]);
        }
        assert(v@ =~= start + all_summary_rows(data@.take(i + 1)));
        i += 1;
    }
    assert(data@.take(data@.len() as int) =~= data@);
    assert(v@ =~= summary_text(*meta, data@));
    string_from(&v)
}

/// The full report, over groups and benchmarks in the order given.
pub fn generate_report(meta: &Meta, data: &Vec<BenchGroup>) -> (r: String)
    ensures
        r@ == report_text(*meta, data@),
{
    let mut head = String::from_str("# Benchmark Report\n\n");
    meta.write_header(&mut head);
    let mut v = chars_of(head.as_str());
    let ghost start = v@;
    let mut i: usize = 0;
    while i < data.len()
        invariant
            i <= data@.len(),
            v@ == start + group_sections(data@.take(i as int)),
        decreases data@.len() - i,
    {
        let group = &data[i].0;
        let benches = &data[i].1;
        push_str(&mut v, "\n## ");
        push_text(&mut v, group);
        push_str(&mut v, "\n");
        let ghost before = v@;
        let mut j: usize = 0;
        while j < benches.len()
            invariant
                j <= benches@.len(),
                v@ == before + bench_sections(benches@.take(j as int)),
            decreases benches@.len() - j,
        {
            push_bench_section(&mut v, &benches[j]);
            proof {
                assert(benches@.take(j + 1).drop_last() =~= benches@.take(j as int));
                assert(benches@.take(j + 1).last() == benches@[j as int]);
            }
            assert(v@ =~= before + bench_sections(benches@.take(j + 1)));
            j += 1;
        }
        proof {
            assert(benches@.take(benches@.len() as int) =~= benches@);
            assert(data@.take(i + 1).drop_last() =~= data@.take(i as int));
            assert(data@.take(i + 1).last() == data@[i as int]);
        }
        assert(v@ =~= start + group_sections(data@.take(i + 1)));
        i += 1;
    }
    assert(data@.take(data@.len() as int) =~= data@);
    assert(v@ =~= report_text(*meta, data@));
    string_from(&v)
}

} // verus!
