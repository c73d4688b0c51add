//! Development diagnostics: results of build and test checks, the health
//! report over them, and the log of failed checks.
use vstd::prelude::*;
use crate::text::{append_chars, append_str, chars_of, dec, owned, slice_vec, string_of, utf8_len};

verus! {

/// Outcome of one check.
#[derive(Debug, Clone)]
pub struct CheckResult {
    pub name: String,
    pub passed: bool,
    pub duration_ms: u64,
    pub stdout: String,
    pub stderr: String,
    pub exit_code: Option<i32>,
}

/// All checks of a run, with counts and a one-line summary.
#[derive(Debug, Clone)]
pub struct HealthReport {
    pub total: usize,
    pub passed: usize,
    pub failed: usize,
    pub checks: Vec<CheckResult>,
    pub summary: String,
}

/// One failed check kept in the error log.
#[derive(Debug, Clone)]
pub struct ErrorEntry {
    pub check: String,
    pub unix_secs: u64,
    pub stderr_snippet: String,
    pub exit_code: Option<i32>,
}

/// Longest prefix of `s` (in chars) whose UTF-8 form is at most `n` bytes.
pub open spec fn byte_prefix_len(s: Seq<char>, n: nat, i: int) -> int
    decreases s.len() - i,
{
    if 0 <= i < s.len() && utf8_len(s.subrange(0, i + 1)) <= n {
        byte_prefix_len(s, n, i + 1)
    } else {
        i
    }
}

/// `s` kept to `max` bytes: longer text is cut there and told how many bytes went.
pub open spec fn clip_text(s: Seq<char>, max: nat) -> Seq<char> {
    if utf8_len(s) <= max {
        s
    } else {
        s.subrange(0, byte_prefix_len(s, max, 0)) + "...\n[truncated "@ + dec(utf8_len(s) - max)
            + " chars]"@
    }
}

/// `max` falls on a char boundary of `s` (or past its end).
pub open spec fn on_boundary(s: Seq<char>, max: nat) -> bool {
    utf8_len(s) <= max || exists|k: int| 0 <= k <= s.len() && utf8_len(#[trigger] s.subrange(0, k)) == max
}

fn char_len(c: char) -> (r: usize)
    ensures
        r == crate::text::char_utf8_len(c),
{
    if (c as u32) < 0x80 {
        1
    } else if (c as u32) < 0x800 {
        2
    } else if (c as u32) < 0x10000 {
        3
    } else {
        4
    }
}

pub proof fn lemma_byte_prefix(s: Seq<char>, n: nat, i: int)
    requires
        0 <= i <= s.len(),
    ensures
        i <= byte_prefix_len(s, n, i) <= s.len(),
    decreases s.len() - i,
{
    if i < s.len() && utf8_len(s.subrange(0, i + 1)) <= n {
        lemma_byte_prefix(s, n, i + 1);
    }
}

/// Text kept to `max` bytes, as a check's output is.
pub fn clip(s: &str, max: usize) -> (r: String)
    requires
        on_boundary(s@, max as nat),
        max <= 1_000_000,
    ensures
        r@ == clip_text(s@, max as nat),
{
    let v = chars_of(s);
    let total = total_bytes(&v);
    if total <= max as u128 {
        return string_of(&v);
    }
    let mut k: usize = 0;
    let mut b: u128 = 0;
    while k < v.len() && b + (char_len(v[k]) as u128) <= max as u128
        invariant
            k <= v@.len(),
            v@ == s@,
            b == utf8_len(v@.subrange(0, k as int)),
            b <= max,
            byte_prefix_len(v@, max as nat, k as int) == byte_prefix_len(v@, max as nat, 0),
        decreases v@.len() - k,
    {
        assert(v@.subrange(0, k + 1).drop_last() =~= v@.subrange(0, k as int));
        assert(v@.subrange(0, k + 1).last() == v@[k as int]);
        b = b + char_len(v[k]) as u128;
        k = k + 1;
    }
    proof {
        if k < v@.len() {
            assert(v@.subrange(0, k + 1).drop_last() =~= v@.subrange(0, k as int));
            assert(v@.subrange(0, k + 1).last() == v@[k as int]);
        }
        lemma_byte_prefix(v@, max as nat, k as int);
    }
    let mut out = string_of(&slice_vec(&v, 0, k));
    append_str(&mut out, "...\n[truncated ");
    if total > max as u128 {
        let d = crate::text::wide_to_chars(total - max as u128);
        append_chars(&mut out, &d);
        assert(dec(utf8_len(s@) - max) == crate::text::nat_dec((total - max as u128) as nat));
    } else {
        let d = crate::text::wide_to_chars(0);
        append_chars(&mut out, &d);
    }
    append_str(&mut out, " chars]");
    out
}

fn total_bytes(v: &Vec<char>) -> (r: u128)
    ensures
        r == utf8_len(v@),
{
    let mut i: usize = 0;
    let mut acc: u128 = 0;
    assert(v@.subrange(0, 0) =~= Seq::<char>::empty());
    while i < v.len()
        invariant
            i <= v@.len(),
            acc == utf8_len(v@.subrange(0, i as int)),
            acc <= 4 * i,
        decreases v@.len() - i,
    {
        assert(v@.subrange(0, i + 1).drop_last() =~= v@.subrange(0, i as int));
        assert(v@.subrange(0, i + 1).last() == v@[i as int]);
        acc = acc + char_len(v[i]) as u128;
        i = i + 1;
    }
    assert(v@.subrange(0, v@.len() as int) =~= v@);
    acc
}

/// The result of a check whose command ran: output kept to 4000 bytes each.
pub fn check_result_from_output(
    name: &str,
    duration_ms: u64,
    success: bool,
    stdout: &str,
    stderr: &str,
    exit_code: Option<i32>,
) -> (r: CheckResult)
    requires
        on_boundary(stdout@, 4000),
        on_boundary(stderr@, 4000),
    ensures
        r.name@ == name@,
        r.passed == success,
        r.duration_ms == duration_ms,
        r.stdout@ == clip_text(stdout@, 4000),
        r.stderr@ == clip_text(stderr@, 4000),
        r.exit_code == exit_code,
{
    CheckResult {
        name: owned(name),
        passed: success,
        duration_ms,
        stdout: clip(stdout, 4000),
        stderr: clip(stderr, 4000),
        exit_code,
    }
}

/// The result of a check whose command could not be started.
pub fn check_result_from_spawn_error(name: &str, duration_ms: u64, error: &str) -> (r: CheckResult)
    ensures
        r.name@ == name@,
        !r.passed,
        r.duration_ms == duration_ms,
        r.stdout@.len() == 0,
        r.stderr@ == "failed: "@ + error@,
        r.exit_code is None,
{
    let mut e = owned("failed: ");
    append_str(&mut e, error);
    CheckResult { name: owned(name), passed: false, duration_ms, stdout: String::new(), stderr: e, exit_code: None }
}

/// Number of passed checks.
pub open spec fn count_passed(checks: Seq<CheckResult>) -> nat
    decreases checks.len(),
{
    if checks.len() == 0 {
        0
    } else {
        count_passed(checks.drop_last()) + if checks.last().passed { 1nat } else { 0nat }
    }
}

pub proof fn lemma_count_passed_le(checks: Seq<CheckResult>)
    ensures
        count_passed(checks) <= checks.len(),
    decreases checks.len(),
{
    if checks.len() > 0 {
        lemma_count_passed_le(checks.drop_last());
    }
}

/// The report over a run's checks: counts, and "ALL CHECKS PASSED" or
/// "<failed>/<total> FAILED".
pub fn health_report(checks: Vec<CheckResult>) -> (r: HealthReport)
    ensures
        r.checks == checks,
        r.total == checks@.len(),
        r.passed == count_passed(checks@),
        r.failed == r.total - r.passed,
        r.failed == 0 ==> r.summary@ == "ALL CHECKS PASSED"@,
        r.failed > 0 ==> r.summary@ == dec(r.failed as int) + "/"@ + dec(r.total as int) + " FAILED"@,
{
    let mut passed: usize = 0;
    let mut i: usize = 0;
    while i < checks.len()
        invariant
            i <= checks@.len(),
            passed == count_passed(checks@.subrange(0, i as int)),
        decreases checks@.len() - i,
    {
        assert(checks@.subrange(0, i + 1).drop_last() =~= checks@.subrange(0, i as int));
        proof {
            lemma_count_passed_le(checks@.subrange(0, i as int));
        }
        if checks[i].passed {
            passed = passed + 1;
        }
        i = i + 1;
    }
    assert(checks@.subrange(0, checks@.len() as int) =~= checks@);
    proof {
        lemma_count_passed_le(checks@);
    }
    let total = checks.len();
    let failed = total - passed;
    let summary = if failed == 0 {
        owned("ALL CHECKS PASSED")
    } else {
        let mut s = String::new();
        let a = crate::text::wide_to_chars(failed as u128);
        append_chars(&mut s, &a);
        append_str(&mut s, "/");
        let b = crate::text::wide_to_chars(total as u128);
        append_chars(&mut s, &b);
        append_str(&mut s, " FAILED");
        assert(dec(failed as int) == crate::text::nat_dec(failed as nat));
        assert(dec(total as int) == crate::text::nat_dec(total as nat));
        s
    };
    HealthReport { total, passed, failed, checks, summary }
}

/// The log entries for a report's failed checks, stamped `now`, with the
/// first 500 chars of their error output.
pub open spec fn failed_entries_spec(checks: Seq<CheckResult>, now: u64) -> Seq<(Seq<char>, u64, Seq<char>, Option<i32>)>
    decreases checks.len(),
{
    if checks.len() == 0 {
        Seq::empty()
    } else {
        let rest = failed_entries_spec(checks.drop_last(), now);
        let c = checks.last();
        if c.passed {
            rest
        } else {
            rest.push((c.name@, now, take_chars(c.stderr@, 500), c.exit_code))
        }
    }
}

/// The first `n` chars of `s` (all of `s` when it is shorter).
pub open spec fn take_chars(s: Seq<char>, n: nat) -> Seq<char> {
    if s.len() <= n {
        s
    } else {
        s.take(n as int)
    }
}

pub open spec fn entry_tuple(e: ErrorEntry) -> (Seq<char>, u64, Seq<char>, Option<i32>) {
    (e.check@, e.unix_secs, e.stderr_snippet@, e.exit_code)
}

/// The entries a report adds to the error log.
pub fn failed_entries(report: &HealthReport, now: u64) -> (r: Vec<ErrorEntry>)
    ensures
        r@.map_values(|e: ErrorEntry| entry_tuple(e)) == failed_entries_spec(report.checks@, now),
{
    let mut out: Vec<ErrorEntry> = Vec::new();
    let mut i: usize = 0;
    while i < report.checks.len()
        invariant
            i <= report.checks@.len(),
            out@.map_values(|e: ErrorEntry| entry_tuple(e)) == failed_entries_spec(
                report.checks@.subrange(0, i as int),
                now,
            ),
        decreases report.checks@.len() - i,
    {
        assert(report.checks@.subrange(0, i + 1).drop_last() =~= report.checks@.subrange(0, i as int));
        let c = &report.checks[i];
        if !c.passed {
            let v = chars_of(c.stderr.as_str());
            let n = if v.len() < 500 { v.len() } else { 500 };
            let snippet = string_of(&slice_vec(&v, 0, n));
            assert(snippet@ =~= take_chars(c.stderr@, 500));
            let e = ErrorEntry {
                check: c.name.clone(),
                unix_secs: now,
                stderr_snippet: snippet,
                exit_code: c.exit_code,
            };
            let ghost o0 = out@.map_values(|e: ErrorEntry| entry_tuple(e));
            let ghost et = entry_tuple(e);
            out.push(e);
            assert(out@.map_values(|e: ErrorEntry| entry_tuple(e)) =~= o0.push(et));
        }
        i = i + 1;
    }
    assert(report.checks@.subrange(0, report.checks@.len() as int) =~= report.checks@);
    out
}

/// The entries a report adds to the error log, stamped with the current
/// time (read from the system clock).
pub fn errors_from_report(report: &HealthReport) -> (r: Vec<ErrorEntry>)
    ensures
        exists|now: u64|
            r@.map_values(|e: ErrorEntry| entry_tuple(e)) == #[trigger] failed_entries_spec(report.checks@, now),
{
    let now = crate::parser::card_data::unix_now_secs();
    failed_entries(report, now)
}

// ---------------------------------------------------------------------------
// Error summary
// ---------------------------------------------------------------------------

/// Index of the first group named `k` at or after `j` (the length when none is).
pub open spec fn key_index(g: Seq<(Seq<char>, nat)>, k: Seq<char>, j: int) -> int
    decreases g.len() - j,
{
    if j < 0 || j >= g.len() {
        g.len() as int
    } else if g[j].0 == k {
        j
    } else {
        key_index(g, k, j + 1)
    }
}

/// Failure counts per check, in order of first appearance.
pub open spec fn group_counts(log: Seq<Seq<char>>) -> Seq<(Seq<char>, nat)>
    decreases log.len(),
{
    if log.len() == 0 {
        Seq::empty()
    } else {
        let g = group_counts(log.drop_last());
        let k = log.last();
        let p = key_index(g, k, 0);
        if p < g.len() {
            g.update(p, (k, g[p].1 + 1))
        } else {
            g.push((k, 1nat))
        }
    }
}

/// `x` placed after every element with at least its count.
pub open spec fn insert_desc(s: Seq<(Seq<char>, nat)>, x: (Seq<char>, nat)) -> Seq<(Seq<char>, nat)>
    decreases s.len(),
{
    if s.len() == 0 {
        seq![x]
    } else if s[0].1 < x.1 {
        seq![x] + s
    } else {
        seq![s[0]] + insert_desc(s.drop_first(), x)
    }
}

/// `s` sorted by count, most first, ties in their original order.
pub open spec fn sort_desc(s: Seq<(Seq<char>, nat)>) -> Seq<(Seq<char>, nat)>
    decreases s.len(),
{
    if s.len() == 0 {
        s
    } else {
        insert_desc(sort_desc(s.drop_last()), s.last())
    }
}

pub proof fn lemma_insert_desc(s: Seq<(Seq<char>, nat)>, x: (Seq<char>, nat), p: int)
    requires
        0 <= p <= s.len(),
        forall|k: int| 0 <= k < p ==> !(s[k].1 < x.1),
        p < s.len() ==> s[p].1 < x.1,
    ensures
        insert_desc(s, x) == s.insert(p, x),
    decreases s.len(),
{
    if s.len() == 0 {
        assert(s.insert(p, x) =~= seq![x]);
    } else if p == 0 {
        assert(s.insert(p, x) =~= seq![x] + s);
    } else {
        lemma_insert_desc(s.drop_first(), x, p - 1);
        assert(s.insert(p, x) =~= seq![s[0]] + s.drop_first().insert(p - 1, x));
    }
}

pub open spec fn summary_view(v: Seq<(String, usize)>) -> Seq<(Seq<char>, nat)> {
    v.map_values(|e: (String, usize)| (e.0@, e.1 as nat))
}

/// Failure counts per check, most failures first (ties in order of first
/// appearance in the log).
pub fn error_summary_of(log: &Vec<ErrorEntry>) -> (r: Vec<(String, usize)>)
    ensures
        summary_view(r@) == sort_desc(group_counts(log@.map_values(|e: ErrorEntry| e.check@))),
{
    let ghost names = log@.map_values(|e: ErrorEntry| e.check@);
    let mut groups: Vec<(String, usize)> = Vec::new();
    let mut i: usize = 0;
    while i < log.len()
        invariant
            i <= log@.len(),
            names == log@.map_values(|e: ErrorEntry| e.check@),
            summary_view(groups@) == group_counts(names.subrange(0, i as int)),
            groups@.len() <= i,
            forall|k: int| 0 <= k < groups@.len() ==> groups@[k].1 <= i,
        decreases log@.len() - i,
    {
        assert(names.subrange(0, i + 1).drop_last() =~= names.subrange(0, i as int));
        assert(names.subrange(0, i + 1).last() == log@[i as int].check@);
        let ghost g = summary_view(groups@);
        let ghost key = log@[i as int].check@;
        let mut j: usize = 0;
        while j < groups.len() && groups[j].0 != log[i].check
            invariant
                i < log@.len(),
                key == log@[i as int].check@,
                j <= groups@.len(),
                g == summary_view(groups@),
                key_index(g, key, 0) == key_index(g, key, j as int),
            decreases groups@.len() - j,
        {
            assert(g[j as int].0 == groups@[j as int].0@);
            j = j + 1;
        }
        if j < groups.len() {
            assert(g[j as int].0 == key);
            let name = groups[j].0.clone();
            let c = groups[j].1 + 1;
            groups.set(j, (name, c));
            assert(summary_view(groups@) =~= g.update(j as int, (key, g[j as int].1 + 1)));
        } else {
            groups.push((log[i].check.clone(), 1));
            assert(summary_view(groups@) =~= g.push((key, 1nat)));
        }
        i = i + 1;
    }
    assert(names.subrange(0, log@.len() as int) =~= names);
    let ghost gv = summary_view(groups@);
    let mut out: Vec<(String, usize)> = Vec::new();
    let mut k: usize = 0;
    while k < groups.len()
        invariant
            k <= groups@.len(),
            gv == summary_view(groups@),
            summary_view(out@) == sort_desc(gv.subrange(0, k as int)),
        decreases groups@.len() - k,
    {
        assert(gv.subrange(0, k + 1).drop_last() =~= gv.subrange(0, k as int));
        let x = (groups[k].0.clone(), groups[k].1);
        let ghost xv = (x.0@, x.1 as nat);
        assert(xv == gv[k as int]);
        let ghost o0 = summary_view(out@);
        let mut p: usize = 0;
        while p < out.len() && !(out[p].1 < x.1)
            invariant
                p <= out@.len(),
                xv == (x.0@, x.1 as nat),
                o0 == summary_view(out@),
                forall|q: int| 0 <= q < p ==> !(o0[q].1 < xv.1),
            decreases out@.len() - p,
        {
            p = p + 1;
        }
        proof {
            lemma_insert_desc(o0, xv, p as int);
        }
        out.insert(p, x);
        assert(summary_view(out@) =~= o0.insert(p as int, xv));
        k = k + 1;
    }
    assert(gv.subrange(0, groups@.len() as int) =~= gv);
    out
}

/// The check a name asks for.
#[derive(Debug)]
pub enum CheckKind {
    Cargo,
    Tsc,
    Fmt,
    Clippy,
    Frontend,
    /// The tests of one crate.
    TestCrate(String),
    Unknown,
}

/// The check named `name`: "cargo", "tsc", "fmt", "clippy", "frontend", or
/// "test:" and a crate's name.
pub fn check_for_name(name: &str) -> (r: CheckKind)
    ensures
        if name@ == "cargo"@ {
            r is Cargo
        } else if name@ == "tsc"@ {
            r is Tsc
        } else if name@ == "fmt"@ {
            r is Fmt
        } else if name@ == "clippy"@ {
            r is Clippy
        } else if name@ == "frontend"@ {
            r is Frontend
        } else if crate::text::has_prefix(name@, "test:"@) {
            r matches CheckKind::TestCrate(c) && c@ == name@.subrange(5, name@.len() as int)
        } else {
            r is Unknown
        },
{
    let c = chars_of(name);
    if crate::text::eq_lit(&c, "cargo") {
        CheckKind::Cargo
    } else if crate::text::eq_lit(&c, "tsc") {
        CheckKind::Tsc
    } else if crate::text::eq_lit(&c, "fmt") {
        CheckKind::Fmt
    } else if crate::text::eq_lit(&c, "clippy") {
        CheckKind::Clippy
    } else if crate::text::eq_lit(&c, "frontend") {
        CheckKind::Frontend
    } else if crate::text::starts_with_lit(&c, "test:") {
        proof {
            reveal_strlit("test:");
        }
        let rest = slice_vec(&c, 5, c.len());
        CheckKind::TestCrate(string_of(&rest))
    } else {
        CheckKind::Unknown
    }
}

/// What an unknown check name reports.
pub fn unknown_check(name: &str) -> (r: CheckResult)
    ensures
        r.name@ == "unknown check: "@ + name@,
        !r.passed,
        r.duration_ms == 0,
        r.stdout@.len() == 0,
        r.stderr@ == "unknown check name"@,
        r.exit_code is None,
{
    let mut n = owned("unknown check: ");
    append_str(&mut n, name);
    CheckResult {
        name: n,
        passed: false,
        duration_ms: 0,
        stdout: String::new(),
        stderr: owned("unknown check name"),
        exit_code: None,
    }
}

} // verus!
