//! The human-readable text the command-line tool prints for a metrics
//! summary and a quality report.

use vstd::prelude::*;
use crate::collector::assemble::VERSION;
use crate::schema::{CollectorStatus, GateResult, MetricsSummary, QualityReport};
use crate::text::{decimal, fixed_text, push_decimal, push_fixed, push_percent, push_str, string_from_chars};

verus! {

/// The mark of a status.
pub open spec fn status_mark(s: CollectorStatus) -> Seq<char> {
    match s {
        CollectorStatus::Pass => "✓ pass"@,
        CollectorStatus::Fail => "✗ FAIL"@,
        CollectorStatus::Skipped => "○ skip"@,
        CollectorStatus::Error => "⚠ error"@,
    }
}

fn status_mark_text(s: CollectorStatus) -> (r: &'static str)
    ensures
        r@ == status_mark(s),
{
    match s {
        CollectorStatus::Pass => "✓ pass",
        CollectorStatus::Fail => "✗ FAIL",
        CollectorStatus::Skipped => "○ skip",
        CollectorStatus::Error => "⚠ error",
    }
}

/// The line of a collector: its label, the mark of its status and, when
/// there is one, the detail after six spaces.
pub open spec fn status_line_text(label: Seq<char>, s: CollectorStatus, detail: Seq<char>) -> Seq<char> {
    if detail.len() == 0 {
        label + status_mark(s)
    } else {
        label + status_mark(s) + "      "@ + detail
    }
}

/// The line `label`, then the mark of status `s`, then `detail` if any.
pub fn status_line(label: &str, s: CollectorStatus, detail: &Vec<char>) -> (r: String)
    ensures
        r@ == status_line_text(label@, s, detail@),
{
    let mut out: Vec<char> = Vec::new();
    push_str(&mut out, label);
    push_str(&mut out, status_mark_text(s));
    if detail.len() > 0 {
        push_str(&mut out, "      ");
        let mut i: usize = 0;
        let ghost base = out@;
        while i < detail.len()
            invariant
                i <= detail.len(),
                out@ == base + detail@.take(i as int),
            decreases detail.len() - i,
        {
            out.push(detail[i]);
            i = i + 1;
            proof {
                assert(out@ =~= base + detail@.take(i as int));
            }
        }
        proof {
            assert(detail@.take(detail@.len() as int) =~= detail@);
        }
    }
    string_from_chars(&out)
}

/// `(a x)`, the number in decimal.
pub open spec fn one_count(a: nat, x: Seq<char>) -> Seq<char> {
    "("@ + decimal(a) + x + ")"@
}

/// `(a x, b y)`.
pub open spec fn two_counts(a: nat, x: Seq<char>, b: nat, y: Seq<char>) -> Seq<char> {
    "("@ + decimal(a) + x + ", "@ + decimal(b) + y + ")"@
}

/// `(a x, b y, c z)`.
pub open spec fn three_counts(a: nat, x: Seq<char>, b: nat, y: Seq<char>, c: nat, z: Seq<char>) -> Seq<char> {
    "("@ + decimal(a) + x + ", "@ + decimal(b) + y + ", "@ + decimal(c) + z + ")"@
}

fn one_count_text(a: u64, x: &str) -> (r: Vec<char>)
    ensures
        r@ == one_count(a as nat, x@),
{
    let mut out: Vec<char> = Vec::new();
    push_str(&mut out, "(");
    push_decimal(&mut out, a as u128);
    push_str(&mut out, x);
    push_str(&mut out, ")");
    proof {
        assert(out@ =~= one_count(a as nat, x@));
    }
    out
}

fn two_counts_text(a: u64, x: &str, b: u64, y: &str) -> (r: Vec<char>)
    ensures
        r@ == two_counts(a as nat, x@, b as nat, y@),
{
    let mut out: Vec<char> = Vec::new();
    push_str(&mut out, "(");
    push_decimal(&mut out, a as u128);
    push_str(&mut out, x);
    push_str(&mut out, ", ");
    push_decimal(&mut out, b as u128);
    push_str(&mut out, y);
    push_str(&mut out, ")");
    proof {
        assert(out@ =~= two_counts(a as nat, x@, b as nat, y@));
    }
    out
}

fn three_counts_text(a: u64, x: &str, b: u64, y: &str, c: u64, z: &str) -> (r: Vec<char>)
    ensures
        r@ == three_counts(a as nat, x@, b as nat, y@, c as nat, z@),
{
    let mut out: Vec<char> = Vec::new();
    push_str(&mut out, "(");
    push_decimal(&mut out, a as u128);
    push_str(&mut out, x);
    push_str(&mut out, ", ");
    push_decimal(&mut out, b as u128);
    push_str(&mut out, y);
    push_str(&mut out, ", ");
    push_decimal(&mut out, c as u128);
    push_str(&mut out, z);
    push_str(&mut out, ")");
    proof {
        assert(out@ =~= three_counts(a as nat, x@, b as nat, y@, c as nat, z@));
    }
    out
}

/// The coverage detail: `(p%)`, the percentage with one decimal.
pub open spec fn coverage_detail(micros: int) -> Seq<char> {
    "("@ + fixed_text(micros, 1) + "%)"@
}

/// The mutants detail: `(p% score, c caught, m missed)`, the score as a
/// percentage with one decimal.
pub open spec fn mutants_detail(score_micros: int, caught: nat, missed: nat) -> Seq<char> {
    "("@ + fixed_text(score_micros * 100, 1) + "% score, "@ + decimal(caught) + " caught, "@
        + decimal(missed) + " missed)"@
}

/// The lines printed for a metrics summary: a title, the project, and one
/// line per collector.
pub open spec fn summary_text(s: MetricsSummary) -> Seq<Seq<char>> {
    let c = s.collectors;
    seq![
        "rustquty "@ + VERSION@ + " — metrics"@,
        "project: "@ + s.project.name@,
        "collectors:"@,
        status_line_text("  fmt        "@, c.fmt.status, Seq::empty()),
        status_line_text("  clippy     "@, c.clippy.status, one_count(c.clippy.warning_count as nat, " warnings"@)),
        status_line_text("  tests      "@, c.tests.status, three_counts(
            c.tests.passed as nat, " passed"@, c.tests.failed as nat, " failed"@, c.tests.ignored as nat, " ignored"@)),
        status_line_text("  coverage   "@, c.coverage.status, coverage_detail(c.coverage.line_percent.micros as int)),
        status_line_text("  deny       "@, c.deny.status, two_counts(
            c.deny.banned_count as nat, " banned"@, c.deny.license_violations as nat, " license violations"@)),
        status_line_text("  audit      "@, c.audit.status, two_counts(
            c.audit.vulnerability_count as nat, " vulns"@, c.audit.critical_count as nat, " critical"@)),
        status_line_text("  hack       "@, c.hack.status, Seq::empty()),
        status_line_text("  mutants    "@, c.mutants.status, mutants_detail(
            c.mutants.mutation_score.micros as int, c.mutants.caught as nat, c.mutants.missed as nat)),
        status_line_text("  duplicates "@, c.duplicates.status, two_counts(
            c.duplicates.total_lines as nat, " total"@, c.duplicates.duplicate_lines as nat, " dup"@)),
        status_line_text("  loc        "@, c.loc.status, two_counts(
            c.loc.total_lines as nat, " lines"@, c.loc.files as nat, " files"@)),
        status_line_text("  size       "@, c.size.status, two_counts(
            c.size.files as nat, " files"@, c.size.max_lines_per_file as nat, " max lines"@)),
        status_line_text("  complexity "@, c.complexity.status, two_counts(
            c.complexity.functions as nat, " funcs"@, c.complexity.max_cyclomatic_complexity as nat, " max cc"@)),
    ]
}

/// The lines printed for a metrics summary.
pub fn summary_lines(summary: &MetricsSummary) -> (r: Vec<String>)
    ensures
        r@.len() == summary_text(*summary).len(),
        forall|i: int| 0 <= i < r@.len() ==> #[trigger] r@[i]@ == summary_text(*summary)[i],
{
    let c = &summary.collectors;
    let mut lines: Vec<String> = Vec::new();
    let mut title: Vec<char> = Vec::new();
    push_str(&mut title, "rustquty ");
    push_str(&mut title, VERSION);
    push_str(&mut title, " — metrics");
    lines.push(string_from_chars(&title));
    let mut project: Vec<char> = Vec::new();
    push_str(&mut project, "project: ");
    push_str(&mut project, summary.project.name.as_str());
    lines.push(string_from_chars(&project));
    lines.push("collectors:".to_string());
    let none: Vec<char> = Vec::new();
    lines.push(status_line("  fmt        ", c.fmt.status, &none));
    lines.push(status_line("  clippy     ", c.clippy.status, &one_count_text(c.clippy.warning_count as u64, " warnings")));
    lines.push(status_line("  tests      ", c.tests.status, &three_counts_text(
        c.tests.passed as u64, " passed", c.tests.failed as u64, " failed", c.tests.ignored as u64, " ignored")));
    let mut cov: Vec<char> = Vec::new();
    push_str(&mut cov, "(");
    push_fixed(&mut cov, c.coverage.line_percent.micros, 1);
    push_str(&mut cov, "%)");
    lines.push(status_line("  coverage   ", c.coverage.status, &cov));
    lines.push(status_line("  deny       ", c.deny.status, &two_counts_text(
        c.deny.banned_count as u64, " banned", c.deny.license_violations as u64, " license violations")));
    lines.push(status_line("  audit      ", c.audit.status, &two_counts_text(
        c.audit.vulnerability_count as u64, " vulns", c.audit.critical_count as u64, " critical")));
    lines.push(status_line("  hack       ", c.hack.status, &none));
    let mut mutants: Vec<char> = Vec::new();
    push_str(&mut mutants, "(");
    push_percent(&mut mutants, c.mutants.mutation_score.micros);
    push_str(&mut mutants, "% score, ");
    push_decimal(&mut mutants, c.mutants.caught as u128);
    push_str(&mut mutants, " caught, ");
    push_decimal(&mut mutants, c.mutants.missed as u128);
    push_str(&mut mutants, " missed)");
    lines.push(status_line("  mutants    ", c.mutants.status, &mutants));
    lines.push(status_line("  duplicates ", c.duplicates.status, &two_counts_text(
        c.duplicates.total_lines as u64, " total", c.duplicates.duplicate_lines as u64, " dup")));
    lines.push(status_line("  loc        ", c.loc.status, &two_counts_text(
        c.loc.total_lines as u64, " lines", c.loc.files as u64, " files")));
    lines.push(status_line("  size       ", c.size.status, &two_counts_text(
        c.size.files as u64, " files", c.size.max_lines_per_file as u64, " max lines")));
    lines.push(status_line("  complexity ", c.complexity.status, &two_counts_text(
        c.complexity.functions as u64, " funcs", c.complexity.max_cyclomatic_complexity as u64, " max cc")));
    proof {
        reveal_strlit("");
        assert(none@ =~= Seq::<char>::empty());
        assert(cov@ =~= coverage_detail(c.coverage.line_percent.micros as int));
        assert(mutants@ =~= mutants_detail(c.mutants.mutation_score.micros as int, c.mutants.caught as nat, c.mutants.missed as nat));
        assert(lines@.len() == 15);
    }
    lines
}

/// The text of a gate result (as `Debug` prints it).
pub open spec fn gate_result_text(g: GateResult) -> Seq<char> {
    match g {
        GateResult::Pass => "Pass"@,
        GateResult::Fail => "Fail"@,
        GateResult::Error => "Error"@,
    }
}

/// The rule printed around the report summary.
pub open spec fn rule_line() -> Seq<char> {
    "────────────────────────────────────────────────────"@
}

/// The first lines printed for a quality report: the counts of the
/// collectors, the result and the exit code (1 on a failing result).
pub open spec fn report_head_text(r: QualityReport) -> Seq<Seq<char>> {
    let s = r.summary;
    seq![
        rule_line(),
        "  collectors: "@ + decimal(s.collectors_run as nat) + " run, "@ + decimal(s.collectors_passed as nat)
            + " passed, "@ + decimal(s.collectors_failed as nat) + " failed, "@ + decimal(s.collectors_skipped as nat)
            + " skipped"@,
        rule_line(),
        "  gate result: "@ + gate_result_text(r.gate_result),
        "  exit code:   "@ + if r.gate_result == GateResult::Fail { "1"@ } else { "0"@ },
    ]
}

/// The first lines printed for a quality report.
pub fn report_head_lines(report: &QualityReport) -> (r: Vec<String>)
    ensures
        r@.len() == report_head_text(*report).len(),
        forall|i: int| 0 <= i < r@.len() ==> #[trigger] r@[i]@ == report_head_text(*report)[i],
{
    let s = &report.summary;
    let mut lines: Vec<String> = Vec::new();
    lines.push("────────────────────────────────────────────────────".to_string());
    let mut counts: Vec<char> = Vec::new();
    push_str(&mut counts, "  collectors: ");
    push_decimal(&mut counts, s.collectors_run as u128);
    push_str(&mut counts, " run, ");
    push_decimal(&mut counts, s.collectors_passed as u128);
    push_str(&mut counts, " passed, ");
    push_decimal(&mut counts, s.collectors_failed as u128);
    push_str(&mut counts, " failed, ");
    push_decimal(&mut counts, s.collectors_skipped as u128);
    push_str(&mut counts, " skipped");
    lines.push(string_from_chars(&counts));
    lines.push("────────────────────────────────────────────────────".to_string());
    let mut result: Vec<char> = Vec::new();
    push_str(&mut result, "  gate result: ");
    push_str(&mut result, match report.gate_result {
        GateResult::Pass => "Pass",
        GateResult::Fail => "Fail",
        GateResult::Error => "Error",
    });
    lines.push(string_from_chars(&result));
    let mut code: Vec<char> = Vec::new();
    push_str(&mut code, "  exit code:   ");
    push_str(&mut code, if report.gate_result == GateResult::Fail { "1" } else { "0" });
    lines.push(string_from_chars(&code));
    proof {
        assert(lines@.len() == 5);
    }
    lines
}

/// The line of a violation, with its values written out.
pub open spec fn violation_line_text(collector: Seq<char>, metric: Seq<char>, baseline: Seq<char>, current: Seq<char>) -> Seq<char> {
    "  - "@ + collector + ": "@ + metric + " (baseline: "@ + baseline + ", current: "@ + current + ")"@
}

/// The line printed for a violation of `collector` on `metric`, whose
/// baseline and current values read `baseline` and `current`.
pub fn violation_line(collector: &str, metric: &str, baseline: &str, current: &str) -> (r: String)
    ensures
        r@ == violation_line_text(collector@, metric@, baseline@, current@),
{
    let mut out: Vec<char> = Vec::new();
    push_str(&mut out, "  - ");
    push_str(&mut out, collector);
    push_str(&mut out, ": ");
    push_str(&mut out, metric);
    push_str(&mut out, " (baseline: ");
    push_str(&mut out, baseline);
    push_str(&mut out, ", current: ");
    push_str(&mut out, current);
    push_str(&mut out, ")");
    proof {
        assert(out@ =~= violation_line_text(collector@, metric@, baseline@, current@));
    }
    string_from_chars(&out)
}

} // verus!
