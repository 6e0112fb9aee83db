//! Baselines: the thresholds a metrics summary sets for later runs (the
//! ratchet model), and what changed between two baselines.

use vstd::prelude::*;
use crate::gate::{empty_gate_config, gate_outcomes, reported, Outcome};
use crate::json::Decimal;
use crate::schema::{
    AuditThreshold, Baseline, ClippyThreshold, CollectorStatus, ComplexityThreshold,
    CoverageThreshold, DenyThreshold, DuplicatesThreshold, FmtThreshold, HackThreshold,
    LocThreshold, MetricsSummary, MutantsThreshold, SizeThreshold, TestThreshold, Thresholds,
};
use crate::text::{decimal, push_decimal, push_str, string_from_chars};
use crate::util::{chrono_now, is_datetime_of, iso8601};

verus! {

pub struct BaselineWriter;

/// The thresholds a summary sets: every metric as it stands now, the
/// status checks required where they pass now, and a line length of at
/// least 120.
pub open spec fn spec_thresholds_of(s: MetricsSummary) -> Thresholds {
    let c = s.collectors;
    Thresholds {
        fmt: FmtThreshold { must_pass: c.fmt.status == CollectorStatus::Pass },
        clippy: ClippyThreshold { max_warnings: c.clippy.warning_count },
        tests: TestThreshold { max_failures: c.tests.failed },
        coverage: CoverageThreshold { min_line_percent: c.coverage.line_percent },
        deny: DenyThreshold {
            max_banned: c.deny.banned_count,
            max_license_violations: c.deny.license_violations,
        },
        audit: AuditThreshold {
            max_vulnerabilities: c.audit.vulnerability_count,
            max_critical: c.audit.critical_count,
        },
        hack: HackThreshold { must_pass: c.hack.status == CollectorStatus::Pass },
        mutants: MutantsThreshold { min_score: c.mutants.mutation_score },
        duplicates: DuplicatesThreshold { max_duplicate_lines: c.duplicates.duplicate_lines },
        loc: LocThreshold {
            max_line_length: if c.loc.max_line_length_found >= 120 {
                c.loc.max_line_length_found
            } else {
                120
            },
        },
        size: SizeThreshold {
            max_lines_per_file: Some(c.size.max_lines_per_file),
            max_code_lines_per_file: Some(c.size.max_code_lines_per_file),
            max_lines_per_function: Some(c.size.max_lines_per_function),
            max_parameters_per_function: Some(c.size.max_parameters_per_function),
        },
        complexity: ComplexityThreshold {
            max_cyclomatic_per_function: Some(c.complexity.max_cyclomatic_complexity),
            max_nesting_depth: Some(c.complexity.max_nesting_depth),
        },
    }
}

/// One changed threshold: `name: old -> new`.
pub open spec fn change_line(name: Seq<char>, old_text: Seq<char>, new_text: Seq<char>) -> Seq<char> {
    name + ": "@ + old_text + " -> "@ + new_text
}

pub open spec fn bool_text(b: bool) -> Seq<char> {
    if b { "true"@ } else { "false"@ }
}

/// The shortest decimal text of a number held in millionths, as `{}`
/// prints a float: no fraction for whole numbers, else the fraction without
/// trailing zeros.
pub open spec fn plain_text(micros: int) -> Seq<char> {
    let mag: nat = if micros < 0 { (-micros) as nat } else { micros as nat };
    let sign = if micros < 0 { seq!['-'] } else { Seq::<char>::empty() };
    let frac = mag % 1000000;
    if frac == 0 {
        sign + decimal(mag / 1000000)
    } else {
        sign + decimal(mag / 1000000) + seq!['.'] + fraction_digits(frac, 6)
    }
}

/// The `width` digits of `frac` (zero padded), with trailing zeros removed.
pub open spec fn fraction_digits(frac: nat, width: nat) -> Seq<char>
    decreases width,
{
    if width == 0 {
        Seq::empty()
    } else if frac % 10 == 0 {
        fraction_digits(frac / 10, (width - 1) as nat)
    } else {
        crate::text::padded_decimal(frac, width)
    }
}

/// The lines that describe the changes from `old` to `new` (fmt, clippy,
/// tests and coverage thresholds), in that order.
pub open spec fn spec_threshold_changes(old: Thresholds, new: Thresholds) -> Seq<Seq<char>> {
    (if old.fmt.must_pass != new.fmt.must_pass {
        seq![change_line("fmt.must_pass"@, bool_text(old.fmt.must_pass), bool_text(new.fmt.must_pass))]
    } else {
        Seq::empty()
    }) + (if old.clippy.max_warnings != new.clippy.max_warnings {
        seq![change_line("clippy.max_warnings"@, decimal(old.clippy.max_warnings as nat), decimal(new.clippy.max_warnings as nat))]
    } else {
        Seq::empty()
    }) + (if old.tests.max_failures != new.tests.max_failures {
        seq![change_line("tests.max_failures"@, decimal(old.tests.max_failures as nat), decimal(new.tests.max_failures as nat))]
    } else {
        Seq::empty()
    }) + (if old.coverage.min_line_percent.micros != new.coverage.min_line_percent.micros {
        seq![change_line(
            "coverage.min_line_percent"@,
            plain_text(old.coverage.min_line_percent.micros as int),
            plain_text(new.coverage.min_line_percent.micros as int),
        )]
    } else {
        Seq::empty()
    })
}

/// The text printed for a list of changes.
pub open spec fn spec_diff_lines(changes: Seq<Seq<char>>) -> Seq<Seq<char>> {
    if changes.len() == 0 {
        seq!["No threshold changes detected."@]
    } else {
        seq!["Threshold changes:"@] + changes.map_values(|l: Seq<char>| "  "@ + l)
    }
}

spec fn pow10(n: nat) -> nat
    decreases n,
{
    if n == 0 { 1 } else { 10 * pow10((n - 1) as nat) }
}

fn push_plain(out: &mut Vec<char>, micros: i128)
    ensures
        final(out)@ == old(out)@ + plain_text(micros as int),
{
    let mag: u128 = if micros < 0 { ((-(micros + 1)) as u128) + 1 } else { micros as u128 };
    if micros < 0 {
        out.push('-');
    }
    push_decimal(out, mag / 1000000);
    let frac = mag % 1000000;
    if frac != 0 {
        out.push('.');
        proof {
            reveal_with_fuel(pow10, 7);
        }
        let mut f: u128 = frac;
        let mut w: usize = 6;
        while f % 10 == 0
            invariant
                0 < w <= 6,
                0 < f,
                f < pow10(w as nat),
                fraction_digits(f as nat, w as nat) == fraction_digits(frac as nat, 6),
            decreases w,
        {
            proof {
                reveal_with_fuel(pow10, 2);
                assert(w > 1);
                assert(pow10(w as nat) == 10 * pow10((w - 1) as nat));
            }
            f = f / 10;
            w = w - 1;
        }
        crate::text::push_padded_decimal(out, f, w);
    }
    proof {
        assert(out@ =~= old(out)@ + plain_text(micros as int));
    }
}

fn change_text(name: &str, old_text: &Vec<char>, new_text: &Vec<char>) -> (r: String)
    ensures
        r@ == change_line(name@, old_text@, new_text@),
{
    let mut out: Vec<char> = Vec::new();
    push_str(&mut out, name);
    push_str(&mut out, ": ");
    crate::text::push_all(&mut out, old_text);
    push_str(&mut out, " -> ");
    crate::text::push_all(&mut out, new_text);
    proof {
        assert(out@ =~= change_line(name@, old_text@, new_text@));
    }
    string_from_chars(&out)
}

fn bool_chars(b: bool) -> (r: Vec<char>)
    ensures
        r@ == bool_text(b),
{
    let mut out: Vec<char> = Vec::new();
    if b {
        push_str(&mut out, "true");
    } else {
        push_str(&mut out, "false");
    }
    out
}

fn number_chars(n: u32) -> (r: Vec<char>)
    ensures
        r@ == decimal(n as nat),
{
    let mut out: Vec<char> = Vec::new();
    push_decimal(&mut out, n as u128);
    out
}

fn plain_chars(micros: i128) -> (r: Vec<char>)
    ensures
        r@ == plain_text(micros as int),
{
    let mut out: Vec<char> = Vec::new();
    push_plain(&mut out, micros);
    out
}

impl BaselineWriter {
    /// The thresholds that `summary` sets.
    pub fn thresholds_from(summary: &MetricsSummary) -> (r: Thresholds)
        ensures
            r == spec_thresholds_of(*summary),
    {
        let c = &summary.collectors;
        let max_line_length = if c.loc.max_line_length_found >= 120 {
            c.loc.max_line_length_found
        } else {
            120
        };
        Thresholds {
            fmt: FmtThreshold { must_pass: c.fmt.status == CollectorStatus::Pass },
            clippy: ClippyThreshold { max_warnings: c.clippy.warning_count },
            tests: TestThreshold { max_failures: c.tests.failed },
            coverage: CoverageThreshold { min_line_percent: c.coverage.line_percent },
            deny: DenyThreshold {
                max_banned: c.deny.banned_count,
                max_license_violations: c.deny.license_violations,
            },
            audit: AuditThreshold {
                max_vulnerabilities: c.audit.vulnerability_count,
                max_critical: c.audit.critical_count,
            },
            hack: HackThreshold { must_pass: c.hack.status == CollectorStatus::Pass },
            mutants: MutantsThreshold { min_score: c.mutants.mutation_score },
            duplicates: DuplicatesThreshold { max_duplicate_lines: c.duplicates.duplicate_lines },
            loc: LocThreshold { max_line_length },
            size: SizeThreshold {
                max_lines_per_file: Some(c.size.max_lines_per_file),
                max_code_lines_per_file: Some(c.size.max_code_lines_per_file),
                max_lines_per_function: Some(c.size.max_lines_per_function),
                max_parameters_per_function: Some(c.size.max_parameters_per_function),
            },
            complexity: ComplexityThreshold {
                max_cyclomatic_per_function: Some(c.complexity.max_cyclomatic_complexity),
                max_nesting_depth: Some(c.complexity.max_nesting_depth),
            },
        }
    }

    /// The baseline that `summary` sets, stamped `created_at`.
    pub fn build(summary: &MetricsSummary, created_at: String) -> (r: Baseline)
        ensures
            r.schema_version@ == "1"@,
            r.created_at == created_at,
            r.rustquty_version@ == summary.rustquty_version@,
            r.thresholds == spec_thresholds_of(*summary),
    {
        Baseline {
            schema_version: "1".to_owned(),
            created_at,
            rustquty_version: summary.rustquty_version.clone(),
            thresholds: Self::thresholds_from(summary),
        }
    }

    /// The baseline that `summary` sets, stamped with the current time;
    /// `None` when the system clock reads before 1970.
    pub fn from_summary(summary: &MetricsSummary) -> (r: Option<Baseline>)
        ensures
            r matches Some(b) ==> {
                &&& b.schema_version@ == "1"@
                &&& exists|secs: nat, dt| is_datetime_of(secs, dt) && b.created_at@ == iso8601(dt)
                &&& b.rustquty_version@ == summary.rustquty_version@
                &&& b.thresholds == spec_thresholds_of(*summary)
            },
    {
        match chrono_now() {
            Some(now) => Some(Self::build(summary, now)),
            None => None,
        }
    }

    /// Whether a baseline may be written where one `exists`: only when
    /// `force` is given.
    pub fn check_overwrite(exists: bool, force: bool) -> (r: Result<(), String>)
        ensures
            (exists && !force) ==> (r matches Err(e)
                && e@ == "baseline file already exists; use --force to overwrite"@),
            !(exists && !force) ==> r is Ok,
    {
        if exists && !force {
            Err("baseline file already exists; use --force to overwrite".to_owned())
        } else {
            Ok(())
        }
    }

    /// The lines that describe the threshold changes from `old` to `new`.
    pub fn threshold_changes(old: &Thresholds, new: &Thresholds) -> (r: Vec<String>)
        ensures
            r@.len() == spec_threshold_changes(*old, *new).len(),
            forall|i: int| 0 <= i < r@.len() ==> r@[i]@ == spec_threshold_changes(*old, *new)[i],
    {
        let mut changed: Vec<String> = Vec::new();
        let ghost mut expect: Seq<Seq<char>> = Seq::empty();
        if old.fmt.must_pass != new.fmt.must_pass {
            changed.push(change_text("fmt.must_pass", &bool_chars(old.fmt.must_pass), &bool_chars(new.fmt.must_pass)));
            proof { expect = expect.push(change_line("fmt.must_pass"@, bool_text(old.fmt.must_pass), bool_text(new.fmt.must_pass))); }
        }
        if old.clippy.max_warnings != new.clippy.max_warnings {
            changed.push(change_text("clippy.max_warnings", &number_chars(old.clippy.max_warnings), &number_chars(new.clippy.max_warnings)));
            proof { expect = expect.push(change_line("clippy.max_warnings"@, decimal(old.clippy.max_warnings as nat), decimal(new.clippy.max_warnings as nat))); }
        }
        if old.tests.max_failures != new.tests.max_failures {
            changed.push(change_text("tests.max_failures", &number_chars(old.tests.max_failures), &number_chars(new.tests.max_failures)));
            proof { expect = expect.push(change_line("tests.max_failures"@, decimal(old.tests.max_failures as nat), decimal(new.tests.max_failures as nat))); }
        }
        if old.coverage.min_line_percent.micros != new.coverage.min_line_percent.micros {
            changed.push(change_text(
                "coverage.min_line_percent",
                &plain_chars(old.coverage.min_line_percent.micros),
                &plain_chars(new.coverage.min_line_percent.micros),
            ));
            proof {
                expect = expect.push(change_line(
                    "coverage.min_line_percent"@,
                    plain_text(old.coverage.min_line_percent.micros as int),
                    plain_text(new.coverage.min_line_percent.micros as int),
                ));
            }
        }
        proof {
            assert(expect =~= spec_threshold_changes(*old, *new));
        }
        changed
    }

    /// What is printed after an update: the changes from `old` to `new`, or
    /// that there are none.
    pub fn threshold_diff_lines(old: &Thresholds, new: &Thresholds) -> (r: Vec<String>)
        ensures
            r@.len() == spec_diff_lines(spec_threshold_changes(*old, *new)).len(),
            forall|i: int| 0 <= i < r@.len() ==> r@[i]@ == spec_diff_lines(
                spec_threshold_changes(*old, *new),
            )[i],
    {
        let changes = Self::threshold_changes(old, new);
        let ghost ch = spec_threshold_changes(*old, *new);
        let mut out: Vec<String> = Vec::new();
        if changes.len() == 0 {
            out.push("No threshold changes detected.".to_owned());
            return out;
        }
        out.push("Threshold changes:".to_owned());
        let mut i: usize = 0;
        while i < changes.len()
            invariant
                i <= changes@.len(),
                changes@.len() == ch.len(),
                forall|k: int| 0 <= k < changes@.len() ==> changes@[k]@ == ch[k],
                out@.len() == i + 1,
                out@[0]@ == "Threshold changes:"@,
                forall|k: int| 0 < k <= i ==> out@[k]@ == "  "@ + ch[k - 1],
            decreases changes.len() - i,
        {
            let mut line: Vec<char> = Vec::new();
            push_str(&mut line, "  ");
            push_str(&mut line, changes[i].as_str());
            out.push(string_from_chars(&line));
            i = i + 1;
        }
        out
    }
}

/// Updating a baseline with thresholds equal to its own reports that no
/// threshold changed.
pub proof fn law_same_thresholds_report_no_change(t: Thresholds)
    ensures
        spec_threshold_changes(t, t).len() == 0,
        spec_diff_lines(spec_threshold_changes(t, t)) == seq!["No threshold changes detected."@],
{
    assert(spec_threshold_changes(t, t) =~= Seq::<Seq<char>>::empty());
}

/// Ratchet law: a summary passes `Gate::run` against the baseline it sets
/// (with no absolute thresholds) whenever it has no long lines and no size
/// or complexity violations: every metric equals its own threshold, and
/// equal values do not fail.
pub proof fn law_summary_passes_own_baseline(s: MetricsSummary, b: Baseline)
    requires
        b.thresholds == spec_thresholds_of(s),
        s.collectors.loc.long_lines == 0,
        s.collectors.size.violations@.len() == 0,
        s.collectors.complexity.violations@.len() == 0,
    ensures
        reported(gate_outcomes(s, b, empty_gate_config())).len() == 0,
{
    let outs = gate_outcomes(s, b, empty_gate_config());
    reveal_with_fuel(reported, 13);
    assert(outs[0] is Passed || outs[0] == Outcome::Failed(None) || outs[0] is Skipped);
    assert(outs[6] is Passed || outs[6] == Outcome::Failed(None) || outs[6] is Skipped);
    assert(outs.drop_last().drop_last().drop_last().drop_last().drop_last().drop_last()
        =~= outs.subrange(0, 6));
    assert(reported(outs) =~= Seq::<crate::gate::Expected>::empty());
}

} // verus!
