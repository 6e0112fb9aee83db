//! Gate logic — compare metrics against baseline.

use vstd::prelude::*;
use crate::config::{Config, ConfigGateDefaults};
use crate::json::{Decimal, Json};
use crate::schema::{
    Baseline, CollectorStatus, GateResult, MetricsSummary, QualityReport, ReportSummary,
    Violation,
};
use crate::text::{decimal, fixed_text, push_decimal, push_fixed, push_str, string_from_chars};
use crate::util::{chrono_now, is_datetime_of, iso8601, law_iso8601_form, lemma_decimal_len};

verus! {

/// Absolute thresholds that override baseline values when set.
/// Based on industry standards (SonarQube, ESLint, DeepSource).
#[derive(Debug, Clone, Copy)]
pub struct GateConfig {
    pub max_cyclomatic_per_function: Option<u32>,
    pub max_nesting_depth: Option<u32>,
    pub max_lines_per_function: Option<u32>,
    pub max_lines_per_file: Option<u32>,
    pub max_code_lines_per_file: Option<u32>,
    pub max_parameters_per_function: Option<u32>,
    pub min_coverage_percent: Option<Decimal>,
    pub max_duplicate_lines: Option<u32>,
    pub max_clippy_warnings: Option<u32>,
    pub max_line_length: Option<usize>,
}

/// The configuration that sets no absolute threshold.
pub open spec fn empty_gate_config() -> GateConfig {
    GateConfig {
        max_cyclomatic_per_function: None,
        max_nesting_depth: None,
        max_lines_per_function: None,
        max_lines_per_file: None,
        max_code_lines_per_file: None,
        max_parameters_per_function: None,
        min_coverage_percent: None,
        max_duplicate_lines: None,
        max_clippy_warnings: None,
        max_line_length: None,
    }
}

impl Default for GateConfig {
    fn default() -> (r: GateConfig)
        ensures
            r == empty_gate_config(),
    {
        GateConfig {
            max_cyclomatic_per_function: None,
            max_nesting_depth: None,
            max_lines_per_function: None,
            max_lines_per_file: None,
            max_code_lines_per_file: None,
            max_parameters_per_function: None,
            min_coverage_percent: None,
            max_duplicate_lines: None,
            max_clippy_warnings: None,
            max_line_length: None,
        }
    }
}

/// The absolute thresholds of a `[gate.defaults]` section, field for field.
pub open spec fn spec_gate_config_from(d: ConfigGateDefaults) -> GateConfig {
    GateConfig {
        max_cyclomatic_per_function: d.max_cyclomatic_per_function,
        max_nesting_depth: d.max_nesting_depth,
        max_lines_per_function: d.max_lines_per_function,
        max_lines_per_file: d.max_lines_per_file,
        max_code_lines_per_file: d.max_code_lines_per_file,
        max_parameters_per_function: d.max_parameters_per_function,
        min_coverage_percent: d.min_coverage_percent,
        max_duplicate_lines: d.max_duplicate_lines,
        max_clippy_warnings: d.max_clippy_warnings,
        max_line_length: d.max_line_length,
    }
}

/// The absolute thresholds a configuration sets: those of its
/// `[gate.defaults]` section, when it has one.
pub open spec fn spec_configured_gate(config: Option<Config>) -> Option<GateConfig> {
    match config {
        Some(c) => match c.gate.defaults {
            Some(d) => Some(spec_gate_config_from(d)),
            None => None,
        },
        None => None,
    }
}

impl GateConfig {
    /// The absolute thresholds of a `[gate.defaults]` section.
    pub fn from_defaults(d: &ConfigGateDefaults) -> (r: GateConfig)
        ensures
            r == spec_gate_config_from(*d),
    {
        GateConfig {
            max_cyclomatic_per_function: d.max_cyclomatic_per_function,
            max_nesting_depth: d.max_nesting_depth,
            max_lines_per_function: d.max_lines_per_function,
            max_lines_per_file: d.max_lines_per_file,
            max_code_lines_per_file: d.max_code_lines_per_file,
            max_parameters_per_function: d.max_parameters_per_function,
            min_coverage_percent: d.min_coverage_percent,
            max_duplicate_lines: d.max_duplicate_lines,
            max_clippy_warnings: d.max_clippy_warnings,
            max_line_length: d.max_line_length,
        }
    }

    /// The absolute thresholds of a scan whose configuration file, if one
    /// was read, is `config`: its `[gate.defaults]`, overriding the
    /// baseline where they are set.
    pub fn configured(config: Option<&Config>) -> (r: Option<GateConfig>)
        ensures
            r == spec_configured_gate(match config { Some(c) => Some(*c), None => None }),
    {
        match config {
            Some(c) => match c.gate.defaults {
                Some(d) => Some(Self::from_defaults(&d)),
                None => None,
            },
            None => None,
        }
    }
}

pub struct Gate;

// ------------------------------------------------------------------------------------------------
// What the verdict is, stated over the metrics
// ------------------------------------------------------------------------------------------------

/// The JSON values a violation records.
pub ghost enum Shape {
    Bool(bool),
    UInt(u64),
    Float(Decimal),
    Text(Seq<char>),
    /// An object with two unsigned members, in this order.
    Pair(Seq<char>, u64, Seq<char>, u64),
}

pub open spec fn json_has_shape(j: Json, s: Shape) -> bool {
    match s {
        Shape::Bool(b) => j == Json::Bool(b),
        Shape::UInt(n) => j == Json::UInt(n),
        Shape::Float(d) => j == Json::Float(d),
        Shape::Text(t) => j matches Json::Str(x) && x@ == t,
        Shape::Pair(k1, v1, k2, v2) => j matches Json::Object(e) && e@.len() == 2 && e@[0].0@ == k1
            && e@[0].1 == Json::UInt(v1) && e@[1].0@ == k2 && e@[1].1 == Json::UInt(v2),
    }
}

/// A violation as a report states it.
pub ghost struct Expected {
    pub collector: Seq<char>,
    pub metric: Seq<char>,
    pub baseline: Shape,
    pub current: Shape,
    pub message: Seq<char>,
}

pub open spec fn violation_matches(v: Violation, e: Expected) -> bool {
    &&& v.collector@ == e.collector
    &&& v.metric@ == e.metric
    &&& json_has_shape(v.baseline_value, e.baseline)
    &&& json_has_shape(v.current_value, e.current)
    &&& v.message@ == e.message
}

/// The result of one of the twelve checks.
pub ghost enum Outcome {
    Passed,
    /// Failed, with the violation it reports, if it reports one.
    Failed(Option<Expected>),
    Skipped,
}

/// A check on a collector's status: a pass passes, a failure fails (and is
/// reported when the baseline requires the collector to pass), a skip or an
/// error is skipped.
pub open spec fn status_outcome(status: CollectorStatus, collector: Seq<char>, must_pass: bool) -> Outcome {
    match status {
        CollectorStatus::Pass => Outcome::Passed,
        CollectorStatus::Fail => Outcome::Failed(
            if must_pass {
                Some(Expected {
                    collector,
                    metric: "status"@,
                    baseline: Shape::Bool(true),
                    current: Shape::Text("fail"@),
                    message: collector + " check failed"@,
                })
            } else {
                None
            },
        ),
        CollectorStatus::Skipped => Outcome::Skipped,
        CollectorStatus::Error => Outcome::Skipped,
    }
}

/// A check on a metric: it passes when `pass` holds, else it fails with `e`.
pub open spec fn metric_outcome(pass: bool, e: Expected) -> Outcome {
    if pass { Outcome::Passed } else { Outcome::Failed(Some(e)) }
}

/// `prefix a mid b suffix` with `a`, `b` in decimal.
pub open spec fn two_numbers(prefix: Seq<char>, a: nat, mid: Seq<char>, b: nat, suffix: Seq<char>) -> Seq<char> {
    prefix + decimal(a) + mid + decimal(b) + suffix
}

/// `prefix a mid b suffix` with `a`, `b` shown with `places` decimals.
pub open spec fn two_fixed(prefix: Seq<char>, a: int, mid: Seq<char>, b: int, suffix: Seq<char>, places: nat) -> Seq<char> {
    prefix + fixed_text(a, places) + mid + fixed_text(b, places) + suffix
}

pub open spec fn clippy_limit(b: Baseline, c: GateConfig) -> u32 {
    match c.max_clippy_warnings {
        Some(x) => x,
        None => b.thresholds.clippy.max_warnings,
    }
}

pub open spec fn coverage_limit(b: Baseline, c: GateConfig) -> Decimal {
    match c.min_coverage_percent {
        Some(x) => x,
        None => b.thresholds.coverage.min_line_percent,
    }
}

pub open spec fn duplicates_limit(b: Baseline, c: GateConfig) -> u32 {
    match c.max_duplicate_lines {
        Some(x) => x,
        None => b.thresholds.duplicates.max_duplicate_lines,
    }
}

/// The line length that the loc message reports: the collector's own
/// threshold when it recorded one, else the configured or baseline length,
/// at least 120.
pub open spec fn loc_limit(s: MetricsSummary, b: Baseline, c: GateConfig) -> usize {
    if s.collectors.loc.max_line_length_allowed > 0 {
        s.collectors.loc.max_line_length_allowed
    } else {
        let l = match c.max_line_length {
            Some(x) => x,
            None => b.thresholds.loc.max_line_length,
        };
        if l >= 120 { l } else { 120 }
    }
}

/// Some size threshold is set, by the configuration or the baseline.
pub open spec fn size_has_thresholds(b: Baseline, c: GateConfig) -> bool {
    ||| c.max_lines_per_file is Some || b.thresholds.size.max_lines_per_file is Some
    ||| c.max_code_lines_per_file is Some || b.thresholds.size.max_code_lines_per_file is Some
    ||| c.max_lines_per_function is Some || b.thresholds.size.max_lines_per_function is Some
    ||| c.max_parameters_per_function is Some
        || b.thresholds.size.max_parameters_per_function is Some
}

/// Some complexity threshold is set, by the configuration or the baseline.
pub open spec fn complexity_has_thresholds(b: Baseline, c: GateConfig) -> bool {
    ||| c.max_cyclomatic_per_function is Some
        || b.thresholds.complexity.max_cyclomatic_per_function is Some
    ||| c.max_nesting_depth is Some || b.thresholds.complexity.max_nesting_depth is Some
}

pub open spec fn fmt_outcome(s: MetricsSummary, b: Baseline) -> Outcome {
    status_outcome(s.collectors.fmt.status, "fmt"@, b.thresholds.fmt.must_pass)
}

/// The violation the clippy check reports when it fails.
pub open spec fn clippy_expected(s: MetricsSummary, b: Baseline, c: GateConfig) -> Expected {
    let wc = s.collectors.clippy.warning_count;
    let max = clippy_limit(b, c);
    Expected {
        collector: "clippy"@,
        metric: "warning_count"@,
        baseline: Shape::UInt(max as u64),
        current: Shape::UInt(wc as u64),
        message: two_numbers(
            "clippy warnings ("@,
            wc as nat,
            ") exceed max allowed ("@,
            max as nat,
            ")"@,
        ),
    }
}

pub open spec fn clippy_outcome(s: MetricsSummary, b: Baseline, c: GateConfig) -> Outcome {
    let wc = s.collectors.clippy.warning_count;
    let max = clippy_limit(b, c);
    metric_outcome(wc <= max, clippy_expected(s, b, c))
}

/// The violation the tests check reports when it fails.
pub open spec fn tests_expected(s: MetricsSummary, b: Baseline) -> Expected {
    let failed = s.collectors.tests.failed;
    let max = b.thresholds.tests.max_failures;
    Expected {
        collector: "tests"@,
        metric: "failed"@,
        baseline: Shape::UInt(max as u64),
        current: Shape::UInt(failed as u64),
        message: two_numbers(
            "test failures ("@,
            failed as nat,
            ") exceed max allowed ("@,
            max as nat,
            ")"@,
        ),
    }
}

pub open spec fn tests_outcome(s: MetricsSummary, b: Baseline) -> Outcome {
    let failed = s.collectors.tests.failed;
    let max = b.thresholds.tests.max_failures;
    metric_outcome(failed <= max, tests_expected(s, b))
}

/// The violation the coverage check reports when it fails.
pub open spec fn coverage_expected(s: MetricsSummary, b: Baseline, c: GateConfig) -> Expected {
    let lp = s.collectors.coverage.line_percent;
    let min = coverage_limit(b, c);
    Expected {
        collector: "coverage"@,
        metric: "line_percent"@,
        baseline: Shape::Float(min),
        current: Shape::Float(lp),
        message: two_fixed(
            "coverage ("@,
            lp.micros as int,
            "%) below minimum ("@,
            min.micros as int,
            "%)"@,
            1,
        ),
    }
}

pub open spec fn coverage_outcome(s: MetricsSummary, b: Baseline, c: GateConfig) -> Outcome {
    let lp = s.collectors.coverage.line_percent;
    let min = coverage_limit(b, c);
    metric_outcome(lp.micros >= min.micros, coverage_expected(s, b, c))
}

/// The violation the deny check reports when it fails.
pub open spec fn deny_expected(s: MetricsSummary, b: Baseline) -> Expected {
    let d = s.collectors.deny;
    let t = b.thresholds.deny;
    Expected {
        collector: "deny"@,
        metric: "banned_count + license_violations"@,
        baseline: Shape::Pair(
            "max_banned"@,
            t.max_banned as u64,
            "max_license_violations"@,
            t.max_license_violations as u64,
        ),
        current: Shape::Pair(
            "banned_count"@,
            d.banned_count as u64,
            "license_violations"@,
            d.license_violations as u64,
        ),
        message: two_numbers(
            "deny check failed: "@,
            d.banned_count as nat,
            " banned, "@,
            d.license_violations as nat,
            " license violations"@,
        ),
    }
}

pub open spec fn deny_outcome(s: MetricsSummary, b: Baseline) -> Outcome {
    let d = s.collectors.deny;
    let t = b.thresholds.deny;
    metric_outcome(d.banned_count <= t.max_banned && d.license_violations <= t.max_license_violations, deny_expected(s, b))
}

/// The violation the audit check reports when it fails.
pub open spec fn audit_expected(s: MetricsSummary, b: Baseline) -> Expected {
    let a = s.collectors.audit;
    let t = b.thresholds.audit;
    Expected {
        collector: "audit"@,
        metric: "vulnerability_count + critical_count"@,
        baseline: Shape::Pair(
            "max_critical"@,
            t.max_critical as u64,
            "max_vulnerabilities"@,
            t.max_vulnerabilities as u64,
        ),
        current: Shape::Pair(
            "critical_count"@,
            a.critical_count as u64,
            "vulnerability_count"@,
            a.vulnerability_count as u64,
        ),
        message: two_numbers(
            "audit found "@,
            a.vulnerability_count as nat,
            " vulnerabilities ("@,
            a.critical_count as nat,
            " critical), exceeds baseline"@,
        ),
    }
}

pub open spec fn audit_outcome(s: MetricsSummary, b: Baseline) -> Outcome {
    let a = s.collectors.audit;
    let t = b.thresholds.audit;
    metric_outcome(a.vulnerability_count <= t.max_vulnerabilities && a.critical_count <= t.max_critical, audit_expected(s, b))
}

pub open spec fn hack_outcome(s: MetricsSummary, b: Baseline) -> Outcome {
    status_outcome(s.collectors.hack.status, "hack"@, b.thresholds.hack.must_pass)
}

/// The violation the mutants check reports when it fails.
pub open spec fn mutants_expected(s: MetricsSummary, b: Baseline) -> Expected {
    let score = s.collectors.mutants.mutation_score;
    let min = b.thresholds.mutants.min_score;
    Expected {
        collector: "mutants"@,
        metric: "mutation_score"@,
        baseline: Shape::Float(min),
        current: Shape::Float(score),
        message: two_fixed(
            "mutation score ("@,
            score.micros as int,
            ") below minimum ("@,
            min.micros as int,
            ")"@,
            2,
        ),
    }
}

pub open spec fn mutants_outcome(s: MetricsSummary, b: Baseline) -> Outcome {
    let score = s.collectors.mutants.mutation_score;
    let min = b.thresholds.mutants.min_score;
    metric_outcome(score.micros >= min.micros, mutants_expected(s, b))
}

/// The violation the duplicates check reports when it fails.
pub open spec fn duplicates_expected(s: MetricsSummary, b: Baseline, c: GateConfig) -> Expected {
    let dl = s.collectors.duplicates.duplicate_lines;
    let max = duplicates_limit(b, c);
    Expected {
        collector: "duplicates"@,
        metric: "duplicate_lines"@,
        baseline: Shape::UInt(max as u64),
        current: Shape::UInt(dl as u64),
        message: two_numbers(
            "duplicate lines ("@,
            dl as nat,
            ") exceed maximum ("@,
            max as nat,
            ")"@,
        ),
    }
}

pub open spec fn duplicates_outcome(s: MetricsSummary, b: Baseline, c: GateConfig) -> Outcome {
    let dl = s.collectors.duplicates.duplicate_lines;
    let max = duplicates_limit(b, c);
    metric_outcome(dl <= max, duplicates_expected(s, b, c))
}

/// The violation the loc check reports when it fails.
pub open spec fn loc_expected(s: MetricsSummary, b: Baseline, c: GateConfig) -> Expected {
    let ll = s.collectors.loc.long_lines;
    Expected {
        collector: "loc"@,
        metric: "long_lines"@,
        baseline: Shape::UInt(0),
        current: Shape::UInt(ll as u64),
        message: two_numbers(
            Seq::empty(),
            ll as nat,
            " lines exceed max length ("@,
            loc_limit(s, b, c) as nat,
            ")"@,
        ),
    }
}

pub open spec fn loc_outcome(s: MetricsSummary, b: Baseline, c: GateConfig) -> Outcome {
    let ll = s.collectors.loc.long_lines;
    metric_outcome(ll == 0, loc_expected(s, b, c))
}

/// The violation the size check reports when it fails.
pub open spec fn size_expected(s: MetricsSummary, b: Baseline, c: GateConfig) -> Expected {
    let n = s.collectors.size.violations@.len();
    Expected {
        collector: "size"@,
        metric: "violations"@,
        baseline: Shape::UInt(0),
        current: Shape::UInt(n as u64),
        message: decimal(n) + " size violation(s) detected"@,
    }
}

pub open spec fn size_outcome(s: MetricsSummary, b: Baseline, c: GateConfig) -> Outcome {
    let n = s.collectors.size.violations@.len();
    metric_outcome(!size_has_thresholds(b, c) || n == 0, size_expected(s, b, c))
}

/// The violation the complexity check reports when it fails.
pub open spec fn complexity_expected(s: MetricsSummary, b: Baseline, c: GateConfig) -> Expected {
    let n = s.collectors.complexity.violations@.len();
    Expected {
        collector: "complexity"@,
        metric: "violations"@,
        baseline: Shape::UInt(0),
        current: Shape::UInt(n as u64),
        message: decimal(n) + " complexity violation(s) detected"@,
    }
}

pub open spec fn complexity_outcome(s: MetricsSummary, b: Baseline, c: GateConfig) -> Outcome {
    let n = s.collectors.complexity.violations@.len();
    metric_outcome(!complexity_has_thresholds(b, c) || n == 0, complexity_expected(s, b, c))
}

/// The twelve checks, in the order `Gate::run` makes them.
pub open spec fn gate_outcomes(s: MetricsSummary, b: Baseline, c: GateConfig) -> Seq<Outcome> {
    seq![
        fmt_outcome(s, b),
        clippy_outcome(s, b, c),
        tests_outcome(s, b),
        coverage_outcome(s, b, c),
        deny_outcome(s, b),
        audit_outcome(s, b),
        hack_outcome(s, b),
        mutants_outcome(s, b),
        duplicates_outcome(s, b, c),
        loc_outcome(s, b, c),
        size_outcome(s, b, c),
        complexity_outcome(s, b, c),
    ]
}

pub open spec fn count_passed(outs: Seq<Outcome>) -> nat
    decreases outs.len(),
{
    if outs.len() == 0 {
        0
    } else {
        count_passed(outs.drop_last()) + if outs.last() is Passed { 1nat } else { 0nat }
    }
}

pub open spec fn count_failed(outs: Seq<Outcome>) -> nat
    decreases outs.len(),
{
    if outs.len() == 0 {
        0
    } else {
        count_failed(outs.drop_last()) + if outs.last() is Failed { 1nat } else { 0nat }
    }
}

pub open spec fn count_skipped(outs: Seq<Outcome>) -> nat
    decreases outs.len(),
{
    if outs.len() == 0 {
        0
    } else {
        count_skipped(outs.drop_last()) + if outs.last() is Skipped { 1nat } else { 0nat }
    }
}

/// The violations the checks report, in order.
pub open spec fn reported(outs: Seq<Outcome>) -> Seq<Expected>
    decreases outs.len(),
{
    if outs.len() == 0 {
        Seq::empty()
    } else {
        reported(outs.drop_last()) + match outs.last() {
            Outcome::Failed(Some(e)) => seq![e],
            _ => Seq::empty(),
        }
    }
}

/// `violations` are exactly the violations `expected`, in order.
pub open spec fn violations_match(violations: Seq<Violation>, expected: Seq<Expected>) -> bool {
    &&& violations.len() == expected.len()
    &&& forall|i: int| 0 <= i < violations.len() ==> violation_matches(violations[i], expected[i])
}

/// The quality report of the checks `outs`, generated at `generated_at`.
pub open spec fn is_report_of(r: QualityReport, outs: Seq<Outcome>, generated_at: Seq<char>) -> bool {
    &&& r.schema_version@ == "1"@
    &&& r.generated_at@ == generated_at
    &&& violations_match(r.violations@, reported(outs))
    &&& r.gate_result == if reported(outs).len() == 0 { GateResult::Pass } else { GateResult::Fail }
    &&& r.summary.collectors_passed == count_passed(outs)
    &&& r.summary.collectors_failed == count_failed(outs)
    &&& r.summary.collectors_skipped == count_skipped(outs)
    &&& r.summary.collectors_run == count_passed(outs) + count_failed(outs)
}

/// The configuration in force: the one given, or none.
pub open spec fn config_or_empty(config: Option<&GateConfig>) -> GateConfig {
    match config {
        Some(c) => *c,
        None => empty_gate_config(),
    }
}

proof fn lemma_counts_bounded(outs: Seq<Outcome>)
    ensures
        count_passed(outs) + count_failed(outs) + count_skipped(outs) == outs.len(),
        reported(outs).len() <= count_failed(outs),
    decreases outs.len(),
{
    if outs.len() > 0 {
        lemma_counts_bounded(outs.drop_last());
    }
}

/// Each of the twelve checks ends exactly once as passed,
/// failed or skipped, so the three counts add up to twelve; and each check
/// reports at most one violation, and only when it fails.
pub proof fn law_each_check_counted_once(s: MetricsSummary, b: Baseline, c: GateConfig)
    ensures
        gate_outcomes(s, b, c).len() == 12,
        count_passed(gate_outcomes(s, b, c)) + count_failed(gate_outcomes(s, b, c))
            + count_skipped(gate_outcomes(s, b, c)) == 12,
        reported(gate_outcomes(s, b, c)).len() <= count_failed(gate_outcomes(s, b, c)),
{
    lemma_counts_bounded(gate_outcomes(s, b, c));
}

/// `Gate::run_with_config` without a configuration runs with the default
/// one: every threshold then comes from the baseline.
pub proof fn law_no_config_is_default_config(s: MetricsSummary, b: Baseline)
    ensures
        gate_outcomes(s, b, config_or_empty(None)) == gate_outcomes(s, b, empty_gate_config()),
{
}

/// Whether an outcome reports a violation.
pub open spec fn reports_violation(o: Outcome) -> bool {
    o matches Outcome::Failed(Some(_))
}

/// No violation is reported exactly when no check reports one.
proof fn lemma_reported_empty(outs: Seq<Outcome>)
    ensures
        reported(outs).len() == 0 <==> forall|i: int| 0 <= i < outs.len() ==> !reports_violation(#[trigger] outs[i]),
    decreases outs.len(),
{
    if outs.len() > 0 {
        lemma_reported_empty(outs.drop_last());
        assert forall|i: int| 0 <= i < outs.len() - 1 implies #[trigger] outs.drop_last()[i] == outs[i] by {}
        if reported(outs).len() == 0 {
            assert forall|i: int| 0 <= i < outs.len() implies !reports_violation(#[trigger] outs[i]) by {
                if i < outs.len() - 1 {
                    assert(outs.drop_last()[i] == outs[i]);
                }
            }
        } else {
            if forall|i: int| 0 <= i < outs.len() ==> !reports_violation(#[trigger] outs[i]) {
                assert(!reports_violation(outs[outs.len() - 1]));
                assert forall|i: int| 0 <= i < outs.drop_last().len() implies !reports_violation(
                    #[trigger] outs.drop_last()[i],
                ) by {
                    assert(outs.drop_last()[i] == outs[i]);
                }
            }
        }
    }
}

/// A status is no worse than another when it fails only where the other
/// failed.
pub open spec fn status_no_worse(now: CollectorStatus, before: CollectorStatus) -> bool {
    now == CollectorStatus::Fail ==> before == CollectorStatus::Fail
}

/// No metric of `now` is worse than in `before`: no status newly fails, no
/// count grows, and neither coverage nor mutation score falls.
pub open spec fn no_worse(now: MetricsSummary, before: MetricsSummary) -> bool {
    let n = now.collectors;
    let p = before.collectors;
    &&& status_no_worse(n.fmt.status, p.fmt.status)
    &&& n.clippy.warning_count <= p.clippy.warning_count
    &&& n.tests.failed <= p.tests.failed
    &&& n.coverage.line_percent.micros >= p.coverage.line_percent.micros
    &&& n.deny.banned_count <= p.deny.banned_count
    &&& n.deny.license_violations <= p.deny.license_violations
    &&& n.audit.vulnerability_count <= p.audit.vulnerability_count
    &&& n.audit.critical_count <= p.audit.critical_count
    &&& status_no_worse(n.hack.status, p.hack.status)
    &&& n.mutants.mutation_score.micros >= p.mutants.mutation_score.micros
    &&& n.duplicates.duplicate_lines <= p.duplicates.duplicate_lines
    &&& n.loc.long_lines <= p.loc.long_lines
    &&& n.size.violations@.len() <= p.size.violations@.len()
    &&& n.complexity.violations@.len() <= p.complexity.violations@.len()
}

/// The ratchet: metrics that passed against a baseline keep passing when
/// none of them gets worse.  Only a regression can fail the verdict.
pub proof fn law_no_regression_keeps_passing(now: MetricsSummary, before: MetricsSummary, b: Baseline, c: GateConfig)
    requires
        reported(gate_outcomes(before, b, c)).len() == 0,
        no_worse(now, before),
    ensures
        reported(gate_outcomes(now, b, c)).len() == 0,
{
    let o1 = gate_outcomes(before, b, c);
    let o2 = gate_outcomes(now, b, c);
    lemma_reported_empty(o1);
    lemma_reported_empty(o2);
    assert forall|i: int| 0 <= i < o2.len() implies !reports_violation(#[trigger] o2[i]) by {
        assert(!reports_violation(o1[i]));
        assert(i == 0 || i == 1 || i == 2 || i == 3 || i == 4 || i == 5 || i == 6 || i == 7 || i == 8
            || i == 9 || i == 10 || i == 11);
    }
}

/// Some metric of `s` is past the threshold in force: a required status
/// fails, a count exceeds its maximum, a percentage or score falls below its
/// minimum, a line is too long, or a size or complexity violation is found
/// while such thresholds are set.
pub open spec fn past_threshold(s: MetricsSummary, b: Baseline, c: GateConfig) -> bool {
    let n = s.collectors;
    let t = b.thresholds;
    ||| n.fmt.status == CollectorStatus::Fail && t.fmt.must_pass
    ||| n.clippy.warning_count > clippy_limit(b, c)
    ||| n.tests.failed > t.tests.max_failures
    ||| n.coverage.line_percent.micros < coverage_limit(b, c).micros
    ||| n.deny.banned_count > t.deny.max_banned
    ||| n.deny.license_violations > t.deny.max_license_violations
    ||| n.audit.vulnerability_count > t.audit.max_vulnerabilities
    ||| n.audit.critical_count > t.audit.max_critical
    ||| n.hack.status == CollectorStatus::Fail && t.hack.must_pass
    ||| n.mutants.mutation_score.micros < t.mutants.min_score.micros
    ||| n.duplicates.duplicate_lines > duplicates_limit(b, c)
    ||| n.loc.long_lines > 0
    ||| size_has_thresholds(b, c) && n.size.violations@.len() > 0
    ||| complexity_has_thresholds(b, c) && n.complexity.violations@.len() > 0
}

/// The verdict fails exactly when some metric is past its threshold: any
/// one regression makes it fail, and nothing else does.
pub proof fn law_fails_exactly_past_threshold(s: MetricsSummary, b: Baseline, c: GateConfig)
    ensures
        reported(gate_outcomes(s, b, c)).len() > 0 <==> past_threshold(s, b, c),
{
    let o = gate_outcomes(s, b, c);
    lemma_reported_empty(o);
    if past_threshold(s, b, c) {
        assert(exists|i: int| 0 <= i < o.len() && reports_violation(#[trigger] o[i])) by {
            if reports_violation(o[0]) {
            } else if reports_violation(o[1]) {
            } else if reports_violation(o[2]) {
            } else if reports_violation(o[3]) {
            } else if reports_violation(o[4]) {
            } else if reports_violation(o[5]) {
            } else if reports_violation(o[6]) {
            } else if reports_violation(o[7]) {
            } else if reports_violation(o[8]) {
            } else if reports_violation(o[9]) {
            } else if reports_violation(o[10]) {
            } else {
                assert(reports_violation(o[11]));
            }
        }
    } else {
        assert forall|i: int| 0 <= i < o.len() implies !reports_violation(#[trigger] o[i]) by {
            assert(i == 0 || i == 1 || i == 2 || i == 3 || i == 4 || i == 5 || i == 6 || i == 7 || i == 8
                || i == 9 || i == 10 || i == 11);
        }
    }
}

/// Every violation a check would report has a message.
pub open spec fn messages_present(outs: Seq<Outcome>) -> bool {
    forall|i: int| 0 <= i < outs.len() ==> (#[trigger] outs[i] matches Outcome::Failed(Some(e)) ==> e.message.len() > 0)
}

proof fn lemma_reported_messages(outs: Seq<Outcome>)
    requires
        messages_present(outs),
    ensures
        forall|k: int| 0 <= k < reported(outs).len() ==> (#[trigger] reported(outs)[k]).message.len() > 0,
    decreases outs.len(),
{
    if outs.len() > 0 {
        let init = outs.drop_last();
        assert forall|i: int| 0 <= i < init.len() implies (#[trigger] init[i] matches Outcome::Failed(Some(e))
            ==> e.message.len() > 0) by {
            assert(init[i] == outs[i]);
        }
        lemma_reported_messages(init);
        assert(outs.last() == outs[outs.len() - 1]);
        let prev = reported(init);
        let r = reported(outs);
        assert forall|k: int| 0 <= k < r.len() implies (#[trigger] r[k]).message.len() > 0 by {
            if k < prev.len() {
                assert(r[k] == prev[k]);
            }
        }
    }
}

proof fn lemma_gate_messages_present(s: MetricsSummary, b: Baseline, c: GateConfig)
    ensures
        messages_present(gate_outcomes(s, b, c)),
{
    reveal_strlit(" check failed");
    let n = s.collectors;
    lemma_decimal_len(n.clippy.warning_count as nat);
    lemma_decimal_len(n.tests.failed as nat);
    lemma_decimal_len(n.deny.banned_count as nat);
    lemma_decimal_len(n.audit.vulnerability_count as nat);
    lemma_decimal_len(n.duplicates.duplicate_lines as nat);
    lemma_decimal_len(n.loc.long_lines as nat);
    lemma_decimal_len(n.size.violations@.len());
    lemma_decimal_len(n.complexity.violations@.len());
    let o = gate_outcomes(s, b, c);
    assert forall|i: int| 0 <= i < o.len() implies (#[trigger] o[i] matches Outcome::Failed(Some(e)) ==> e.message.len() > 0) by {
        assert(i == 0 || i == 1 || i == 2 || i == 3 || i == 4 || i == 5 || i == 6 || i == 7 || i == 8
            || i == 9 || i == 10 || i == 11);
    }
}

/// The form of every quality report: it passes exactly when it lists no
/// violation and is never an error; the collectors run are those that
/// passed or failed, and with the skipped ones they are the twelve checks;
/// no more violations than failed checks, each with a message; schema
/// version `1`; and a stamp `YYYY-MM-DDTHH:MM:SSZ` of 20 characters (for a
/// year with four digits).
pub proof fn law_report_form(
    r: QualityReport,
    s: MetricsSummary,
    b: Baseline,
    c: GateConfig,
    secs: nat,
    dt: (u64, u64, u64, u64, u64, u64),
)
    requires
        is_datetime_of(secs, dt),
        is_report_of(r, gate_outcomes(s, b, c), iso8601(dt)),
    ensures
        r.gate_result == GateResult::Pass <==> r.violations@.len() == 0,
        r.gate_result != GateResult::Error,
        r.summary.collectors_run == r.summary.collectors_passed + r.summary.collectors_failed,
        r.summary.collectors_passed + r.summary.collectors_failed + r.summary.collectors_skipped == 12,
        r.violations@.len() <= r.summary.collectors_failed,
        r.schema_version@ == "1"@,
        forall|i: int| 0 <= i < r.violations@.len() ==> (#[trigger] r.violations@[i]).message@.len() > 0,
        dt.0 <= 9999 ==> r.generated_at@.len() == 20,
{
    let o = gate_outcomes(s, b, c);
    lemma_counts_bounded(o);
    lemma_gate_messages_present(s, b, c);
    lemma_reported_messages(o);
    assert forall|i: int| 0 <= i < r.violations@.len() implies (#[trigger] r.violations@[i]).message@.len() > 0 by {
        assert(violation_matches(r.violations@[i], reported(o)[i]));
    }
    if dt.0 <= 9999 {
        law_iso8601_form(secs, dt);
    }
}

// ------------------------------------------------------------------------------------------------
// Recording the checks
// ------------------------------------------------------------------------------------------------

struct Tally {
    violations: Vec<Violation>,
    passed: u32,
    failed: u32,
    skipped: u32,
}

spec fn tally_matches(t: Tally, outs: Seq<Outcome>) -> bool {
    &&& outs.len() <= 12
    &&& t.passed == count_passed(outs)
    &&& t.failed == count_failed(outs)
    &&& t.skipped == count_skipped(outs)
    &&& violations_match(t.violations@, reported(outs))
}

fn owned(s: &str) -> (r: String)
    ensures
        r@ == s@,
{
    s.to_owned()
}

fn two_numbers_text(prefix: &str, a: u64, mid: &str, b: u64, suffix: &str) -> (r: String)
    ensures
        r@ == two_numbers(prefix@, a as nat, mid@, b as nat, suffix@),
{
    let mut out: Vec<char> = Vec::new();
    push_str(&mut out, prefix);
    push_decimal(&mut out, a as u128);
    push_str(&mut out, mid);
    push_decimal(&mut out, b as u128);
    push_str(&mut out, suffix);
    proof {
        assert(out@ =~= two_numbers(prefix@, a as nat, mid@, b as nat, suffix@));
    }
    string_from_chars(&out)
}

fn two_fixed_text(prefix: &str, a: i128, mid: &str, b: i128, suffix: &str, places: u32) -> (r: String)
    requires
        places == 1 || places == 2,
    ensures
        r@ == two_fixed(prefix@, a as int, mid@, b as int, suffix@, places as nat),
{
    let mut out: Vec<char> = Vec::new();
    push_str(&mut out, prefix);
    push_fixed(&mut out, a, places);
    push_str(&mut out, mid);
    push_fixed(&mut out, b, places);
    push_str(&mut out, suffix);
    proof {
        assert(out@ =~= two_fixed(prefix@, a as int, mid@, b as int, suffix@, places as nat));
    }
    string_from_chars(&out)
}

fn count_text(n: u64, suffix: &str) -> (r: String)
    ensures
        r@ == decimal(n as nat) + suffix@,
{
    let mut out: Vec<char> = Vec::new();
    push_decimal(&mut out, n as u128);
    push_str(&mut out, suffix);
    proof {
        assert(out@ =~= decimal(n as nat) + suffix@);
    }
    string_from_chars(&out)
}

fn pair_object(k1: &str, v1: u64, k2: &str, v2: u64) -> (r: Json)
    ensures
        json_has_shape(r, Shape::Pair(k1@, v1, k2@, v2)),
{
    let entries = vec![(owned(k1), Json::UInt(v1)), (owned(k2), Json::UInt(v2))];
    Json::Object(entries)
}

impl Tally {
    fn new() -> (r: Tally)
        ensures
            tally_matches(r, Seq::empty()),
    {
        proof {
            assert(reported(Seq::<Outcome>::empty()) =~= Seq::<Expected>::empty());
        }
        Tally { violations: Vec::new(), passed: 0, failed: 0, skipped: 0 }
    }

    /// Records a passing check.
    fn pass(&mut self, Ghost(outs): Ghost<Seq<Outcome>>)
        requires
            tally_matches(*old(self), outs),
            outs.len() < 12,
        ensures
            tally_matches(*final(self), outs.push(Outcome::Passed)),
    {
        proof {
            lemma_counts_bounded(outs);
            assert(outs.push(Outcome::Passed).drop_last() =~= outs);
        }
        self.passed = self.passed + 1;
    }

    /// Records a skipped check.
    fn skip(&mut self, Ghost(outs): Ghost<Seq<Outcome>>)
        requires
            tally_matches(*old(self), outs),
            outs.len() < 12,
        ensures
            tally_matches(*final(self), outs.push(Outcome::Skipped)),
    {
        proof {
            lemma_counts_bounded(outs);
            assert(outs.push(Outcome::Skipped).drop_last() =~= outs);
        }
        self.skipped = self.skipped + 1;
    }

    /// Records a failing check that reports nothing.
    fn fail_quietly(&mut self, Ghost(outs): Ghost<Seq<Outcome>>)
        requires
            tally_matches(*old(self), outs),
            outs.len() < 12,
        ensures
            tally_matches(*final(self), outs.push(Outcome::Failed(None))),
    {
        proof {
            lemma_counts_bounded(outs);
            assert(outs.push(Outcome::Failed(None)).drop_last() =~= outs);
            assert(reported(outs.push(Outcome::Failed(None))) =~= reported(outs));
        }
        self.failed = self.failed + 1;
    }

    /// Records a failing check that reports `v`.
    fn fail(&mut self, v: Violation, Ghost(outs): Ghost<Seq<Outcome>>, Ghost(e): Ghost<Expected>)
        requires
            tally_matches(*old(self), outs),
            outs.len() < 12,
            violation_matches(v, e),
        ensures
            tally_matches(*final(self), outs.push(Outcome::Failed(Some(e)))),
    {
        proof {
            lemma_counts_bounded(outs);
            let o = outs.push(Outcome::Failed(Some(e)));
            assert(o.drop_last() =~= outs);
            assert(reported(o) =~= reported(outs).push(e));
        }
        self.failed = self.failed + 1;
        self.violations.push(v);
    }

    /// The check on a collector status.
    fn check_status(
        &mut self,
        status: CollectorStatus,
        collector: &str,
        must_pass: bool,
        Ghost(outs): Ghost<Seq<Outcome>>,
    )
        requires
            tally_matches(*old(self), outs),
            outs.len() < 12,
        ensures
            tally_matches(*final(self), outs.push(status_outcome(status, collector@, must_pass))),
    {
        match status {
            CollectorStatus::Pass => self.pass(Ghost(outs)),
            CollectorStatus::Fail => {
                if must_pass {
                    let mut msg: Vec<char> = Vec::new();
                    push_str(&mut msg, collector);
                    push_str(&mut msg, " check failed");
                    let v = Violation {
                        collector: owned(collector),
                        metric: owned("status"),
                        baseline_value: Json::Bool(true),
                        current_value: Json::Str(owned("fail")),
                        message: string_from_chars(&msg),
                    };
                    let ghost e = Expected {
                        collector: collector@,
                        metric: "status"@,
                        baseline: Shape::Bool(true),
                        current: Shape::Text("fail"@),
                        message: collector@ + " check failed"@,
                    };
                    proof {
                        assert(msg@ =~= collector@ + " check failed"@);
                    }
                    self.fail(v, Ghost(outs), Ghost(e));
                } else {
                    self.fail_quietly(Ghost(outs));
                }
            },
            CollectorStatus::Skipped => self.skip(Ghost(outs)),
            CollectorStatus::Error => self.skip(Ghost(outs)),
        }
    }

    /// A check on a metric that passes when `pass` holds and otherwise
    /// reports the violation `make` builds.
    fn check_metric(&mut self, pass: bool, v: Violation, Ghost(outs): Ghost<Seq<Outcome>>, Ghost(e): Ghost<Expected>)
        requires
            tally_matches(*old(self), outs),
            outs.len() < 12,
            violation_matches(v, e),
        ensures
            tally_matches(*final(self), outs.push(metric_outcome(pass, e))),
    {
        if pass {
            self.pass(Ghost(outs));
        } else {
            self.fail(v, Ghost(outs), Ghost(e));
        }
    }
}

fn violation(collector: &str, metric: &str, baseline_value: Json, current_value: Json, message: String) -> (r: Violation)
    ensures
        r.collector@ == collector@,
        r.metric@ == metric@,
        r.baseline_value == baseline_value,
        r.current_value == current_value,
        r.message == message,
{
    Violation {
        collector: owned(collector),
        metric: owned(metric),
        baseline_value,
        current_value,
        message,
    }
}

fn or_u32(a: Option<u32>, b: Option<u32>) -> (r: Option<u32>)
    ensures
        r == match a { Some(x) => Some(x), None => b },
{
    match a {
        Some(x) => Some(x),
        None => b,
    }
}

impl Gate {
    /// Compare a metrics summary against a baseline and produce a quality
    /// report, stamped with the current time; `None` when the system clock
    /// reads before 1970.
    pub fn run(summary: &MetricsSummary, baseline: &Baseline) -> (r: Option<QualityReport>)
        ensures
            r matches Some(rep) ==> exists|secs: nat, dt| is_datetime_of(secs, dt) && is_report_of(
                rep,
                gate_outcomes(*summary, *baseline, empty_gate_config()),
                iso8601(dt),
            ),
    {
        Self::run_with_config(summary, baseline, None)
    }

    /// Compare metrics against baseline with optional absolute thresholds.
    /// When `config` is provided, absolute values override baseline ratchet values.
    /// `None` when the system clock reads before 1970.
    pub fn run_with_config(summary: &MetricsSummary, baseline: &Baseline, config: Option<&GateConfig>) -> (r: Option<QualityReport>)
        ensures
            r matches Some(rep) ==> exists|secs: nat, dt| is_datetime_of(secs, dt) && is_report_of(
                rep,
                gate_outcomes(*summary, *baseline, config_or_empty(config)),
                iso8601(dt),
            ),
    {
        match chrono_now() {
            Some(now) => Some(Self::run_with_config_at(summary, baseline, config, now)),
            None => None,
        }
    }

    /// The quality report of `summary` against `baseline` and `config`,
    /// stamped `generated_at`.
    #[verifier::rlimit(60)]
    pub fn run_with_config_at(
        summary: &MetricsSummary,
        baseline: &Baseline,
        config: Option<&GateConfig>,
        generated_at: String,
    ) -> (r: QualityReport)
        ensures
            is_report_of(
                r,
                gate_outcomes(*summary, *baseline, config_or_empty(config)),
                generated_at@,
            ),
    {
        let default_cfg = GateConfig::default();
        let cfg: &GateConfig = match config {
            Some(c) => c,
            None => &default_cfg,
        };
        let ghost s = *summary;
        let ghost b = *baseline;
        let ghost c = *cfg;
        let mut t = Tally::new();
        let ghost mut outs: Seq<Outcome> = Seq::empty();

        t.check_status(summary.collectors.fmt.status, "fmt", baseline.thresholds.fmt.must_pass, Ghost(outs));
        proof { outs = outs.push(fmt_outcome(s, b)); }
        t.check_clippy(summary, baseline, cfg, Ghost(outs));
        proof { outs = outs.push(clippy_outcome(s, b, c)); }
        t.check_tests(summary, baseline, Ghost(outs));
        proof { outs = outs.push(tests_outcome(s, b)); }
        t.check_coverage(summary, baseline, cfg, Ghost(outs));
        proof { outs = outs.push(coverage_outcome(s, b, c)); }
        t.check_deny(summary, baseline, Ghost(outs));
        proof { outs = outs.push(deny_outcome(s, b)); }
        t.check_audit(summary, baseline, Ghost(outs));
        proof { outs = outs.push(audit_outcome(s, b)); }
        t.check_status(summary.collectors.hack.status, "hack", baseline.thresholds.hack.must_pass, Ghost(outs));
        proof { outs = outs.push(hack_outcome(s, b)); }
        t.check_mutants(summary, baseline, Ghost(outs));
        proof { outs = outs.push(mutants_outcome(s, b)); }
        t.check_duplicates(summary, baseline, cfg, Ghost(outs));
        proof { outs = outs.push(duplicates_outcome(s, b, c)); }
        t.check_loc(summary, baseline, cfg, Ghost(outs));
        proof { outs = outs.push(loc_outcome(s, b, c)); }
        t.check_size(summary, baseline, cfg, Ghost(outs));
        proof { outs = outs.push(size_outcome(s, b, c)); }
        t.check_complexity(summary, baseline, cfg, Ghost(outs));
        proof {
            outs = outs.push(complexity_outcome(s, b, c));
            assert(outs =~= gate_outcomes(s, b, c));
            assert(c == config_or_empty(config));
            lemma_counts_bounded(outs);
        }

        let gate_result = if t.violations.len() == 0 { GateResult::Pass } else { GateResult::Fail };
        let summary_counts = ReportSummary {
            collectors_run: t.passed + t.failed,
            collectors_passed: t.passed,
            collectors_failed: t.failed,
            collectors_skipped: t.skipped,
        };
        QualityReport {
            schema_version: owned("1"),
            generated_at,
            gate_result,
            violations: t.violations,
            summary: summary_counts,
        }
    }
}

impl Tally {
    fn check_clippy(&mut self, summary: &MetricsSummary, baseline: &Baseline, cfg: &GateConfig, Ghost(outs): Ghost<Seq<Outcome>>)
        requires
            tally_matches(*old(self), outs),
            outs.len() < 12,
        ensures
            tally_matches(*final(self), outs.push(clippy_outcome(*summary, *baseline, *cfg))),
    {
        let clippy_max = match cfg.max_clippy_warnings {
            Some(x) => x,
            None => baseline.thresholds.clippy.max_warnings,
        };
        let wc = summary.collectors.clippy.warning_count;
        let v = violation(
            "clippy",
            "warning_count",
            Json::UInt(clippy_max as u64),
            Json::UInt(wc as u64),
            two_numbers_text("clippy warnings (", wc as u64, ") exceed max allowed (", clippy_max as u64, ")"),
        );
        self.check_metric(wc <= clippy_max, v, Ghost(outs), Ghost(clippy_expected(*summary, *baseline, *cfg)));
    }

    fn check_tests(&mut self, summary: &MetricsSummary, baseline: &Baseline, Ghost(outs): Ghost<Seq<Outcome>>)
        requires
            tally_matches(*old(self), outs),
            outs.len() < 12,
        ensures
            tally_matches(*final(self), outs.push(tests_outcome(*summary, *baseline))),
    {
        let failed = summary.collectors.tests.failed;
        let max_failures = baseline.thresholds.tests.max_failures;
        let v = violation(
            "tests",
            "failed",
            Json::UInt(max_failures as u64),
            Json::UInt(failed as u64),
            two_numbers_text("test failures (", failed as u64, ") exceed max allowed (", max_failures as u64, ")"),
        );
        self.check_metric(failed <= max_failures, v, Ghost(outs), Ghost(tests_expected(*summary, *baseline)));
    }

    fn check_coverage(&mut self, summary: &MetricsSummary, baseline: &Baseline, cfg: &GateConfig, Ghost(outs): Ghost<Seq<Outcome>>)
        requires
            tally_matches(*old(self), outs),
            outs.len() < 12,
        ensures
            tally_matches(*final(self), outs.push(coverage_outcome(*summary, *baseline, *cfg))),
    {
        let coverage_min = match cfg.min_coverage_percent {
            Some(x) => x,
            None => baseline.thresholds.coverage.min_line_percent,
        };
        let lp = summary.collectors.coverage.line_percent;
        let v = violation(
            "coverage",
            "line_percent",
            Json::Float(coverage_min),
            Json::Float(lp),
            two_fixed_text("coverage (", lp.micros, "%) below minimum (", coverage_min.micros, "%)", 1),
        );
        self.check_metric(lp.ge(&coverage_min), v, Ghost(outs), Ghost(coverage_expected(*summary, *baseline, *cfg)));
    }

    fn check_deny(&mut self, summary: &MetricsSummary, baseline: &Baseline, Ghost(outs): Ghost<Seq<Outcome>>)
        requires
            tally_matches(*old(self), outs),
            outs.len() < 12,
        ensures
            tally_matches(*final(self), outs.push(deny_outcome(*summary, *baseline))),
    {
        let d = &summary.collectors.deny;
        let td = &baseline.thresholds.deny;
        let v = violation(
            "deny",
            "banned_count + license_violations",
            pair_object("max_banned", td.max_banned as u64, "max_license_violations", td.max_license_violations as u64),
            pair_object("banned_count", d.banned_count as u64, "license_violations", d.license_violations as u64),
            two_numbers_text("deny check failed: ", d.banned_count as u64, " banned, ", d.license_violations as u64, " license violations"),
        );
        self.check_metric(
            d.banned_count <= td.max_banned && d.license_violations <= td.max_license_violations,
            v,
            Ghost(outs),
            Ghost(deny_expected(*summary, *baseline)),
        );
    }

    fn check_audit(&mut self, summary: &MetricsSummary, baseline: &Baseline, Ghost(outs): Ghost<Seq<Outcome>>)
        requires
            tally_matches(*old(self), outs),
            outs.len() < 12,
        ensures
            tally_matches(*final(self), outs.push(audit_outcome(*summary, *baseline))),
    {
        let a = &summary.collectors.audit;
        let ta = &baseline.thresholds.audit;
        let v = violation(
            "audit",
            "vulnerability_count + critical_count",
            pair_object("max_critical", ta.max_critical as u64, "max_vulnerabilities", ta.max_vulnerabilities as u64),
            pair_object("critical_count", a.critical_count as u64, "vulnerability_count", a.vulnerability_count as u64),
            two_numbers_text("audit found ", a.vulnerability_count as u64, " vulnerabilities (", a.critical_count as u64, " critical), exceeds baseline"),
        );
        self.check_metric(
            a.vulnerability_count <= ta.max_vulnerabilities && a.critical_count <= ta.max_critical,
            v,
            Ghost(outs),
            Ghost(audit_expected(*summary, *baseline)),
        );
    }

    fn check_mutants(&mut self, summary: &MetricsSummary, baseline: &Baseline, Ghost(outs): Ghost<Seq<Outcome>>)
        requires
            tally_matches(*old(self), outs),
            outs.len() < 12,
        ensures
            tally_matches(*final(self), outs.push(mutants_outcome(*summary, *baseline))),
    {
        let score = summary.collectors.mutants.mutation_score;
        let min_score = baseline.thresholds.mutants.min_score;
        let v = violation(
            "mutants",
            "mutation_score",
            Json::Float(min_score),
            Json::Float(score),
            two_fixed_text("mutation score (", score.micros, ") below minimum (", min_score.micros, ")", 2),
        );
        self.check_metric(score.ge(&min_score), v, Ghost(outs), Ghost(mutants_expected(*summary, *baseline)));
    }

    fn check_duplicates(&mut self, summary: &MetricsSummary, baseline: &Baseline, cfg: &GateConfig, Ghost(outs): Ghost<Seq<Outcome>>)
        requires
            tally_matches(*old(self), outs),
            outs.len() < 12,
        ensures
            tally_matches(*final(self), outs.push(duplicates_outcome(*summary, *baseline, *cfg))),
    {
        let dup_max = match cfg.max_duplicate_lines {
            Some(x) => x,
            None => baseline.thresholds.duplicates.max_duplicate_lines,
        };
        let dl = summary.collectors.duplicates.duplicate_lines;
        let v = violation(
            "duplicates",
            "duplicate_lines",
            Json::UInt(dup_max as u64),
            Json::UInt(dl as u64),
            two_numbers_text("duplicate lines (", dl as u64, ") exceed maximum (", dup_max as u64, ")"),
        );
        self.check_metric(dl <= dup_max, v, Ghost(outs), Ghost(duplicates_expected(*summary, *baseline, *cfg)));
    }

    fn check_loc(&mut self, summary: &MetricsSummary, baseline: &Baseline, cfg: &GateConfig, Ghost(outs): Ghost<Seq<Outcome>>)
        requires
            tally_matches(*old(self), outs),
            outs.len() < 12,
        ensures
            tally_matches(*final(self), outs.push(loc_outcome(*summary, *baseline, *cfg))),
    {
        let loc = &summary.collectors.loc;
        let line_len_max: usize = if loc.max_line_length_allowed > 0 {
            loc.max_line_length_allowed
        } else {
            let l = match cfg.max_line_length {
                Some(x) => x,
                None => baseline.thresholds.loc.max_line_length,
            };
            if l >= 120 { l } else { 120 }
        };
        let ll = loc.long_lines;
        let v = violation(
            "loc",
            "long_lines",
            Json::UInt(0),
            Json::UInt(ll as u64),
            two_numbers_text("", ll as u64, " lines exceed max length (", line_len_max as u64, ")"),
        );
        proof {
            reveal_strlit("");
            assert(""@ =~= Seq::<char>::empty());
        }
        self.check_metric(ll == 0, v, Ghost(outs), Ghost(loc_expected(*summary, *baseline, *cfg)));
    }

    fn check_size(&mut self, summary: &MetricsSummary, baseline: &Baseline, cfg: &GateConfig, Ghost(outs): Ghost<Seq<Outcome>>)
        requires
            tally_matches(*old(self), outs),
            outs.len() < 12,
        ensures
            tally_matches(*final(self), outs.push(size_outcome(*summary, *baseline, *cfg))),
    {
        let size = &baseline.thresholds.size;
        let has_thresholds = or_u32(cfg.max_lines_per_file, size.max_lines_per_file).is_some()
            || or_u32(cfg.max_code_lines_per_file, size.max_code_lines_per_file).is_some()
            || or_u32(cfg.max_lines_per_function, size.max_lines_per_function).is_some()
            || or_u32(cfg.max_parameters_per_function, size.max_parameters_per_function).is_some();
        let n = summary.collectors.size.violations.len();
        let v = violation(
            "size",
            "violations",
            Json::UInt(0),
            Json::UInt(n as u64),
            count_text(n as u64, " size violation(s) detected"),
        );
        self.check_metric(!has_thresholds || n == 0, v, Ghost(outs), Ghost(size_expected(*summary, *baseline, *cfg)));
    }

    fn check_complexity(&mut self, summary: &MetricsSummary, baseline: &Baseline, cfg: &GateConfig, Ghost(outs): Ghost<Seq<Outcome>>)
        requires
            tally_matches(*old(self), outs),
            outs.len() < 12,
        ensures
            tally_matches(*final(self), outs.push(complexity_outcome(*summary, *baseline, *cfg))),
    {
        let cx = &baseline.thresholds.complexity;
        let has_thresholds = or_u32(cfg.max_cyclomatic_per_function, cx.max_cyclomatic_per_function).is_some()
            || or_u32(cfg.max_nesting_depth, cx.max_nesting_depth).is_some();
        let n = summary.collectors.complexity.violations.len();
        let v = violation(
            "complexity",
            "violations",
            Json::UInt(0),
            Json::UInt(n as u64),
            count_text(n as u64, " complexity violation(s) detected"),
        );
        self.check_metric(
            !has_thresholds || n == 0,
            v,
            Ghost(outs),
            Ghost(complexity_expected(*summary, *baseline, *cfg)),
        );
    }
}

} // verus!
