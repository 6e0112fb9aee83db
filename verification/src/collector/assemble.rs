//! Assembling the collectors' reports into a metrics summary.

use vstd::prelude::*;
use crate::collector::audit::audit_details_json;
use crate::collector::clippy::{clippy_details_json, lint_json};
use crate::collector::coverage::coverage_details_json;
use crate::collector::deny::deny_details_json;
use crate::collector::hack::spec_hack_details;
use crate::collector::tests::{test_details_json, TestCounts};
use crate::collector::complexity::{
    complex_count, complexity_details_json, complexity_violations, functions_fit, lemma_complexity_counts_fit,
    max_cyclomatic, max_nesting, ComplexityCollectorConfig, FunctionTree,
};
use crate::collector::duplicates::{block_json, duplicates_details_json, occurrence_json, BlockSpec, DuplicatesReport};
use crate::collector::loc::{loc_details_json, loc_model_fits, long_line_json, model_wf, LocModel};
use crate::collector::size::{size_details_json, size_model_fits, SizeModel};
use crate::collector::{violation_json, ViolationSpec};
use crate::collector::CollectorOutput;
use crate::json::{
    entries_get, json_value, parse_json, str_is, spec_as_array, spec_as_decimal, spec_as_str, spec_as_u64, spec_member, spec_str_or_empty,
    spec_u32_or_zero, spec_usize_or_zero, Decimal, Json,
};
use crate::schema::{
    AuditResult, ClippyLint, ClippyResult, CollectorStatus, CollectorsSummary, ComplexityResult,
    ComplexityViolation, CoverageResult, DenyResult, DuplicateBlock, DuplicateOccurrence,
    DuplicatesResult, FmtResult, HackResult, LocResult, LongLineDetail, MetricsSummary,
    MutantsResult, ProjectInfo, SizeResult, SizeViolation, TestResult,
};
use crate::text::str_eq;
use crate::util::{chrono_now, is_datetime_of, iso8601};

verus! {

/// What one collector reported: its name, its status and the details read
/// from its stdout (`None` when that is not JSON).
#[derive(Debug)]
pub struct CollectorReport {
    pub name: String,
    pub status: CollectorStatus,
    pub details: Option<Json>,
}

/// The summary section a collector name fills (`FMT` .. `COMPLEXITY`), or
/// `OTHER` for a name the summary has no section for.
pub open spec fn report_kind(name: Seq<char>) -> u8 {
    if name == "fmt"@ { FMT }
    else if name == "clippy"@ { CLIPPY }
    else if name == "tests"@ { TESTS }
    else if name == "coverage"@ { COVERAGE }
    else if name == "deny"@ { DENY }
    else if name == "audit"@ { AUDIT }
    else if name == "hack"@ { HACK }
    else if name == "mutants"@ { MUTANTS }
    else if name == "duplicates"@ { DUPLICATES }
    else if name == "loc"@ { LOC }
    else if name == "size"@ { SIZE }
    else if name == "complexity"@ { COMPLEXITY }
    else { OTHER }
}

pub const FMT: u8 = 0;
pub const CLIPPY: u8 = 1;
pub const TESTS: u8 = 2;
pub const COVERAGE: u8 = 3;
pub const DENY: u8 = 4;
pub const AUDIT: u8 = 5;
pub const HACK: u8 = 6;
pub const MUTANTS: u8 = 7;
pub const DUPLICATES: u8 = 8;
pub const LOC: u8 = 9;
pub const SIZE: u8 = 10;
pub const COMPLEXITY: u8 = 11;
pub const OTHER: u8 = 12;

fn kind_of(name: &str) -> (r: u8)
    ensures
        r == report_kind(name@),
{
    if str_eq(name, "fmt") { FMT }
    else if str_eq(name, "clippy") { CLIPPY }
    else if str_eq(name, "tests") { TESTS }
    else if str_eq(name, "coverage") { COVERAGE }
    else if str_eq(name, "deny") { DENY }
    else if str_eq(name, "audit") { AUDIT }
    else if str_eq(name, "hack") { HACK }
    else if str_eq(name, "mutants") { MUTANTS }
    else if str_eq(name, "duplicates") { DUPLICATES }
    else if str_eq(name, "loc") { LOC }
    else if str_eq(name, "size") { SIZE }
    else if str_eq(name, "complexity") { COMPLEXITY }
    else { OTHER }
}

/// The status of the last report of `kind`.
pub open spec fn last_status(rs: Seq<CollectorReport>, kind: u8) -> CollectorStatus
    decreases rs.len(),
{
    if rs.len() == 0 {
        CollectorStatus::Skipped
    } else if report_kind(rs.last().name@) == kind {
        rs.last().status
    } else {
        last_status(rs.drop_last(), kind)
    }
}

/// The details of the last report of `kind` whose stdout was JSON.
pub open spec fn last_details(rs: Seq<CollectorReport>, kind: u8) -> Option<Json>
    decreases rs.len(),
{
    if rs.len() == 0 {
        None
    } else if report_kind(rs.last().name@) == kind && rs.last().details is Some {
        rs.last().details
    } else {
        last_details(rs.drop_last(), kind)
    }
}

/// The array under `key` in the details of the last report of `kind` that
/// holds one there.
pub open spec fn last_array(rs: Seq<CollectorReport>, kind: u8, key: Seq<char>) -> Option<Seq<Json>>
    decreases rs.len(),
{
    if rs.len() == 0 {
        None
    } else if report_kind(rs.last().name@) == kind && (rs.last().details matches Some(d)
        && spec_as_array(spec_member(d, key)) is Some) {
        spec_as_array(spec_member(rs.last().details->Some_0, key))
    } else {
        last_array(rs.drop_last(), kind, key)
    }
}

/// `d[key].as_u64().unwrap_or(0) as u32` of the last details of `kind`, 0 without details.
pub open spec fn last_u32(rs: Seq<CollectorReport>, kind: u8, key: Seq<char>) -> u32 {
    match last_details(rs, kind) {
        Some(d) => spec_u32_or_zero(spec_member(d, key)),
        None => 0,
    }
}

/// `d[key].as_u64().unwrap_or(0) as usize` of the last details of `kind`.
pub open spec fn last_usize(rs: Seq<CollectorReport>, kind: u8, key: Seq<char>) -> usize {
    match last_details(rs, kind) {
        Some(d) => spec_usize_or_zero(spec_member(d, key)),
        None => 0,
    }
}

/// `j.as_u64().map(|v| v as u32)`.
pub open spec fn opt_u32(j: Json) -> Option<u32> {
    match spec_as_u64(j) {
        Some(n) => Some(n as u32),
        None => None,
    }
}

/// `o` holds the text `s`, or nothing when there is none.
pub open spec fn opt_text_is(o: Option<String>, s: Option<Seq<char>>) -> bool {
    match s {
        Some(t) => o matches Some(x) && x@ == t,
        None => o is None,
    }
}

/// The texts among `items`, in order (`filter_map(as_str)`).
pub open spec fn texts_of(items: Seq<Json>) -> Seq<Seq<char>>
    decreases items.len(),
{
    if items.len() == 0 {
        Seq::empty()
    } else {
        texts_of(items.drop_last()) + match spec_as_str(items.last()) {
            Some(s) => seq![s],
            None => Seq::empty(),
        }
    }
}

/// `v` holds exactly the texts `t`.
pub open spec fn strings_are(v: Seq<String>, t: Seq<Seq<char>>) -> bool {
    v.len() == t.len() && forall|i: int| 0 <= i < v.len() ==> #[trigger] v[i]@ == t[i]
}


pub open spec fn lint_from_json(l: ClippyLint, v: Json) -> bool {
    &&& l.code@ == spec_str_or_empty(spec_member(v, "code"@))
    &&& l.message@ == spec_str_or_empty(spec_member(v, "message"@))
    &&& opt_text_is(l.file, spec_as_str(spec_member(v, "file"@)))
    &&& l.line == opt_u32(spec_member(v, "line"@))
}

pub open spec fn occurrence_from_json(o: DuplicateOccurrence, v: Json) -> bool {
    &&& o.file@ == spec_str_or_empty(spec_member(v, "file"@))
    &&& o.start_line == spec_u32_or_zero(spec_member(v, "startLine"@))
    &&& o.end_line == spec_u32_or_zero(spec_member(v, "endLine"@))
}

pub open spec fn occurrences_from(v: Seq<DuplicateOccurrence>, arr: Option<Seq<Json>>) -> bool {
    match arr {
        Some(a) => v.len() == a.len() && forall|i: int| 0 <= i < v.len() ==> occurrence_from_json(#[trigger] v[i], a[i]),
        None => v.len() == 0,
    }
}

pub open spec fn block_from_json(b: DuplicateBlock, v: Json) -> bool {
    &&& b.lines == spec_u32_or_zero(spec_member(v, "lines"@))
    &&& b.tokens == spec_u32_or_zero(spec_member(v, "tokens"@))
    &&& occurrences_from(b.occurrences@, spec_as_array(spec_member(v, "occurrences"@)))
}

pub open spec fn lints_from(v: Seq<ClippyLint>, arr: Option<Seq<Json>>) -> bool {
    match arr {
        Some(a) => v.len() == a.len() && forall|i: int| 0 <= i < v.len() ==> lint_from_json(#[trigger] v[i], a[i]),
        None => v.len() == 0,
    }
}

pub open spec fn blocks_from(v: Seq<DuplicateBlock>, arr: Option<Seq<Json>>) -> bool {
    match arr {
        Some(a) => v.len() == a.len() && forall|i: int| 0 <= i < v.len() ==> block_from_json(#[trigger] v[i], a[i]),
        None => v.len() == 0,
    }
}

pub open spec fn long_lines_from(v: Seq<LongLineDetail>, arr: Option<Seq<Json>>) -> bool {
    match arr {
        Some(a) => v.len() == a.len() && forall|i: int| 0 <= i < v.len() ==> long_line_from_json(#[trigger] v[i], a[i]),
        None => v.len() == 0,
    }
}

pub open spec fn size_violations_from(v: Seq<SizeViolation>, arr: Option<Seq<Json>>) -> bool {
    match arr {
        Some(a) => v.len() == a.len() && forall|i: int| 0 <= i < v.len() ==> size_violation_from_json(#[trigger] v[i], a[i]),
        None => v.len() == 0,
    }
}

pub open spec fn complexity_violations_from(v: Seq<ComplexityViolation>, arr: Option<Seq<Json>>) -> bool {
    match arr {
        Some(a) => v.len() == a.len() && forall|i: int| 0 <= i < v.len() ==> complexity_violation_from_json(#[trigger] v[i], a[i]),
        None => v.len() == 0,
    }
}

pub open spec fn long_line_from_json(d: LongLineDetail, v: Json) -> bool {
    &&& d.file@ == spec_str_or_empty(spec_member(v, "file"@))
    &&& d.line == spec_u32_or_zero(spec_member(v, "line"@))
    &&& d.length == spec_usize_or_zero(spec_member(v, "length"@))
    &&& d.threshold == spec_usize_or_zero(spec_member(v, "threshold"@))
}

pub open spec fn size_violation_from_json(x: SizeViolation, v: Json) -> bool {
    &&& x.rule_id@ == spec_str_or_empty(spec_member(v, "ruleId"@))
    &&& x.file@ == spec_str_or_empty(spec_member(v, "file"@))
    &&& x.line == spec_u32_or_zero(spec_member(v, "line"@))
    &&& opt_text_is(x.function, spec_as_str(spec_member(v, "function"@)))
    &&& x.message@ == spec_str_or_empty(spec_member(v, "message"@))
    &&& x.actual == spec_u32_or_zero(spec_member(v, "actual"@))
    &&& x.threshold == spec_u32_or_zero(spec_member(v, "threshold"@))
    &&& x.severity@ == spec_str_or_empty(spec_member(v, "severity"@))
}

pub open spec fn complexity_violation_from_json(x: ComplexityViolation, v: Json) -> bool {
    &&& x.rule_id@ == spec_str_or_empty(spec_member(v, "ruleId"@))
    &&& x.file@ == spec_str_or_empty(spec_member(v, "file"@))
    &&& x.line == spec_u32_or_zero(spec_member(v, "line"@))
    &&& opt_text_is(x.function, spec_as_str(spec_member(v, "function"@)))
    &&& x.message@ == spec_str_or_empty(spec_member(v, "message"@))
    &&& x.actual == spec_u32_or_zero(spec_member(v, "actual"@))
    &&& x.threshold == spec_u32_or_zero(spec_member(v, "threshold"@))
    &&& x.severity@ == spec_str_or_empty(spec_member(v, "severity"@))
}

/// The texts of the last array under `key` of `kind`, or none.
pub open spec fn last_texts(rs: Seq<CollectorReport>, kind: u8, key: Seq<char>) -> Seq<Seq<char>> {
    match last_array(rs, kind, key) {
        Some(a) => texts_of(a),
        None => Seq::empty(),
    }
}

pub open spec fn fmt_matches(r: FmtResult, rs: Seq<CollectorReport>) -> bool {
    &&& r.status == last_status(rs, FMT)
    &&& r.details@.len() == 0
}

pub open spec fn clippy_matches(r: ClippyResult, rs: Seq<CollectorReport>) -> bool {
    &&& r.status == last_status(rs, CLIPPY)
    &&& r.warning_count == last_u32(rs, CLIPPY, "warningCount"@)
    &&& lints_from(r.details@, last_array(rs, CLIPPY, "details"@))
}

pub open spec fn tests_matches(r: TestResult, rs: Seq<CollectorReport>) -> bool {
    &&& r.status == last_status(rs, TESTS)
    &&& r.passed == last_u32(rs, TESTS, "passed"@)
    &&& r.failed == last_u32(rs, TESTS, "failed"@)
    &&& r.ignored == last_u32(rs, TESTS, "ignored"@)
    &&& opt_text_is(r.runner, match last_details(rs, TESTS) {
        Some(d) => spec_as_str(spec_member(d, "runner"@)),
        None => None,
    })
}

pub open spec fn coverage_matches(r: CoverageResult, rs: Seq<CollectorReport>) -> bool {
    &&& r.status == last_status(rs, COVERAGE)
    &&& r.line_percent == match last_details(rs, COVERAGE) {
        Some(d) => match spec_as_decimal(spec_member(d, "linePercent"@)) {
            Some(x) => x,
            None => Decimal { micros: 0 },
        },
        None => Decimal { micros: 0 },
    }
}

pub open spec fn deny_matches(r: DenyResult, rs: Seq<CollectorReport>) -> bool {
    &&& r.status == last_status(rs, DENY)
    &&& r.banned_count == last_u32(rs, DENY, "bannedCount"@)
    &&& r.license_violations == last_u32(rs, DENY, "licenseViolations"@)
}

pub open spec fn audit_matches(r: AuditResult, rs: Seq<CollectorReport>) -> bool {
    &&& r.status == last_status(rs, AUDIT)
    &&& r.vulnerability_count == last_u32(rs, AUDIT, "vulnerabilityCount"@)
    &&& r.critical_count == last_u32(rs, AUDIT, "criticalCount"@)
}

pub open spec fn hack_matches(r: HackResult, rs: Seq<CollectorReport>) -> bool {
    &&& r.status == last_status(rs, HACK)
    &&& r.feature_combinations_tested == last_u32(rs, HACK, "featureCombinationsTested"@)
}

/// The mutants section takes only the status: its score stays 0.
pub open spec fn mutants_matches(r: MutantsResult, rs: Seq<CollectorReport>) -> bool {
    &&& r.status == last_status(rs, MUTANTS)
    &&& r.mutation_score == Decimal { micros: 0 }
    &&& r.caught == 0
    &&& r.missed == 0
}

pub open spec fn duplicates_matches(r: DuplicatesResult, rs: Seq<CollectorReport>) -> bool {
    &&& r.status == last_status(rs, DUPLICATES)
    &&& r.total_lines == last_u32(rs, DUPLICATES, "totalLines"@)
    &&& r.duplicate_lines == last_u32(rs, DUPLICATES, "duplicateLines"@)
    &&& r.files_with_duplicates == last_u32(rs, DUPLICATES, "filesWithDuplicates"@)
    &&& strings_are(r.duplicate_files@, last_texts(rs, DUPLICATES, "duplicateFiles"@))
    &&& blocks_from(r.duplicate_blocks@, last_array(rs, DUPLICATES, "duplicateBlocks"@))
    &&& r.duplicate_blocks_omitted == last_u32(rs, DUPLICATES, "duplicateBlocksOmitted"@)
}

pub open spec fn loc_matches(r: LocResult, rs: Seq<CollectorReport>) -> bool {
    &&& r.status == last_status(rs, LOC)
    &&& r.total_lines == last_u32(rs, LOC, "totalLines"@)
    &&& r.code_lines == last_u32(rs, LOC, "codeLines"@)
    &&& r.comment_lines == last_u32(rs, LOC, "commentLines"@)
    &&& r.blank_lines == last_u32(rs, LOC, "blankLines"@)
    &&& r.long_lines == last_u32(rs, LOC, "longLines"@)
    &&& r.max_line_length_found == last_usize(rs, LOC, "maxLineLengthFound"@)
    &&& r.max_line_length_allowed == last_usize(rs, LOC, "maxLineLengthAllowed"@)
    &&& r.files == last_u32(rs, LOC, "files"@)
    &&& r.files_with_long_lines == last_u32(rs, LOC, "filesWithLongLines"@)
    &&& strings_are(r.long_line_files@, last_texts(rs, LOC, "longLineFiles"@))
    &&& long_lines_from(r.long_line_details@, last_array(rs, LOC, "longLineDetails"@))
    &&& r.long_line_details_omitted == last_u32(rs, LOC, "longLineDetailsOmitted"@)
}

pub open spec fn size_matches(r: SizeResult, rs: Seq<CollectorReport>) -> bool {
    &&& r.status == last_status(rs, SIZE)
    &&& r.files == last_u32(rs, SIZE, "files"@)
    &&& r.max_lines_per_file == last_u32(rs, SIZE, "maxLinesPerFile"@)
    &&& r.max_code_lines_per_file == last_u32(rs, SIZE, "maxCodeLinesPerFile"@)
    &&& r.max_lines_per_function == last_u32(rs, SIZE, "maxLinesPerFunction"@)
    &&& r.max_parameters_per_function == last_u32(rs, SIZE, "maxParametersPerFunction"@)
    &&& size_violations_from(r.violations@, last_array(rs, SIZE, "violations"@))
}

pub open spec fn complexity_matches(r: ComplexityResult, rs: Seq<CollectorReport>) -> bool {
    &&& r.status == last_status(rs, COMPLEXITY)
    &&& r.functions == last_u32(rs, COMPLEXITY, "functions"@)
    &&& r.max_cyclomatic_complexity == last_u32(rs, COMPLEXITY, "maxCyclomaticComplexity"@)
    &&& r.max_nesting_depth == last_u32(rs, COMPLEXITY, "maxNestingDepth"@)
    &&& r.complex_functions == last_u32(rs, COMPLEXITY, "complexFunctions"@)
    &&& complexity_violations_from(r.violations@, last_array(rs, COMPLEXITY, "violations"@))
}

/// Every section of `c` holds what the reports `rs` say of it.
pub open spec fn sections_match(c: CollectorsSummary, rs: Seq<CollectorReport>) -> bool {
    &&& fmt_matches(c.fmt, rs)
    &&& clippy_matches(c.clippy, rs)
    &&& tests_matches(c.tests, rs)
    &&& coverage_matches(c.coverage, rs)
    &&& deny_matches(c.deny, rs)
    &&& audit_matches(c.audit, rs)
    &&& hack_matches(c.hack, rs)
    &&& mutants_matches(c.mutants, rs)
    &&& duplicates_matches(c.duplicates, rs)
    &&& loc_matches(c.loc, rs)
    &&& size_matches(c.size, rs)
    &&& complexity_matches(c.complexity, rs)
}

/// `s` is the summary of the reports `rs` for the given project, generated
/// at `generated_at` by version `version`.
pub open spec fn is_summary_of(
    s: MetricsSummary,
    rs: Seq<CollectorReport>,
    project_name: Seq<char>,
    rust_edition: Seq<char>,
    workspace_root: Seq<char>,
    generated_at: Seq<char>,
    version: Seq<char>,
) -> bool {
    &&& s.schema_version@ == "1"@
    &&& s.generated_at@ == generated_at
    &&& s.rustquty_version@ == version
    &&& s.project.name@ == project_name
    &&& s.project.rust_edition@ == rust_edition
    &&& s.project.workspace_root@ == workspace_root
    &&& sections_match(s.collectors, rs)
}

/// The version of this library, written into every summary it assembles.
pub const VERSION: &'static str = "0.4.3";

fn lint_of(v: &Json) -> (l: ClippyLint)
    ensures
        lint_from_json(l, *v),
{
    let line = match v.member("line").as_u64() {
        Some(n) => Some(n as u32),
        None => None,
    };
    ClippyLint {
        code: v.member("code").string_or_empty(),
        message: v.member("message").string_or_empty(),
        file: v.member("file").opt_string(),
        line,
    }
}

fn lints_of(arr: &Vec<Json>) -> (r: Vec<ClippyLint>)
    ensures
        lints_from(r@, Some(arr@)),
{
    let mut r: Vec<ClippyLint> = Vec::new();
    let mut i: usize = 0;
    while i < arr.len()
        invariant
            i <= arr.len(),
            r.len() == i,
            forall|j: int| 0 <= j < i ==> lint_from_json(#[trigger] r@[j], arr@[j]),
        decreases arr.len() - i,
    {
        r.push(lint_of(&arr[i]));
        i += 1;
    }
    r
}

fn occurrence_of(v: &Json) -> (o: DuplicateOccurrence)
    ensures
        occurrence_from_json(o, *v),
{
    DuplicateOccurrence {
        file: v.member("file").string_or_empty(),
        start_line: v.member("startLine").u32_or_zero(),
        end_line: v.member("endLine").u32_or_zero(),
    }
}

fn occurrences_of(arr: Option<&Vec<Json>>) -> (r: Vec<DuplicateOccurrence>)
    ensures
        occurrences_from(r@, match arr { Some(a) => Some(a@), None => None }),
{
    let mut r: Vec<DuplicateOccurrence> = Vec::new();
    if let Some(a) = arr {
        let mut i: usize = 0;
        while i < a.len()
            invariant
                i <= a.len(),
                r.len() == i,
                forall|j: int| 0 <= j < i ==> occurrence_from_json(#[trigger] r@[j], a@[j]),
            decreases a.len() - i,
        {
            r.push(occurrence_of(&a[i]));
            i += 1;
        }
    }
    r
}

fn block_of(v: &Json) -> (b: DuplicateBlock)
    ensures
        block_from_json(b, *v),
{
    DuplicateBlock {
        lines: v.member("lines").u32_or_zero(),
        tokens: v.member("tokens").u32_or_zero(),
        occurrences: occurrences_of(v.member("occurrences").as_array()),
    }
}

fn blocks_of(arr: &Vec<Json>) -> (r: Vec<DuplicateBlock>)
    ensures
        blocks_from(r@, Some(arr@)),
{
    let mut r: Vec<DuplicateBlock> = Vec::new();
    let mut i: usize = 0;
    while i < arr.len()
        invariant
            i <= arr.len(),
            r.len() == i,
            forall|j: int| 0 <= j < i ==> block_from_json(#[trigger] r@[j], arr@[j]),
        decreases arr.len() - i,
    {
        r.push(block_of(&arr[i]));
        i += 1;
    }
    r
}

fn long_line_of(v: &Json) -> (d: LongLineDetail)
    ensures
        long_line_from_json(d, *v),
{
    LongLineDetail {
        file: v.member("file").string_or_empty(),
        line: v.member("line").u32_or_zero(),
        length: v.member("length").usize_or_zero(),
        threshold: v.member("threshold").usize_or_zero(),
    }
}

fn long_lines_of(arr: &Vec<Json>) -> (r: Vec<LongLineDetail>)
    ensures
        long_lines_from(r@, Some(arr@)),
{
    let mut r: Vec<LongLineDetail> = Vec::new();
    let mut i: usize = 0;
    while i < arr.len()
        invariant
            i <= arr.len(),
            r.len() == i,
            forall|j: int| 0 <= j < i ==> long_line_from_json(#[trigger] r@[j], arr@[j]),
        decreases arr.len() - i,
    {
        r.push(long_line_of(&arr[i]));
        i += 1;
    }
    r
}

fn size_violation_of(v: &Json) -> (x: SizeViolation)
    ensures
        size_violation_from_json(x, *v),
{
    SizeViolation {
        rule_id: v.member("ruleId").string_or_empty(),
        file: v.member("file").string_or_empty(),
        line: v.member("line").u32_or_zero(),
        function: v.member("function").opt_string(),
        message: v.member("message").string_or_empty(),
        actual: v.member("actual").u32_or_zero(),
        threshold: v.member("threshold").u32_or_zero(),
        severity: v.member("severity").string_or_empty(),
    }
}

fn size_violations_of(arr: &Vec<Json>) -> (r: Vec<SizeViolation>)
    ensures
        size_violations_from(r@, Some(arr@)),
{
    let mut r: Vec<SizeViolation> = Vec::new();
    let mut i: usize = 0;
    while i < arr.len()
        invariant
            i <= arr.len(),
            r.len() == i,
            forall|j: int| 0 <= j < i ==> size_violation_from_json(#[trigger] r@[j], arr@[j]),
        decreases arr.len() - i,
    {
        r.push(size_violation_of(&arr[i]));
        i += 1;
    }
    r
}

fn complexity_violation_of(v: &Json) -> (x: ComplexityViolation)
    ensures
        complexity_violation_from_json(x, *v),
{
    ComplexityViolation {
        rule_id: v.member("ruleId").string_or_empty(),
        file: v.member("file").string_or_empty(),
        line: v.member("line").u32_or_zero(),
        function: v.member("function").opt_string(),
        message: v.member("message").string_or_empty(),
        actual: v.member("actual").u32_or_zero(),
        threshold: v.member("threshold").u32_or_zero(),
        severity: v.member("severity").string_or_empty(),
    }
}

fn complexity_violations_of(arr: &Vec<Json>) -> (r: Vec<ComplexityViolation>)
    ensures
        complexity_violations_from(r@, Some(arr@)),
{
    let mut r: Vec<ComplexityViolation> = Vec::new();
    let mut i: usize = 0;
    while i < arr.len()
        invariant
            i <= arr.len(),
            r.len() == i,
            forall|j: int| 0 <= j < i ==> complexity_violation_from_json(#[trigger] r@[j], arr@[j]),
        decreases arr.len() - i,
    {
        r.push(complexity_violation_of(&arr[i]));
        i += 1;
    }
    r
}

/// The texts among `arr`, in order.
fn texts_in(arr: &Vec<Json>) -> (r: Vec<String>)
    ensures
        strings_are(r@, texts_of(arr@)),
{
    let mut r: Vec<String> = Vec::new();
    let mut i: usize = 0;
    while i < arr.len()
        invariant
            i <= arr.len(),
            strings_are(r@, texts_of(arr@.take(i as int))),
        decreases arr.len() - i,
    {
        proof {
            assert(arr@.take(i + 1).drop_last() =~= arr@.take(i as int));
        }
        if let Some(s) = arr[i].as_str() {
            r.push(s.clone());
        }
        i += 1;
    }
    proof {
        assert(arr@.take(arr.len() as int) =~= arr@);
    }
    r
}

/// A report of one kind leaves what the others read unchanged.
proof fn lemma_push_other(rs: Seq<CollectorReport>, r: CollectorReport)
    ensures
        forall|kind: u8| kind != report_kind(r.name@) ==> #[trigger] last_status(rs.push(r), kind) == last_status(rs, kind),
        forall|kind: u8| kind != report_kind(r.name@) ==> #[trigger] last_details(rs.push(r), kind) == last_details(rs, kind),
        forall|kind: u8, key: Seq<char>| kind != report_kind(r.name@) ==> #[trigger] last_array(rs.push(r), kind, key) == last_array(rs, kind, key),
{
    assert(rs.push(r).drop_last() =~= rs);
}

/// The last report of a kind decides what that kind reads.
proof fn lemma_push_same(rs: Seq<CollectorReport>, r: CollectorReport)
    ensures
        last_status(rs.push(r), report_kind(r.name@)) == r.status,
        last_details(rs.push(r), report_kind(r.name@)) == match r.details {
            Some(d) => Some(d),
            None => last_details(rs, report_kind(r.name@)),
        },
        forall|key: Seq<char>| #[trigger] last_array(rs.push(r), report_kind(r.name@), key) == match r.details {
            Some(d) => match spec_as_array(spec_member(d, key)) {
                Some(a) => Some(a),
                None => last_array(rs, report_kind(r.name@), key),
            },
            None => last_array(rs, report_kind(r.name@), key),
        },
{
    assert(rs.push(r).drop_last() =~= rs);
}

fn apply_clippy(acc: &mut ClippyResult, r: &CollectorReport, Ghost(rs): Ghost<Seq<CollectorReport>>)
    requires
        report_kind(r.name@) == CLIPPY,
        clippy_matches(*old(acc), rs),
    ensures
        clippy_matches(*final(acc), rs.push(*r)),
{
    proof { lemma_push_same(rs, *r); }
    if let Some(d) = &r.details {
        acc.warning_count = d.member("warningCount").u32_or_zero();
        if let Some(arr) = d.member("details").as_array() {
            acc.details = lints_of(arr);
        }
    }
    acc.status = r.status;
}

fn apply_tests(acc: &mut TestResult, r: &CollectorReport, Ghost(rs): Ghost<Seq<CollectorReport>>)
    requires
        report_kind(r.name@) == TESTS,
        tests_matches(*old(acc), rs),
    ensures
        tests_matches(*final(acc), rs.push(*r)),
{
    proof { lemma_push_same(rs, *r); }
    if let Some(d) = &r.details {
        acc.passed = d.member("passed").u32_or_zero();
        acc.failed = d.member("failed").u32_or_zero();
        acc.ignored = d.member("ignored").u32_or_zero();
        acc.runner = d.member("runner").opt_string();
    }
    acc.status = r.status;
}

fn apply_coverage(acc: &mut CoverageResult, r: &CollectorReport, Ghost(rs): Ghost<Seq<CollectorReport>>)
    requires
        report_kind(r.name@) == COVERAGE,
        coverage_matches(*old(acc), rs),
    ensures
        coverage_matches(*final(acc), rs.push(*r)),
{
    proof { lemma_push_same(rs, *r); }
    if let Some(d) = &r.details {
        acc.line_percent = match d.member("linePercent").as_decimal() {
            Some(x) => x,
            None => Decimal::zero(),
        };
    }
    acc.status = r.status;
}

fn apply_deny(acc: &mut DenyResult, r: &CollectorReport, Ghost(rs): Ghost<Seq<CollectorReport>>)
    requires
        report_kind(r.name@) == DENY,
        deny_matches(*old(acc), rs),
    ensures
        deny_matches(*final(acc), rs.push(*r)),
{
    proof { lemma_push_same(rs, *r); }
    if let Some(d) = &r.details {
        acc.banned_count = d.member("bannedCount").u32_or_zero();
        acc.license_violations = d.member("licenseViolations").u32_or_zero();
    }
    acc.status = r.status;
}

fn apply_audit(acc: &mut AuditResult, r: &CollectorReport, Ghost(rs): Ghost<Seq<CollectorReport>>)
    requires
        report_kind(r.name@) == AUDIT,
        audit_matches(*old(acc), rs),
    ensures
        audit_matches(*final(acc), rs.push(*r)),
{
    proof { lemma_push_same(rs, *r); }
    if let Some(d) = &r.details {
        acc.vulnerability_count = d.member("vulnerabilityCount").u32_or_zero();
        acc.critical_count = d.member("criticalCount").u32_or_zero();
    }
    acc.status = r.status;
}

fn apply_hack(acc: &mut HackResult, r: &CollectorReport, Ghost(rs): Ghost<Seq<CollectorReport>>)
    requires
        report_kind(r.name@) == HACK,
        hack_matches(*old(acc), rs),
    ensures
        hack_matches(*final(acc), rs.push(*r)),
{
    proof { lemma_push_same(rs, *r); }
    if let Some(d) = &r.details {
        acc.feature_combinations_tested = d.member("featureCombinationsTested").u32_or_zero();
    }
    acc.status = r.status;
}

fn apply_duplicates(acc: &mut DuplicatesResult, r: &CollectorReport, Ghost(rs): Ghost<Seq<CollectorReport>>)
    requires
        report_kind(r.name@) == DUPLICATES,
        duplicates_matches(*old(acc), rs),
    ensures
        duplicates_matches(*final(acc), rs.push(*r)),
{
    proof { lemma_push_same(rs, *r); }
    if let Some(d) = &r.details {
        acc.total_lines = d.member("totalLines").u32_or_zero();
        acc.duplicate_lines = d.member("duplicateLines").u32_or_zero();
        acc.files_with_duplicates = d.member("filesWithDuplicates").u32_or_zero();
        if let Some(arr) = d.member("duplicateFiles").as_array() {
            acc.duplicate_files = texts_in(arr);
        }
        if let Some(arr) = d.member("duplicateBlocks").as_array() {
            acc.duplicate_blocks = blocks_of(arr);
        }
        acc.duplicate_blocks_omitted = d.member("duplicateBlocksOmitted").u32_or_zero();
    }
    acc.status = r.status;
}

fn apply_loc(acc: &mut LocResult, r: &CollectorReport, Ghost(rs): Ghost<Seq<CollectorReport>>)
    requires
        report_kind(r.name@) == LOC,
        loc_matches(*old(acc), rs),
    ensures
        loc_matches(*final(acc), rs.push(*r)),
{
    proof { lemma_push_same(rs, *r); }
    if let Some(d) = &r.details {
        acc.total_lines = d.member("totalLines").u32_or_zero();
        acc.code_lines = d.member("codeLines").u32_or_zero();
        acc.comment_lines = d.member("commentLines").u32_or_zero();
        acc.blank_lines = d.member("blankLines").u32_or_zero();
        acc.long_lines = d.member("longLines").u32_or_zero();
        acc.max_line_length_found = d.member("maxLineLengthFound").usize_or_zero();
        acc.max_line_length_allowed = d.member("maxLineLengthAllowed").usize_or_zero();
        acc.files = d.member("files").u32_or_zero();
        acc.files_with_long_lines = d.member("filesWithLongLines").u32_or_zero();
        if let Some(arr) = d.member("longLineFiles").as_array() {
            acc.long_line_files = texts_in(arr);
        }
        if let Some(arr) = d.member("longLineDetails").as_array() {
            acc.long_line_details = long_lines_of(arr);
        }
        acc.long_line_details_omitted = d.member("longLineDetailsOmitted").u32_or_zero();
    }
    acc.status = r.status;
}

fn apply_size(acc: &mut SizeResult, r: &CollectorReport, Ghost(rs): Ghost<Seq<CollectorReport>>)
    requires
        report_kind(r.name@) == SIZE,
        size_matches(*old(acc), rs),
    ensures
        size_matches(*final(acc), rs.push(*r)),
{
    proof { lemma_push_same(rs, *r); }
    if let Some(d) = &r.details {
        acc.files = d.member("files").u32_or_zero();
        acc.max_lines_per_file = d.member("maxLinesPerFile").u32_or_zero();
        acc.max_code_lines_per_file = d.member("maxCodeLinesPerFile").u32_or_zero();
        acc.max_lines_per_function = d.member("maxLinesPerFunction").u32_or_zero();
        acc.max_parameters_per_function = d.member("maxParametersPerFunction").u32_or_zero();
        if let Some(arr) = d.member("violations").as_array() {
            acc.violations = size_violations_of(arr);
        }
    }
    acc.status = r.status;
}

fn apply_complexity(acc: &mut ComplexityResult, r: &CollectorReport, Ghost(rs): Ghost<Seq<CollectorReport>>)
    requires
        report_kind(r.name@) == COMPLEXITY,
        complexity_matches(*old(acc), rs),
    ensures
        complexity_matches(*final(acc), rs.push(*r)),
{
    proof { lemma_push_same(rs, *r); }
    if let Some(d) = &r.details {
        acc.functions = d.member("functions").u32_or_zero();
        acc.max_cyclomatic_complexity = d.member("maxCyclomaticComplexity").u32_or_zero();
        acc.max_nesting_depth = d.member("maxNestingDepth").u32_or_zero();
        acc.complex_functions = d.member("complexFunctions").u32_or_zero();
        if let Some(arr) = d.member("violations").as_array() {
            acc.violations = complexity_violations_of(arr);
        }
    }
    acc.status = r.status;
}

/// Assembles the collectors' reports into a metrics summary generated at
/// `generated_at`.  Each section holds the status of the last report of its
/// collector (`Skipped` when there is none); its figures come from the last
/// report of that collector whose stdout was JSON, and each list from the
/// last such report that held one.  Reports of other names are ignored.
pub fn assemble_reports_at(
    results: &Vec<CollectorReport>,
    project_name: &str,
    rust_edition: &str,
    workspace_root: &str,
    generated_at: String,
) -> (s: MetricsSummary)
    ensures
        is_summary_of(s, results@, project_name@, rust_edition@, workspace_root@, generated_at@, VERSION@),
{
    let mut fmt = FmtResult { status: CollectorStatus::Skipped, details: Vec::new() };
    let mut clippy = ClippyResult { status: CollectorStatus::Skipped, warning_count: 0, details: Vec::new() };
    let mut tests = TestResult {
        status: CollectorStatus::Skipped,
        passed: 0,
        failed: 0,
        ignored: 0,
        runner: None,
    };
    let mut coverage = CoverageResult { status: CollectorStatus::Skipped, line_percent: Decimal::zero() };
    let mut deny = DenyResult { status: CollectorStatus::Skipped, banned_count: 0, license_violations: 0 };
    let mut audit = AuditResult { status: CollectorStatus::Skipped, vulnerability_count: 0, critical_count: 0 };
    let mut hack = HackResult { status: CollectorStatus::Skipped, feature_combinations_tested: 0 };
    let mut mutants = MutantsResult {
        status: CollectorStatus::Skipped,
        mutation_score: Decimal::zero(),
        caught: 0,
        missed: 0,
    };
    let mut duplicates = DuplicatesResult {
        status: CollectorStatus::Skipped,
        total_lines: 0,
        duplicate_lines: 0,
        files_with_duplicates: 0,
        duplicate_files: Vec::new(),
        duplicate_blocks: Vec::new(),
        duplicate_blocks_omitted: 0,
    };
    let mut loc = LocResult {
        status: CollectorStatus::Skipped,
        total_lines: 0,
        code_lines: 0,
        comment_lines: 0,
        blank_lines: 0,
        long_lines: 0,
        max_line_length_found: 0,
        max_line_length_allowed: 0,
        files: 0,
        files_with_long_lines: 0,
        long_line_files: Vec::new(),
        long_line_details: Vec::new(),
        long_line_details_omitted: 0,
    };
    let mut size = SizeResult {
        status: CollectorStatus::Skipped,
        files: 0,
        max_lines_per_file: 0,
        max_code_lines_per_file: 0,
        max_lines_per_function: 0,
        max_parameters_per_function: 0,
        violations: Vec::new(),
    };
    let mut complexity = ComplexityResult {
        status: CollectorStatus::Skipped,
        functions: 0,
        max_cyclomatic_complexity: 0,
        max_nesting_depth: 0,
        complex_functions: 0,
        violations: Vec::new(),
    };
    proof {
        assert(results@.take(0) =~= Seq::<CollectorReport>::empty());
    }
    let mut i: usize = 0;
    while i < results.len()
        invariant
            i <= results.len(),
            fmt_matches(fmt, results@.take(i as int)),
            clippy_matches(clippy, results@.take(i as int)),
            tests_matches(tests, results@.take(i as int)),
            coverage_matches(coverage, results@.take(i as int)),
            deny_matches(deny, results@.take(i as int)),
            audit_matches(audit, results@.take(i as int)),
            hack_matches(hack, results@.take(i as int)),
            mutants_matches(mutants, results@.take(i as int)),
            duplicates_matches(duplicates, results@.take(i as int)),
            loc_matches(loc, results@.take(i as int)),
            size_matches(size, results@.take(i as int)),
            complexity_matches(complexity, results@.take(i as int)),
        decreases results.len() - i,
    {
        let r = &results[i];
        let ghost prefix = results@.take(i as int);
        proof {
            assert(results@.take(i + 1) =~= prefix.push(*r));
            lemma_push_other(prefix, *r);
            lemma_push_same(prefix, *r);
        }
        let kind = kind_of(r.name.as_str());
        if kind == FMT {
            fmt.status = r.status;
        } else if kind == CLIPPY {
            apply_clippy(&mut clippy, r, Ghost(prefix));
        } else if kind == TESTS {
            apply_tests(&mut tests, r, Ghost(prefix));
        } else if kind == COVERAGE {
            apply_coverage(&mut coverage, r, Ghost(prefix));
        } else if kind == DENY {
            apply_deny(&mut deny, r, Ghost(prefix));
        } else if kind == AUDIT {
            apply_audit(&mut audit, r, Ghost(prefix));
        } else if kind == HACK {
            apply_hack(&mut hack, r, Ghost(prefix));
        } else if kind == MUTANTS {
            mutants.status = r.status;
        } else if kind == DUPLICATES {
            apply_duplicates(&mut duplicates, r, Ghost(prefix));
        } else if kind == LOC {
            apply_loc(&mut loc, r, Ghost(prefix));
        } else if kind == SIZE {
            apply_size(&mut size, r, Ghost(prefix));
        } else if kind == COMPLEXITY {
            apply_complexity(&mut complexity, r, Ghost(prefix));
        }
        i += 1;
    }
    proof {
        assert(results@.take(results.len() as int) =~= results@);
    }
    MetricsSummary {
        schema_version: "1".to_string(),
        generated_at,
        rustquty_version: VERSION.to_string(),
        project: ProjectInfo {
            name: project_name.to_string(),
            rust_edition: rust_edition.to_string(),
            workspace_root: workspace_root.to_string(),
        },
        collectors: CollectorsSummary {
            fmt,
            clippy,
            tests,
            coverage,
            deny,
            audit,
            hack,
            mutants,
            duplicates,
            loc,
            size,
            complexity,
        },
    }
}

/// `rs` are the reports of the collectors' outputs `results`: each named as
/// its collector, with its status, and with the JSON its stdout holds.
pub open spec fn reports_read(rs: Seq<CollectorReport>, results: Seq<(String, CollectorOutput)>) -> bool {
    &&& rs.len() == results.len()
    &&& forall|i: int| 0 <= i < rs.len() ==> {
        &&& (#[trigger] rs[i]).name@ == results[i].0@
        &&& rs[i].status == results[i].1.status
        &&& rs[i].details == json_value(results[i].1.stdout@)
    }
}

/// The reports of the collectors' outputs: each stdout read as JSON.
fn read_reports(results: &Vec<(String, CollectorOutput)>) -> (rs: Vec<CollectorReport>)
    ensures
        reports_read(rs@, results@),
{
    let mut rs: Vec<CollectorReport> = Vec::new();
    let mut i: usize = 0;
    while i < results.len()
        invariant
            i <= results@.len(),
            rs@.len() == i,
            forall|k: int| 0 <= k < i ==> {
                &&& (#[trigger] rs@[k]).name@ == results@[k].0@
                &&& rs@[k].status == results@[k].1.status
                &&& rs@[k].details == json_value(results@[k].1.stdout@)
            },
        decreases results.len() - i,
    {
        let (name, output) = &results[i];
        rs.push(CollectorReport {
            name: name.clone(),
            status: output.status,
            details: parse_json(output.stdout.as_str()),
        });
        i = i + 1;
    }
    rs
}

/// Assembles the collectors' outputs, each paired with the name of its
/// collector, into a metrics summary generated at `generated_at`: the
/// summary of their reports, each stdout read as JSON (see
/// `assemble_reports_at`).
pub fn assemble_results_at(
    results: &Vec<(String, CollectorOutput)>,
    project_name: &str,
    rust_edition: &str,
    workspace_root: &str,
    generated_at: String,
) -> (s: MetricsSummary)
    ensures
        exists|rs: Seq<CollectorReport>| reports_read(rs, results@)
            && is_summary_of(s, rs, project_name@, rust_edition@, workspace_root@, generated_at@, VERSION@),
{
    let reports = read_reports(results);
    let s = assemble_reports_at(&reports, project_name, rust_edition, workspace_root, generated_at);
    assert(reports_read(reports@, results@));
    s
}

/// Assembles the collectors' outputs into a metrics summary stamped with
/// the current time (see `assemble_results_at`); `None` when the system
/// clock reads before 1970.
pub fn assemble_results(
    results: &Vec<(String, CollectorOutput)>,
    project_name: &str,
    rust_edition: &str,
    workspace_root: &str,
) -> (r: Option<MetricsSummary>)
    ensures
        r matches Some(s) ==> {
            &&& exists|secs: nat, dt| is_datetime_of(secs, dt) && s.generated_at@ == iso8601(dt)
            &&& exists|rs: Seq<CollectorReport>| reports_read(rs, results@)
                && is_summary_of(s, rs, project_name@, rust_edition@, workspace_root@, s.generated_at@, VERSION@)
        },
{
    match chrono_now() {
        Some(now) => Some(assemble_results_at(results, project_name, rust_edition, workspace_root, now)),
        None => None,
    }
}

// ------------------------------------------------------------------------------------------------
// The summary keeps what the LOC collector reported
// ------------------------------------------------------------------------------------------------

/// The member `key` of `entries` is the one at `k` when no earlier member
/// has that key.
proof fn lemma_entries_get_at(entries: Seq<(String, Json)>, k: int, key: Seq<char>)
    requires
        0 <= k < entries.len(),
        entries[k].0@ == key,
        forall|i: int| 0 <= i < k ==> (#[trigger] entries[i]).0@ != key,
    ensures
        entries_get(entries, key) == Some(entries[k].1),
    decreases k,
{
    if k > 0 {
        assert forall|i: int| 0 <= i < k - 1 implies (#[trigger] entries.drop_first()[i]).0@ != key by {
            assert(entries.drop_first()[i] == entries[i + 1]);
        }
        lemma_entries_get_at(entries.drop_first(), k - 1, key);
    }
}

/// The texts of an array of strings are those strings.
proof fn lemma_texts_of_strings(items: Seq<Json>, ss: Seq<Seq<char>>)
    requires
        items.len() == ss.len(),
        forall|i: int| 0 <= i < items.len() ==> str_is(#[trigger] items[i], ss[i]),
    ensures
        texts_of(items) == ss,
    decreases items.len(),
{
    if items.len() > 0 {
        lemma_texts_of_strings(items.drop_last(), ss.drop_last());
        assert(spec_as_str(items.last()) == Some(ss.last()));
        assert(ss.drop_last().push(ss.last()) =~= ss);
    }
}

/// Reading a long-line object gives back the line it was written for.
proof fn lemma_long_line_reads_back(d: LongLineDetail, v: Json, w: (Seq<char>, nat, nat), max: nat)
    requires
        long_line_json(v, w, max),
        long_line_from_json(d, v),
        w.1 <= u32::MAX,
        w.2 <= usize::MAX,
        max <= usize::MAX,
    ensures
        d.file@ == w.0,
        d.line == w.1,
        d.length == w.2,
        d.threshold == max,
{
    reveal_strlit("file");
    reveal_strlit("length");
    reveal_strlit("line");
    reveal_strlit("threshold");
    assert("file"@.len() == 4 && "file"@[0] == 'f');
    assert("length"@.len() == 6 && "length"@[0] == 'l');
    assert("line"@.len() == 4 && "line"@[0] == 'l');
    assert("threshold"@.len() == 9 && "threshold"@[0] == 't');
    let e = v->Object_0@;
    lemma_entries_get_at(e, 0, "file"@);
    assert forall|i: int| 0 <= i < 1 implies (#[trigger] e[i]).0@ != "length"@ by {
        assert(i == 0);
    }
    lemma_entries_get_at(e, 1, "length"@);
    assert forall|i: int| 0 <= i < 2 implies (#[trigger] e[i]).0@ != "line"@ by {
        assert(i == 0 || i == 1);
    }
    lemma_entries_get_at(e, 2, "line"@);
    assert forall|i: int| 0 <= i < 3 implies (#[trigger] e[i]).0@ != "threshold"@ by {
        assert(i == 0 || i == 1 || i == 2);
    }
    lemma_entries_get_at(e, 3, "threshold"@);
}

/// The summary keeps what the LOC collector reported: when the last report
/// is the LOC collector's, with the details it writes for the counts `m`,
/// the summary's LOC section holds its status, its counts, its files with
/// long lines and its long lines.
pub proof fn law_summary_keeps_loc_report(s: MetricsSummary, rs: Seq<CollectorReport>, m: LocModel, max: nat)
    requires
        rs.len() > 0,
        rs.last().name@ == "loc"@,
        rs.last().details matches Some(j) && loc_details_json(j, m, max),
        model_wf(m),
        loc_model_fits(m, max),
        sections_match(s.collectors, rs),
    ensures
        s.collectors.loc.status == rs.last().status,
        s.collectors.loc.total_lines == m.total_lines,
        s.collectors.loc.code_lines == m.code_lines,
        s.collectors.loc.comment_lines == m.comment_lines,
        s.collectors.loc.blank_lines == m.blank_lines,
        s.collectors.loc.long_lines == m.long_lines,
        s.collectors.loc.max_line_length_found == m.max_line_length_found,
        s.collectors.loc.max_line_length_allowed == max,
        s.collectors.loc.files == m.files,
        s.collectors.loc.files_with_long_lines == m.files_with_long_lines,
        s.collectors.loc.long_line_details_omitted == m.long_line_details_omitted,
        s.collectors.loc.long_line_files@.len() == m.long_line_files.len(),
        forall|i: int| 0 <= i < m.long_line_files.len() ==> #[trigger] s.collectors.loc.long_line_files@[i]@
            == m.long_line_files[i],
        s.collectors.loc.long_line_details@.len() == m.long_line_details.len(),
        forall|i: int| 0 <= i < m.long_line_details.len() ==> {
            let d = #[trigger] s.collectors.loc.long_line_details@[i];
            &&& d.file@ == m.long_line_details[i].0
            &&& d.line == m.long_line_details[i].1
            &&& d.length == m.long_line_details[i].2
            &&& d.threshold == max
        },
{
    reveal_strlit("fmt");
    reveal_strlit("clippy");
    reveal_strlit("tests");
    reveal_strlit("coverage");
    reveal_strlit("deny");
    reveal_strlit("audit");
    reveal_strlit("hack");
    reveal_strlit("mutants");
    reveal_strlit("duplicates");
    reveal_strlit("loc");
    reveal_strlit("blankLines");
    reveal_strlit("codeLines");
    reveal_strlit("commentLines");
    reveal_strlit("files");
    reveal_strlit("filesWithLongLines");
    reveal_strlit("longLineDetails");
    reveal_strlit("longLineDetailsOmitted");
    reveal_strlit("longLineFiles");
    reveal_strlit("longLines");
    reveal_strlit("maxLineLengthAllowed");
    reveal_strlit("maxLineLengthFound");
    reveal_strlit("totalLines");
    assert("blankLines"@.len() == 10 && "blankLines"@[0] == 'b');
    assert("codeLines"@.len() == 9 && "codeLines"@[0] == 'c');
    assert("commentLines"@.len() == 12 && "commentLines"@[0] == 'c');
    assert("files"@.len() == 5 && "files"@[0] == 'f');
    assert("filesWithLongLines"@.len() == 18 && "filesWithLongLines"@[0] == 'f');
    assert("longLineDetails"@.len() == 15 && "longLineDetails"@[0] == 'l');
    assert("longLineDetailsOmitted"@.len() == 22 && "longLineDetailsOmitted"@[0] == 'l');
    assert("longLineFiles"@.len() == 13 && "longLineFiles"@[0] == 'l');
    assert("longLines"@.len() == 9 && "longLines"@[0] == 'l');
    assert("maxLineLengthAllowed"@.len() == 20 && "maxLineLengthAllowed"@[0] == 'm');
    assert("maxLineLengthFound"@.len() == 18 && "maxLineLengthFound"@[0] == 'm');
    assert("totalLines"@.len() == 10 && "totalLines"@[0] == 't');
    assert("loc"@[0] != "fmt"@[0]);
    assert(report_kind(rs.last().name@) == LOC);
    let j = rs.last().details->Some_0;
    let e = j->Object_0@;
    lemma_entries_get_at(e, 0, "blankLines"@);
    assert forall|i: int| 0 <= i < 1 implies (#[trigger] e[i]).0@ != "codeLines"@ by {
        assert(i == 0);
    }
    lemma_entries_get_at(e, 1, "codeLines"@);
    assert forall|i: int| 0 <= i < 2 implies (#[trigger] e[i]).0@ != "commentLines"@ by {
        assert(i == 0 || i == 1);
    }
    lemma_entries_get_at(e, 2, "commentLines"@);
    assert forall|i: int| 0 <= i < 3 implies (#[trigger] e[i]).0@ != "files"@ by {
        assert(i == 0 || i == 1 || i == 2);
    }
    lemma_entries_get_at(e, 3, "files"@);
    assert forall|i: int| 0 <= i < 4 implies (#[trigger] e[i]).0@ != "filesWithLongLines"@ by {
        assert(i == 0 || i == 1 || i == 2 || i == 3);
    }
    lemma_entries_get_at(e, 4, "filesWithLongLines"@);
    assert forall|i: int| 0 <= i < 5 implies (#[trigger] e[i]).0@ != "longLineDetails"@ by {
        assert(i == 0 || i == 1 || i == 2 || i == 3 || i == 4);
    }
    lemma_entries_get_at(e, 5, "longLineDetails"@);
    assert forall|i: int| 0 <= i < 6 implies (#[trigger] e[i]).0@ != "longLineDetailsOmitted"@ by {
        assert(i == 0 || i == 1 || i == 2 || i == 3 || i == 4 || i == 5);
    }
    lemma_entries_get_at(e, 6, "longLineDetailsOmitted"@);
    assert forall|i: int| 0 <= i < 7 implies (#[trigger] e[i]).0@ != "longLineFiles"@ by {
        assert(i == 0 || i == 1 || i == 2 || i == 3 || i == 4 || i == 5 || i == 6);
    }
    lemma_entries_get_at(e, 7, "longLineFiles"@);
    assert forall|i: int| 0 <= i < 8 implies (#[trigger] e[i]).0@ != "longLines"@ by {
        assert(i == 0 || i == 1 || i == 2 || i == 3 || i == 4 || i == 5 || i == 6 || i == 7);
    }
    lemma_entries_get_at(e, 8, "longLines"@);
    assert forall|i: int| 0 <= i < 9 implies (#[trigger] e[i]).0@ != "maxLineLengthAllowed"@ by {
        assert(i == 0 || i == 1 || i == 2 || i == 3 || i == 4 || i == 5 || i == 6 || i == 7 || i == 8);
    }
    lemma_entries_get_at(e, 9, "maxLineLengthAllowed"@);
    assert forall|i: int| 0 <= i < 10 implies (#[trigger] e[i]).0@ != "maxLineLengthFound"@ by {
        assert(i == 0 || i == 1 || i == 2 || i == 3 || i == 4 || i == 5 || i == 6 || i == 7 || i == 8 || i == 9);
    }
    lemma_entries_get_at(e, 10, "maxLineLengthFound"@);
    assert forall|i: int| 0 <= i < 11 implies (#[trigger] e[i]).0@ != "totalLines"@ by {
        assert(i == 0 || i == 1 || i == 2 || i == 3 || i == 4 || i == 5 || i == 6 || i == 7 || i == 8 || i == 9 || i == 10);
    }
    lemma_entries_get_at(e, 11, "totalLines"@);
    let r = s.collectors.loc;
    let files = e[7].1->Array_0@;
    lemma_texts_of_strings(files, m.long_line_files);
    let details = e[5].1->Array_0@;
    assert forall|i: int| 0 <= i < m.long_line_details.len() implies {
        let d = #[trigger] r.long_line_details@[i];
        &&& d.file@ == m.long_line_details[i].0
        &&& d.line == m.long_line_details[i].1
        &&& d.length == m.long_line_details[i].2
        &&& d.threshold == max
    } by {
        lemma_long_line_reads_back(r.long_line_details@[i], details[i], m.long_line_details[i], max);
    }
}


// ------------------------------------------------------------------------------------------------
// The summary keeps the violations the size and complexity collectors reported
// ------------------------------------------------------------------------------------------------

/// `x` is the violation `v` (whose severity is always `major`).
pub open spec fn size_violation_is(x: SizeViolation, v: ViolationSpec) -> bool {
    &&& x.rule_id@ == v.rule_id
    &&& x.file@ == v.file
    &&& x.line == v.line
    &&& opt_text_is(x.function, v.function)
    &&& x.message@ == v.message
    &&& x.actual == v.actual
    &&& x.threshold == v.threshold
    &&& x.severity@ == "major"@
}

/// `x` is the violation `v` (whose severity is always `major`).
pub open spec fn complexity_violation_is(x: ComplexityViolation, v: ViolationSpec) -> bool {
    &&& x.rule_id@ == v.rule_id
    &&& x.file@ == v.file
    &&& x.line == v.line
    &&& opt_text_is(x.function, v.function)
    &&& x.message@ == v.message
    &&& x.actual == v.actual
    &&& x.threshold == v.threshold
    &&& x.severity@ == "major"@
}

/// The members of a violation's JSON object are its fields.
proof fn lemma_violation_members(j: Json, v: ViolationSpec)
    requires
        violation_json(j, v),
    ensures
        spec_str_or_empty(spec_member(j, "ruleId"@)) == v.rule_id,
        spec_str_or_empty(spec_member(j, "file"@)) == v.file,
        spec_u32_or_zero(spec_member(j, "line"@)) == v.line,
        spec_as_str(spec_member(j, "function"@)) == v.function,
        spec_str_or_empty(spec_member(j, "message"@)) == v.message,
        spec_u32_or_zero(spec_member(j, "actual"@)) == v.actual,
        spec_u32_or_zero(spec_member(j, "threshold"@)) == v.threshold,
        spec_str_or_empty(spec_member(j, "severity"@)) == "major"@,
{
    reveal_strlit("actual");
    reveal_strlit("file");
    reveal_strlit("function");
    reveal_strlit("line");
    reveal_strlit("message");
    reveal_strlit("ruleId");
    reveal_strlit("severity");
    reveal_strlit("threshold");
    reveal_strlit("major");
    assert("actual"@.len() == 6);
    assert("file"@.len() == 4);
    assert("function"@.len() == 8);
    assert("line"@.len() == 4);
    assert("message"@.len() == 7);
    assert("ruleId"@.len() == 6);
    assert("severity"@.len() == 8);
    assert("threshold"@.len() == 9);
    assert("actual"@[0] == 'a' && "ruleId"@[0] == 'r');
    assert("file"@[0] == 'f' && "line"@[0] == 'l');
    assert("function"@[0] == 'f' && "severity"@[0] == 's');
    let e = j->Object_0@;
    lemma_entries_get_at(e, 0, "actual"@);
    assert forall|i: int| 0 <= i < 1 implies (#[trigger] e[i]).0@ != "file"@ by {
        assert(i == 0);
    }
    lemma_entries_get_at(e, 1, "file"@);
    assert forall|i: int| 0 <= i < 2 implies (#[trigger] e[i]).0@ != "function"@ by {
        assert(i == 0 || i == 1);
    }
    lemma_entries_get_at(e, 2, "function"@);
    assert forall|i: int| 0 <= i < 3 implies (#[trigger] e[i]).0@ != "line"@ by {
        assert(i == 0 || i == 1 || i == 2);
    }
    lemma_entries_get_at(e, 3, "line"@);
    assert forall|i: int| 0 <= i < 4 implies (#[trigger] e[i]).0@ != "message"@ by {
        assert(i == 0 || i == 1 || i == 2 || i == 3);
    }
    lemma_entries_get_at(e, 4, "message"@);
    assert forall|i: int| 0 <= i < 5 implies (#[trigger] e[i]).0@ != "ruleId"@ by {
        assert(i == 0 || i == 1 || i == 2 || i == 3 || i == 4);
    }
    lemma_entries_get_at(e, 5, "ruleId"@);
    assert forall|i: int| 0 <= i < 6 implies (#[trigger] e[i]).0@ != "severity"@ by {
        assert(i == 0 || i == 1 || i == 2 || i == 3 || i == 4 || i == 5);
    }
    lemma_entries_get_at(e, 6, "severity"@);
    assert forall|i: int| 0 <= i < 7 implies (#[trigger] e[i]).0@ != "threshold"@ by {
        assert(i == 0 || i == 1 || i == 2 || i == 3 || i == 4 || i == 5 || i == 6);
    }
    lemma_entries_get_at(e, 7, "threshold"@);
}

/// The summary keeps what the size collector reported: when the last report
/// is the size collector's, with the details it writes for the counts `m`,
/// the summary's size section holds its status, its counts and its
/// violations.
pub proof fn law_summary_keeps_size_report(s: MetricsSummary, rs: Seq<CollectorReport>, m: SizeModel)
    requires
        rs.len() > 0,
        rs.last().name@ == "size"@,
        rs.last().details matches Some(j) && size_details_json(j, m),
        size_model_fits(m),
        sections_match(s.collectors, rs),
    ensures
        s.collectors.size.status == rs.last().status,
        s.collectors.size.files == m.files,
        s.collectors.size.max_lines_per_file == m.max_lines_per_file,
        s.collectors.size.max_code_lines_per_file == m.max_code_lines_per_file,
        s.collectors.size.max_lines_per_function == m.max_lines_per_function,
        s.collectors.size.max_parameters_per_function == m.max_parameters_per_function,
        s.collectors.size.violations@.len() == m.violations.len(),
        forall|i: int| 0 <= i < m.violations.len() ==> size_violation_is(
            #[trigger] s.collectors.size.violations@[i],
            m.violations[i],
        ),
{
    reveal_strlit("fmt");
    reveal_strlit("clippy");
    reveal_strlit("tests");
    reveal_strlit("coverage");
    reveal_strlit("deny");
    reveal_strlit("audit");
    reveal_strlit("hack");
    reveal_strlit("mutants");
    reveal_strlit("duplicates");
    reveal_strlit("loc");
    reveal_strlit("size");
    reveal_strlit("complexity");
    reveal_strlit("files");
    reveal_strlit("maxCodeLinesPerFile");
    reveal_strlit("maxLinesPerFile");
    reveal_strlit("maxLinesPerFunction");
    reveal_strlit("maxParametersPerFunction");
    reveal_strlit("violations");
    assert("fmt"@.len() == 3);
    assert("clippy"@.len() == 6);
    assert("tests"@.len() == 5);
    assert("coverage"@.len() == 8);
    assert("deny"@.len() == 4);
    assert("audit"@.len() == 5);
    assert("hack"@.len() == 4);
    assert("mutants"@.len() == 7);
    assert("duplicates"@.len() == 10);
    assert("loc"@.len() == 3);
    assert("size"@.len() == 4);
    assert("complexity"@.len() == 10);
    assert("files"@.len() == 5);
    assert("maxCodeLinesPerFile"@.len() == 19);
    assert("maxLinesPerFile"@.len() == 15);
    assert("maxLinesPerFunction"@.len() == 19);
    assert("maxParametersPerFunction"@.len() == 24);
    assert("violations"@.len() == 10);
    assert("fmt"@[0] == 'f' && "loc"@[0] == 'l');
    assert("tests"@[0] == 't' && "audit"@[0] == 'a');
    assert("tests"@[0] == 't' && "files"@[0] == 'f');
    assert("deny"@[0] == 'd' && "hack"@[0] == 'h');
    assert("deny"@[0] == 'd' && "size"@[0] == 's');
    assert("audit"@[0] == 'a' && "files"@[0] == 'f');
    assert("hack"@[0] == 'h' && "size"@[0] == 's');
    assert("duplicates"@[0] == 'd' && "complexity"@[0] == 'c');
    assert("duplicates"@[0] == 'd' && "violations"@[0] == 'v');
    assert("complexity"@[0] == 'c' && "violations"@[0] == 'v');
    assert("maxCodeLinesPerFile"@[3] == 'C' && "maxLinesPerFunction"@[3] == 'L');
    assert(report_kind(rs.last().name@) == SIZE);
    let e = rs.last().details->Some_0->Object_0@;
    lemma_entries_get_at(e, 0, "files"@);
    assert forall|i: int| 0 <= i < 1 implies (#[trigger] e[i]).0@ != "maxCodeLinesPerFile"@ by {
        assert(i == 0);
    }
    lemma_entries_get_at(e, 1, "maxCodeLinesPerFile"@);
    assert forall|i: int| 0 <= i < 2 implies (#[trigger] e[i]).0@ != "maxLinesPerFile"@ by {
        assert(i == 0 || i == 1);
    }
    lemma_entries_get_at(e, 2, "maxLinesPerFile"@);
    assert forall|i: int| 0 <= i < 3 implies (#[trigger] e[i]).0@ != "maxLinesPerFunction"@ by {
        assert(i == 0 || i == 1 || i == 2);
    }
    lemma_entries_get_at(e, 3, "maxLinesPerFunction"@);
    assert forall|i: int| 0 <= i < 4 implies (#[trigger] e[i]).0@ != "maxParametersPerFunction"@ by {
        assert(i == 0 || i == 1 || i == 2 || i == 3);
    }
    lemma_entries_get_at(e, 4, "maxParametersPerFunction"@);
    assert forall|i: int| 0 <= i < 5 implies (#[trigger] e[i]).0@ != "violations"@ by {
        assert(i == 0 || i == 1 || i == 2 || i == 3 || i == 4);
    }
    lemma_entries_get_at(e, 5, "violations"@);
    let a = e[5].1->Array_0@;
    assert forall|i: int| 0 <= i < m.violations.len() implies size_violation_is(
        #[trigger] s.collectors.size.violations@[i],
        m.violations[i],
    ) by {
        lemma_violation_members(a[i], m.violations[i]);
    }
}

/// The summary keeps what the complexity collector reported: when the last
/// report is the complexity collector's, with the details it writes for
/// the functions `ts` under the limits `c`, the summary's complexity
/// section holds its status, its counts and its violations.
pub proof fn law_summary_keeps_complexity_report(
    s: MetricsSummary,
    rs: Seq<CollectorReport>,
    ts: Seq<FunctionTree>,
    c: ComplexityCollectorConfig,
)
    requires
        rs.len() > 0,
        rs.last().name@ == "complexity"@,
        rs.last().details matches Some(j) && complexity_details_json(j, ts, c),
        functions_fit(ts),
        sections_match(s.collectors, rs),
    ensures
        s.collectors.complexity.status == rs.last().status,
        s.collectors.complexity.functions == ts.len(),
        s.collectors.complexity.max_cyclomatic_complexity == max_cyclomatic(ts),
        s.collectors.complexity.max_nesting_depth == max_nesting(ts),
        s.collectors.complexity.complex_functions == complex_count(ts, c),
        s.collectors.complexity.violations@.len() == complexity_violations(ts, c).len(),
        forall|i: int| 0 <= i < complexity_violations(ts, c).len() ==> complexity_violation_is(
            #[trigger] s.collectors.complexity.violations@[i],
            complexity_violations(ts, c)[i],
        ),
{
    reveal_strlit("fmt");
    reveal_strlit("clippy");
    reveal_strlit("tests");
    reveal_strlit("coverage");
    reveal_strlit("deny");
    reveal_strlit("audit");
    reveal_strlit("hack");
    reveal_strlit("mutants");
    reveal_strlit("duplicates");
    reveal_strlit("loc");
    reveal_strlit("size");
    reveal_strlit("complexity");
    reveal_strlit("complexFunctions");
    reveal_strlit("functions");
    reveal_strlit("maxCyclomaticComplexity");
    reveal_strlit("maxNestingDepth");
    reveal_strlit("violations");
    assert("fmt"@.len() == 3);
    assert("clippy"@.len() == 6);
    assert("tests"@.len() == 5);
    assert("coverage"@.len() == 8);
    assert("deny"@.len() == 4);
    assert("audit"@.len() == 5);
    assert("hack"@.len() == 4);
    assert("mutants"@.len() == 7);
    assert("duplicates"@.len() == 10);
    assert("loc"@.len() == 3);
    assert("size"@.len() == 4);
    assert("complexity"@.len() == 10);
    assert("complexFunctions"@.len() == 16);
    assert("functions"@.len() == 9);
    assert("maxCyclomaticComplexity"@.len() == 23);
    assert("maxNestingDepth"@.len() == 15);
    assert("violations"@.len() == 10);
    assert("fmt"@[0] == 'f' && "loc"@[0] == 'l');
    assert("tests"@[0] == 't' && "audit"@[0] == 'a');
    assert("deny"@[0] == 'd' && "hack"@[0] == 'h');
    assert("deny"@[0] == 'd' && "size"@[0] == 's');
    assert("hack"@[0] == 'h' && "size"@[0] == 's');
    assert("duplicates"@[0] == 'd' && "complexity"@[0] == 'c');
    assert("duplicates"@[0] == 'd' && "violations"@[0] == 'v');
    assert("complexity"@[0] == 'c' && "violations"@[0] == 'v');
    assert(report_kind(rs.last().name@) == COMPLEXITY);
    lemma_complexity_counts_fit(ts, c);
    let e = rs.last().details->Some_0->Object_0@;
    lemma_entries_get_at(e, 0, "complexFunctions"@);
    assert forall|i: int| 0 <= i < 1 implies (#[trigger] e[i]).0@ != "functions"@ by {
        assert(i == 0);
    }
    lemma_entries_get_at(e, 1, "functions"@);
    assert forall|i: int| 0 <= i < 2 implies (#[trigger] e[i]).0@ != "maxCyclomaticComplexity"@ by {
        assert(i == 0 || i == 1);
    }
    lemma_entries_get_at(e, 2, "maxCyclomaticComplexity"@);
    assert forall|i: int| 0 <= i < 3 implies (#[trigger] e[i]).0@ != "maxNestingDepth"@ by {
        assert(i == 0 || i == 1 || i == 2);
    }
    lemma_entries_get_at(e, 3, "maxNestingDepth"@);
    assert forall|i: int| 0 <= i < 4 implies (#[trigger] e[i]).0@ != "violations"@ by {
        assert(i == 0 || i == 1 || i == 2 || i == 3);
    }
    lemma_entries_get_at(e, 4, "violations"@);
    let a = e[4].1->Array_0@;
    assert forall|i: int| 0 <= i < complexity_violations(ts, c).len() implies complexity_violation_is(
        #[trigger] s.collectors.complexity.violations@[i],
        complexity_violations(ts, c)[i],
    ) by {
        lemma_violation_members(a[i], complexity_violations(ts, c)[i]);
    }
}


// ------------------------------------------------------------------------------------------------
// The summary keeps what the duplicates collector reported
// ------------------------------------------------------------------------------------------------

/// `b` is the block `spec`: its lines, its tokens and where it occurs.
pub open spec fn block_is(b: DuplicateBlock, spec: BlockSpec) -> bool {
    &&& b.lines == spec.lines
    &&& b.tokens == spec.tokens
    &&& b.occurrences@.len() == spec.occurrences.len()
    &&& forall|i: int| 0 <= i < spec.occurrences.len() ==> {
        let o = #[trigger] b.occurrences@[i];
        &&& o.file@ == spec.occurrences[i].0
        &&& o.start_line == spec.occurrences[i].1
        &&& o.end_line == spec.occurrences[i].2
    }
}

/// Reading an occurrence object gives back the occurrence.
proof fn lemma_occurrence_reads_back(o: DuplicateOccurrence, v: Json, w: (Seq<char>, u32, u32))
    requires
        occurrence_json(v, w),
        occurrence_from_json(o, v),
    ensures
        o.file@ == w.0,
        o.start_line == w.1,
        o.end_line == w.2,
{
    reveal_strlit("endLine");
    reveal_strlit("file");
    reveal_strlit("startLine");
    assert("endLine"@.len() == 7);
    assert("file"@.len() == 4);
    assert("startLine"@.len() == 9);
    let e = v->Object_0@;
    lemma_entries_get_at(e, 0, "endLine"@);
    assert forall|i: int| 0 <= i < 1 implies (#[trigger] e[i]).0@ != "file"@ by {
        assert(i == 0);
    }
    lemma_entries_get_at(e, 1, "file"@);
    assert forall|i: int| 0 <= i < 2 implies (#[trigger] e[i]).0@ != "startLine"@ by {
        assert(i == 0 || i == 1);
    }
    lemma_entries_get_at(e, 2, "startLine"@);
}

/// Reading a block object gives back the block.
proof fn lemma_block_reads_back(b: DuplicateBlock, v: Json, spec: BlockSpec)
    requires
        block_json(v, spec),
        block_from_json(b, v),
    ensures
        block_is(b, spec),
{
    reveal_strlit("lines");
    reveal_strlit("occurrences");
    reveal_strlit("tokens");
    assert("lines"@.len() == 5);
    assert("occurrences"@.len() == 11);
    assert("tokens"@.len() == 6);
    let e = v->Object_0@;
    lemma_entries_get_at(e, 0, "lines"@);
    assert forall|i: int| 0 <= i < 1 implies (#[trigger] e[i]).0@ != "occurrences"@ by {
        assert(i == 0);
    }
    lemma_entries_get_at(e, 1, "occurrences"@);
    assert forall|i: int| 0 <= i < 2 implies (#[trigger] e[i]).0@ != "tokens"@ by {
        assert(i == 0 || i == 1);
    }
    lemma_entries_get_at(e, 2, "tokens"@);
    let a = e[1].1->Array_0@;
    assert forall|i: int| 0 <= i < spec.occurrences.len() implies {
        let o = #[trigger] b.occurrences@[i];
        &&& o.file@ == spec.occurrences[i].0
        &&& o.start_line == spec.occurrences[i].1
        &&& o.end_line == spec.occurrences[i].2
    } by {
        lemma_occurrence_reads_back(b.occurrences@[i], a[i], spec.occurrences[i]);
    }
}

/// The summary keeps what the duplicates collector reported: when the last
/// report is the duplicates collector's, with the details it writes for
/// the report `r`, the summary's duplicates section holds its status, its
/// counts, its files and its blocks.
pub proof fn law_summary_keeps_duplicates_report(s: MetricsSummary, rs: Seq<CollectorReport>, r: DuplicatesReport)
    requires
        rs.len() > 0,
        rs.last().name@ == "duplicates"@,
        rs.last().details matches Some(j) && duplicates_details_json(j, r),
        sections_match(s.collectors, rs),
    ensures
        s.collectors.duplicates.status == rs.last().status,
        s.collectors.duplicates.total_lines == r.total_lines,
        s.collectors.duplicates.duplicate_lines == r.duplicate_lines,
        s.collectors.duplicates.files_with_duplicates == r.duplicate_files.len() as u32,
        s.collectors.duplicates.duplicate_files@.len() == r.duplicate_files.len(),
        forall|i: int| 0 <= i < r.duplicate_files.len() ==> #[trigger] s.collectors.duplicates.duplicate_files@[i]@
            == r.duplicate_files[i],
        s.collectors.duplicates.duplicate_blocks@.len() == r.blocks.len(),
        forall|i: int| 0 <= i < r.blocks.len() ==> block_is(#[trigger] s.collectors.duplicates.duplicate_blocks@[i], r.blocks[i]),
        s.collectors.duplicates.duplicate_blocks_omitted == r.blocks_omitted,
{
    reveal_strlit("fmt");
    reveal_strlit("clippy");
    reveal_strlit("tests");
    reveal_strlit("coverage");
    reveal_strlit("deny");
    reveal_strlit("audit");
    reveal_strlit("hack");
    reveal_strlit("mutants");
    reveal_strlit("duplicates");
    reveal_strlit("duplicateBlocks");
    reveal_strlit("duplicateBlocksOmitted");
    reveal_strlit("duplicateFiles");
    reveal_strlit("duplicateLines");
    reveal_strlit("filesWithDuplicates");
    reveal_strlit("totalLines");
    assert("fmt"@.len() == 3);
    assert("clippy"@.len() == 6);
    assert("tests"@.len() == 5);
    assert("coverage"@.len() == 8);
    assert("deny"@.len() == 4);
    assert("audit"@.len() == 5);
    assert("hack"@.len() == 4);
    assert("mutants"@.len() == 7);
    assert("duplicates"@.len() == 10);
    assert("duplicateBlocks"@.len() == 15);
    assert("duplicateBlocksOmitted"@.len() == 22);
    assert("duplicateFiles"@.len() == 14);
    assert("duplicateLines"@.len() == 14);
    assert("filesWithDuplicates"@.len() == 19);
    assert("totalLines"@.len() == 10);
    assert("tests"@[0] == 't' && "audit"@[0] == 'a');
    assert("deny"@[0] == 'd' && "hack"@[0] == 'h');
    assert("duplicates"@[0] == 'd' && "totalLines"@[0] == 't');
    assert("duplicateFiles"@[9] == 'F' && "duplicateLines"@[9] == 'L');
    assert(report_kind(rs.last().name@) == DUPLICATES);
    let e = rs.last().details->Some_0->Object_0@;
    lemma_entries_get_at(e, 0, "duplicateBlocks"@);
    assert forall|i: int| 0 <= i < 1 implies (#[trigger] e[i]).0@ != "duplicateBlocksOmitted"@ by {
        assert(i == 0);
    }
    lemma_entries_get_at(e, 1, "duplicateBlocksOmitted"@);
    assert forall|i: int| 0 <= i < 2 implies (#[trigger] e[i]).0@ != "duplicateFiles"@ by {
        assert(i == 0 || i == 1);
    }
    lemma_entries_get_at(e, 2, "duplicateFiles"@);
    assert forall|i: int| 0 <= i < 3 implies (#[trigger] e[i]).0@ != "duplicateLines"@ by {
        assert(i == 0 || i == 1 || i == 2);
    }
    lemma_entries_get_at(e, 3, "duplicateLines"@);
    assert forall|i: int| 0 <= i < 4 implies (#[trigger] e[i]).0@ != "filesWithDuplicates"@ by {
        assert(i == 0 || i == 1 || i == 2 || i == 3);
    }
    lemma_entries_get_at(e, 4, "filesWithDuplicates"@);
    assert forall|i: int| 0 <= i < 5 implies (#[trigger] e[i]).0@ != "totalLines"@ by {
        assert(i == 0 || i == 1 || i == 2 || i == 3 || i == 4);
    }
    lemma_entries_get_at(e, 5, "totalLines"@);
    lemma_texts_of_strings(e[2].1->Array_0@, r.duplicate_files);
    let a = e[0].1->Array_0@;
    assert forall|i: int| 0 <= i < r.blocks.len() implies block_is(
        #[trigger] s.collectors.duplicates.duplicate_blocks@[i],
        r.blocks[i],
    ) by {
        lemma_block_reads_back(s.collectors.duplicates.duplicate_blocks@[i], a[i], r.blocks[i]);
    }
}


// ------------------------------------------------------------------------------------------------
// The summary keeps what the tool collectors reported
// ------------------------------------------------------------------------------------------------

/// `x` is the lint `l`.
pub open spec fn lint_is(x: ClippyLint, l: ClippyLint) -> bool {
    &&& x.code@ == l.code@
    &&& x.message@ == l.message@
    &&& opt_text_is(x.file, match l.file { Some(f) => Some(f@), None => None })
    &&& x.line == l.line
}

/// Reading a lint object gives back the lint.
proof fn lemma_lint_reads_back(x: ClippyLint, v: Json, l: ClippyLint)
    requires
        lint_json(v, l),
        lint_from_json(x, v),
    ensures
        lint_is(x, l),
{
    reveal_strlit("code");
    reveal_strlit("file");
    reveal_strlit("line");
    reveal_strlit("message");
    assert("code"@.len() == 4);
    assert("file"@.len() == 4);
    assert("line"@.len() == 4);
    assert("message"@.len() == 7);
    assert("code"@[0] == 'c' && "file"@[0] == 'f');
    assert("code"@[0] == 'c' && "line"@[0] == 'l');
    assert("file"@[0] == 'f' && "line"@[0] == 'l');
    let e = v->Object_0@;
    lemma_entries_get_at(e, 0, "code"@);
    assert forall|i: int| 0 <= i < 1 implies (#[trigger] e[i]).0@ != "file"@ by {
        assert(i == 0);
    }
    lemma_entries_get_at(e, 1, "file"@);
    assert forall|i: int| 0 <= i < 2 implies (#[trigger] e[i]).0@ != "line"@ by {
        assert(i == 0 || i == 1);
    }
    lemma_entries_get_at(e, 2, "line"@);
    assert forall|i: int| 0 <= i < 3 implies (#[trigger] e[i]).0@ != "message"@ by {
        assert(i == 0 || i == 1 || i == 2);
    }
    lemma_entries_get_at(e, 3, "message"@);
}

/// The summary keeps what the clippy collector reported: its status, its
/// warning count and its lints.
pub proof fn law_summary_keeps_clippy_report(s: MetricsSummary, rs: Seq<CollectorReport>, warnings: u32, lints: Seq<ClippyLint>)
    requires
        rs.len() > 0,
        rs.last().name@ == "clippy"@,
        rs.last().details matches Some(j) && clippy_details_json(j, warnings, lints),
        sections_match(s.collectors, rs),
    ensures
        s.collectors.clippy.status == rs.last().status,
        s.collectors.clippy.warning_count == warnings,
        s.collectors.clippy.details@.len() == lints.len(),
        forall|i: int| 0 <= i < lints.len() ==> lint_is(#[trigger] s.collectors.clippy.details@[i], lints[i]),
{
    reveal_strlit("fmt");
    reveal_strlit("clippy");
    reveal_strlit("details");
    reveal_strlit("warningCount");
    assert("fmt"@.len() == 3);
    assert("clippy"@.len() == 6);
    assert("details"@.len() == 7);
    assert("warningCount"@.len() == 12);
    assert(report_kind(rs.last().name@) == CLIPPY);
    let e = rs.last().details->Some_0->Object_0@;
    lemma_entries_get_at(e, 0, "details"@);
    assert forall|i: int| 0 <= i < 1 implies (#[trigger] e[i]).0@ != "warningCount"@ by {
        assert(i == 0);
    }
    lemma_entries_get_at(e, 1, "warningCount"@);
    let a = e[0].1->Array_0@;
    assert forall|i: int| 0 <= i < lints.len() implies lint_is(#[trigger] s.collectors.clippy.details@[i], lints[i]) by {
        lemma_lint_reads_back(s.collectors.clippy.details@[i], a[i], lints[i]);
    }
}

/// The summary keeps what the test collector reported: its status, its
/// counts and its runner.
pub proof fn law_summary_keeps_tests_report(s: MetricsSummary, rs: Seq<CollectorReport>, counts: TestCounts, runner: Seq<char>)
    requires
        rs.len() > 0,
        rs.last().name@ == "tests"@,
        rs.last().details matches Some(j) && test_details_json(j, counts, runner),
        sections_match(s.collectors, rs),
    ensures
        s.collectors.tests.status == rs.last().status,
        s.collectors.tests.passed == counts.0,
        s.collectors.tests.failed == counts.1,
        s.collectors.tests.ignored == counts.2,
        s.collectors.tests.runner matches Some(r) && r@ == runner,
{
    reveal_strlit("fmt");
    reveal_strlit("clippy");
    reveal_strlit("tests");
    reveal_strlit("failed");
    reveal_strlit("ignored");
    reveal_strlit("passed");
    reveal_strlit("runner");
    assert("fmt"@.len() == 3);
    assert("clippy"@.len() == 6);
    assert("tests"@.len() == 5);
    assert("failed"@.len() == 6);
    assert("ignored"@.len() == 7);
    assert("passed"@.len() == 6);
    assert("runner"@.len() == 6);
    assert("clippy"@[0] == 'c' && "failed"@[0] == 'f');
    assert("clippy"@[0] == 'c' && "passed"@[0] == 'p');
    assert("clippy"@[0] == 'c' && "runner"@[0] == 'r');
    assert("failed"@[0] == 'f' && "passed"@[0] == 'p');
    assert("failed"@[0] == 'f' && "runner"@[0] == 'r');
    assert("passed"@[0] == 'p' && "runner"@[0] == 'r');
    assert(report_kind(rs.last().name@) == TESTS);
    let e = rs.last().details->Some_0->Object_0@;
    lemma_entries_get_at(e, 0, "failed"@);
    assert forall|i: int| 0 <= i < 1 implies (#[trigger] e[i]).0@ != "ignored"@ by {
        assert(i == 0);
    }
    lemma_entries_get_at(e, 1, "ignored"@);
    assert forall|i: int| 0 <= i < 2 implies (#[trigger] e[i]).0@ != "passed"@ by {
        assert(i == 0 || i == 1);
    }
    lemma_entries_get_at(e, 2, "passed"@);
    assert forall|i: int| 0 <= i < 3 implies (#[trigger] e[i]).0@ != "runner"@ by {
        assert(i == 0 || i == 1 || i == 2);
    }
    lemma_entries_get_at(e, 3, "runner"@);
}

/// The summary keeps what the coverage collector reported: its status and
/// its line percent (0 when none was read).
pub proof fn law_summary_keeps_coverage_report(s: MetricsSummary, rs: Seq<CollectorReport>, line_percent: Option<Decimal>)
    requires
        rs.len() > 0,
        rs.last().name@ == "coverage"@,
        rs.last().details matches Some(j) && coverage_details_json(j, line_percent),
        sections_match(s.collectors, rs),
    ensures
        s.collectors.coverage.status == rs.last().status,
        s.collectors.coverage.line_percent == match line_percent { Some(d) => d, None => Decimal { micros: 0 } },
{
    reveal_strlit("fmt");
    reveal_strlit("clippy");
    reveal_strlit("tests");
    reveal_strlit("coverage");
    reveal_strlit("linePercent");
    assert("fmt"@.len() == 3);
    assert("clippy"@.len() == 6);
    assert("tests"@.len() == 5);
    assert("coverage"@.len() == 8);
    assert("linePercent"@.len() == 11);
    assert(report_kind(rs.last().name@) == COVERAGE);
    let e = rs.last().details->Some_0->Object_0@;
    lemma_entries_get_at(e, 0, "linePercent"@);
}

/// The summary keeps what the deny collector reported: its status and its
/// counts.
pub proof fn law_summary_keeps_deny_report(s: MetricsSummary, rs: Seq<CollectorReport>, banned: u32, license: u32)
    requires
        rs.len() > 0,
        rs.last().name@ == "deny"@,
        rs.last().details matches Some(j) && deny_details_json(j, banned, license),
        sections_match(s.collectors, rs),
    ensures
        s.collectors.deny.status == rs.last().status,
        s.collectors.deny.banned_count == banned,
        s.collectors.deny.license_violations == license,
{
    reveal_strlit("fmt");
    reveal_strlit("clippy");
    reveal_strlit("tests");
    reveal_strlit("coverage");
    reveal_strlit("deny");
    reveal_strlit("bannedCount");
    reveal_strlit("licenseViolations");
    assert("fmt"@.len() == 3);
    assert("clippy"@.len() == 6);
    assert("tests"@.len() == 5);
    assert("coverage"@.len() == 8);
    assert("deny"@.len() == 4);
    assert("bannedCount"@.len() == 11);
    assert("licenseViolations"@.len() == 17);
    assert(report_kind(rs.last().name@) == DENY);
    let e = rs.last().details->Some_0->Object_0@;
    lemma_entries_get_at(e, 0, "bannedCount"@);
    assert forall|i: int| 0 <= i < 1 implies (#[trigger] e[i]).0@ != "licenseViolations"@ by {
        assert(i == 0);
    }
    lemma_entries_get_at(e, 1, "licenseViolations"@);
}

/// The summary keeps what the audit collector reported: its status and its
/// counts.
pub proof fn law_summary_keeps_audit_report(s: MetricsSummary, rs: Seq<CollectorReport>, vulnerabilities: u32, critical: u32)
    requires
        rs.len() > 0,
        rs.last().name@ == "audit"@,
        rs.last().details matches Some(j) && audit_details_json(j, vulnerabilities, critical),
        sections_match(s.collectors, rs),
    ensures
        s.collectors.audit.status == rs.last().status,
        s.collectors.audit.vulnerability_count == vulnerabilities,
        s.collectors.audit.critical_count == critical,
{
    reveal_strlit("fmt");
    reveal_strlit("clippy");
    reveal_strlit("tests");
    reveal_strlit("coverage");
    reveal_strlit("deny");
    reveal_strlit("audit");
    reveal_strlit("criticalCount");
    reveal_strlit("vulnerabilityCount");
    assert("fmt"@.len() == 3);
    assert("clippy"@.len() == 6);
    assert("tests"@.len() == 5);
    assert("coverage"@.len() == 8);
    assert("deny"@.len() == 4);
    assert("audit"@.len() == 5);
    assert("criticalCount"@.len() == 13);
    assert("vulnerabilityCount"@.len() == 18);
    assert("tests"@[0] == 't' && "audit"@[0] == 'a');
    assert(report_kind(rs.last().name@) == AUDIT);
    let e = rs.last().details->Some_0->Object_0@;
    lemma_entries_get_at(e, 0, "criticalCount"@);
    assert forall|i: int| 0 <= i < 1 implies (#[trigger] e[i]).0@ != "vulnerabilityCount"@ by {
        assert(i == 0);
    }
    lemma_entries_get_at(e, 1, "vulnerabilityCount"@);
}

/// The summary keeps what the hack collector reported: its status and the
/// number of feature combinations tested.
pub proof fn law_summary_keeps_hack_report(s: MetricsSummary, rs: Seq<CollectorReport>, n: u32)
    requires
        rs.len() > 0,
        rs.last().name@ == "hack"@,
        rs.last().details matches Some(j) && spec_hack_details(j, n),
        sections_match(s.collectors, rs),
    ensures
        s.collectors.hack.status == rs.last().status,
        s.collectors.hack.feature_combinations_tested == n,
{
    reveal_strlit("fmt");
    reveal_strlit("clippy");
    reveal_strlit("tests");
    reveal_strlit("coverage");
    reveal_strlit("deny");
    reveal_strlit("audit");
    reveal_strlit("hack");
    reveal_strlit("featureCombinationsTested");
    assert("fmt"@.len() == 3);
    assert("clippy"@.len() == 6);
    assert("tests"@.len() == 5);
    assert("coverage"@.len() == 8);
    assert("deny"@.len() == 4);
    assert("audit"@.len() == 5);
    assert("hack"@.len() == 4);
    assert("featureCombinationsTested"@.len() == 25);
    assert("tests"@[0] == 't' && "audit"@[0] == 'a');
    assert("deny"@[0] == 'd' && "hack"@[0] == 'h');
    assert(report_kind(rs.last().name@) == HACK);
    let e = rs.last().details->Some_0->Object_0@;
    lemma_entries_get_at(e, 0, "featureCombinationsTested"@);
}

} // verus!
