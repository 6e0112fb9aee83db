//! The metrics summary, baseline and quality report that rustquty reads and
//! writes as JSON files.

use vstd::prelude::*;
use crate::json::{Decimal, Json};
use crate::text::str_eq;

verus! {

// ------------------------------------------------------------------------------------------------
// MetricsSummary
// ------------------------------------------------------------------------------------------------

#[derive(Debug)]
pub struct MetricsSummary {
    pub schema_version: String,
    pub generated_at: String,
    pub rustquty_version: String,
    pub project: ProjectInfo,
    pub collectors: CollectorsSummary,
}

#[derive(Debug, Clone)]
pub struct ProjectInfo {
    pub name: String,
    pub rust_edition: String,
    pub workspace_root: String,
}

#[derive(Debug)]
pub struct CollectorsSummary {
    pub fmt: FmtResult,
    pub clippy: ClippyResult,
    pub tests: TestResult,
    pub coverage: CoverageResult,
    pub deny: DenyResult,
    pub audit: AuditResult,
    pub hack: HackResult,
    pub mutants: MutantsResult,
    pub duplicates: DuplicatesResult,
    pub loc: LocResult,
    pub size: SizeResult,
    pub complexity: ComplexityResult,
}

#[derive(Debug)]
pub struct FmtResult {
    pub status: CollectorStatus,
    pub details: Vec<(String, Json)>,
}

#[derive(Debug, Clone)]
pub struct ClippyResult {
    pub status: CollectorStatus,
    pub warning_count: u32,
    pub details: Vec<ClippyLint>,
}

#[derive(Debug, Clone)]
pub struct ClippyLint {
    pub code: String,
    pub message: String,
    pub file: Option<String>,
    pub line: Option<u32>,
}

#[derive(Debug, Clone)]
pub struct TestResult {
    pub status: CollectorStatus,
    pub passed: u32,
    pub failed: u32,
    pub ignored: u32,
    pub runner: Option<String>,
}

#[derive(Debug, Clone)]
pub struct CoverageResult {
    pub status: CollectorStatus,
    pub line_percent: Decimal,
}

#[derive(Debug, Clone)]
pub struct DenyResult {
    pub status: CollectorStatus,
    pub banned_count: u32,
    pub license_violations: u32,
}

#[derive(Debug, Clone)]
pub struct AuditResult {
    pub status: CollectorStatus,
    pub vulnerability_count: u32,
    pub critical_count: u32,
}

#[derive(Debug, Clone)]
pub struct HackResult {
    pub status: CollectorStatus,
    pub feature_combinations_tested: u32,
}

#[derive(Debug, Clone)]
pub struct MutantsResult {
    pub status: CollectorStatus,
    pub mutation_score: Decimal,
    pub caught: u32,
    pub missed: u32,
}

#[derive(Debug, Clone)]
pub struct DuplicateOccurrence {
    pub file: String,
    pub start_line: u32,
    pub end_line: u32,
}

#[derive(Debug, Clone)]
pub struct DuplicateBlock {
    pub lines: u32,
    pub tokens: u32,
    pub occurrences: Vec<DuplicateOccurrence>,
}

#[derive(Debug, Clone)]
pub struct DuplicatesResult {
    pub status: CollectorStatus,
    pub total_lines: u32,
    pub duplicate_lines: u32,
    pub files_with_duplicates: u32,
    pub duplicate_files: Vec<String>,
    pub duplicate_blocks: Vec<DuplicateBlock>,
    pub duplicate_blocks_omitted: u32,
}

#[derive(Debug, Clone)]
pub struct LongLineDetail {
    pub file: String,
    pub line: u32,
    pub length: usize,
    pub threshold: usize,
}

#[derive(Debug, Clone)]
pub struct LocResult {
    pub status: CollectorStatus,
    pub total_lines: u32,
    pub code_lines: u32,
    pub comment_lines: u32,
    pub blank_lines: u32,
    pub long_lines: u32,
    pub max_line_length_found: usize,
    pub max_line_length_allowed: usize,
    pub files: u32,
    pub files_with_long_lines: u32,
    pub long_line_files: Vec<String>,
    pub long_line_details: Vec<LongLineDetail>,
    pub long_line_details_omitted: u32,
}

#[derive(Debug, Clone)]
pub struct SizeResult {
    pub status: CollectorStatus,
    pub files: u32,
    pub max_lines_per_file: u32,
    pub max_code_lines_per_file: u32,
    pub max_lines_per_function: u32,
    pub max_parameters_per_function: u32,
    pub violations: Vec<SizeViolation>,
}

#[derive(Debug, Clone)]
pub struct SizeViolation {
    pub rule_id: String,
    pub file: String,
    pub line: u32,
    pub function: Option<String>,
    pub message: String,
    pub actual: u32,
    pub threshold: u32,
    pub severity: String,
}

#[derive(Debug, Clone)]
pub struct ComplexityResult {
    pub status: CollectorStatus,
    pub functions: u32,
    pub max_cyclomatic_complexity: u32,
    pub max_nesting_depth: u32,
    pub complex_functions: u32,
    pub violations: Vec<ComplexityViolation>,
}

#[derive(Debug, Clone)]
pub struct ComplexityViolation {
    pub rule_id: String,
    pub file: String,
    pub line: u32,
    pub function: Option<String>,
    pub message: String,
    pub actual: u32,
    pub threshold: u32,
    pub severity: String,
}

#[derive(Debug, Clone, Copy, PartialEq, Eq, Structural)]
pub enum CollectorStatus {
    Pass,
    Fail,
    Skipped,
    Error,
}

// ------------------------------------------------------------------------------------------------
// Baseline
// ------------------------------------------------------------------------------------------------

#[derive(Debug, Clone)]
pub struct Baseline {
    pub schema_version: String,
    pub created_at: String,
    pub rustquty_version: String,
    pub thresholds: Thresholds,
}

#[derive(Debug, Clone, Copy)]
pub struct Thresholds {
    pub fmt: FmtThreshold,
    pub clippy: ClippyThreshold,
    pub tests: TestThreshold,
    pub coverage: CoverageThreshold,
    pub deny: DenyThreshold,
    pub audit: AuditThreshold,
    pub hack: HackThreshold,
    pub mutants: MutantsThreshold,
    pub duplicates: DuplicatesThreshold,
    pub loc: LocThreshold,
    pub size: SizeThreshold,
    pub complexity: ComplexityThreshold,
}

#[derive(Debug, Clone, Copy)]
pub struct FmtThreshold {
    pub must_pass: bool,
}

#[derive(Debug, Clone, Copy)]
pub struct ClippyThreshold {
    pub max_warnings: u32,
}

#[derive(Debug, Clone, Copy)]
pub struct TestThreshold {
    pub max_failures: u32,
}

#[derive(Debug, Clone, Copy)]
pub struct CoverageThreshold {
    pub min_line_percent: Decimal,
}

#[derive(Debug, Clone, Copy)]
pub struct DenyThreshold {
    pub max_banned: u32,
    pub max_license_violations: u32,
}

#[derive(Debug, Clone, Copy)]
pub struct AuditThreshold {
    pub max_vulnerabilities: u32,
    pub max_critical: u32,
}

#[derive(Debug, Clone, Copy)]
pub struct HackThreshold {
    pub must_pass: bool,
}

#[derive(Debug, Clone, Copy)]
pub struct MutantsThreshold {
    pub min_score: Decimal,
}

#[derive(Debug, Clone, Copy)]
pub struct DuplicatesThreshold {
    pub max_duplicate_lines: u32,
}

#[derive(Debug, Clone, Copy)]
pub struct LocThreshold {
    pub max_line_length: usize,
}

#[derive(Debug, Clone, Copy)]
pub struct SizeThreshold {
    pub max_lines_per_file: Option<u32>,
    pub max_code_lines_per_file: Option<u32>,
    pub max_lines_per_function: Option<u32>,
    pub max_parameters_per_function: Option<u32>,
}

#[derive(Debug, Clone, Copy)]
pub struct ComplexityThreshold {
    pub max_cyclomatic_per_function: Option<u32>,
    pub max_nesting_depth: Option<u32>,
}

// ------------------------------------------------------------------------------------------------
// QualityReport
// ------------------------------------------------------------------------------------------------

#[derive(Debug)]
pub struct QualityReport {
    pub schema_version: String,
    pub generated_at: String,
    pub gate_result: GateResult,
    pub violations: Vec<Violation>,
    pub summary: ReportSummary,
}

#[derive(Debug, Clone, Copy, PartialEq, Eq, Structural)]
pub enum GateResult {
    Pass,
    Fail,
    Error,
}

#[derive(Debug)]
pub struct Violation {
    pub collector: String,
    pub metric: String,
    pub baseline_value: Json,
    pub current_value: Json,
    pub message: String,
}

#[derive(Debug, Clone, Copy)]
pub struct ReportSummary {
    pub collectors_run: u32,
    pub collectors_passed: u32,
    pub collectors_failed: u32,
    pub collectors_skipped: u32,
}

// ------------------------------------------------------------------------------------------------
// Schema version errors
// ------------------------------------------------------------------------------------------------

#[derive(Debug)]
pub enum SchemaVersionError {
    UnknownVersion(String),
}

/// The schema version this library reads and writes.
pub open spec fn supported_version(v: Seq<char>) -> bool {
    v == "1"@
}

/// `Ok` for schema version "1", otherwise the unknown version.
pub fn check_schema_version(version: &String) -> (r: Result<(), SchemaVersionError>)
    ensures
        supported_version(version@) ==> r is Ok,
        !supported_version(version@) ==> (r matches Err(SchemaVersionError::UnknownVersion(v))
            && v@ == version@),
{
    if str_eq(version.as_str(), "1") {
        Ok(())
    } else {
        Err(SchemaVersionError::UnknownVersion(version.clone()))
    }
}

impl MetricsSummary {
    pub fn check_version(&self) -> (r: Result<(), SchemaVersionError>)
        ensures
            supported_version(self.schema_version@) ==> r is Ok,
            !supported_version(self.schema_version@) ==> (r matches Err(
                SchemaVersionError::UnknownVersion(v),
            ) && v@ == self.schema_version@),
    {
        check_schema_version(&self.schema_version)
    }
}

impl Baseline {
    pub fn check_version(&self) -> (r: Result<(), SchemaVersionError>)
        ensures
            supported_version(self.schema_version@) ==> r is Ok,
            !supported_version(self.schema_version@) ==> (r matches Err(
                SchemaVersionError::UnknownVersion(v),
            ) && v@ == self.schema_version@),
    {
        check_schema_version(&self.schema_version)
    }
}

impl QualityReport {
    pub fn check_version(&self) -> (r: Result<(), SchemaVersionError>)
        ensures
            supported_version(self.schema_version@) ==> r is Ok,
            !supported_version(self.schema_version@) ==> (r matches Err(
                SchemaVersionError::UnknownVersion(v),
            ) && v@ == self.schema_version@),
    {
        check_schema_version(&self.schema_version)
    }
}

} // verus!
