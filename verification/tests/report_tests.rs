use rustquty_core::baseline::BaselineWriter;
use rustquty_core::display::{report_head_lines, status_line, summary_lines, violation_line};
use rustquty_core::gate::{Gate, GateConfig};
use rustquty_core::json::{Decimal, Json};
use rustquty_core::schema::{
    AuditResult, AuditThreshold, Baseline, ClippyResult, ClippyThreshold, CollectorStatus, CollectorsSummary,
    ComplexityResult, ComplexityThreshold, CoverageResult, CoverageThreshold, DenyResult, DenyThreshold,
    DuplicatesResult, DuplicatesThreshold, FmtResult, FmtThreshold, GateResult, HackResult, HackThreshold,
    LocResult, LocThreshold, MetricsSummary, MutantsResult, MutantsThreshold, ProjectInfo, SchemaVersionError,
    SizeResult, SizeThreshold, TestResult, TestThreshold, Thresholds,
};

fn dec(x: f64) -> Decimal {
    Decimal { micros: (x * 1_000_000.0).round() as i128 }
}

#[allow(clippy::too_many_arguments)]
fn make_summary(
    fmt_status: CollectorStatus,
    clippy_warnings: u32,
    test_failed: u32,
    line_percent: f64,
    deny_banned: u32,
    deny_license: u32,
    vuln_count: u32,
    critical_count: u32,
    hack_status: CollectorStatus,
    mutation_score: f64,
) -> MetricsSummary {
    MetricsSummary {
        schema_version: "1".to_string(),
        generated_at: "2026-05-04T12:00:00Z".to_string(),
        rustquty_version: "0.1.0".to_string(),
        project: ProjectInfo {
            name: "test".to_string(),
            rust_edition: "2021".to_string(),
            workspace_root: "/tmp".to_string(),
        },
        collectors: CollectorsSummary {
            fmt: FmtResult { status: fmt_status, details: vec![] },
            clippy: ClippyResult {
                status: if clippy_warnings == 0 { CollectorStatus::Pass } else { CollectorStatus::Fail },
                warning_count: clippy_warnings,
                details: vec![],
            },
            tests: TestResult {
                status: if test_failed == 0 { CollectorStatus::Pass } else { CollectorStatus::Fail },
                passed: 10,
                failed: test_failed,
                ignored: 0,
                runner: None,
            },
            coverage: CoverageResult { status: CollectorStatus::Pass, line_percent: dec(line_percent) },
            deny: DenyResult {
                status: CollectorStatus::Pass,
                banned_count: deny_banned,
                license_violations: deny_license,
            },
            audit: AuditResult {
                status: if vuln_count == 0 { CollectorStatus::Pass } else { CollectorStatus::Fail },
                vulnerability_count: vuln_count,
                critical_count,
            },
            hack: HackResult { status: hack_status, feature_combinations_tested: 8 },
            mutants: MutantsResult {
                status: if mutation_score >= 0.8 { CollectorStatus::Pass } else { CollectorStatus::Fail },
                mutation_score: dec(mutation_score),
                caught: 80,
                missed: 20,
            },
            duplicates: DuplicatesResult {
                status: CollectorStatus::Pass,
                total_lines: 1000,
                duplicate_lines: 0,
                files_with_duplicates: 0,
                duplicate_files: vec![],
                duplicate_blocks: vec![],
                duplicate_blocks_omitted: 0,
            },
            loc: LocResult {
                status: CollectorStatus::Pass,
                total_lines: 1000,
                code_lines: 800,
                comment_lines: 100,
                blank_lines: 100,
                long_lines: 0,
                max_line_length_found: 100,
                max_line_length_allowed: 120,
                files: 10,
                files_with_long_lines: 0,
                long_line_files: vec![],
                long_line_details: vec![],
                long_line_details_omitted: 0,
            },
            size: SizeResult {
                status: CollectorStatus::Pass,
                files: 10,
                max_lines_per_file: 500,
                max_code_lines_per_file: 400,
                max_lines_per_function: 80,
                max_parameters_per_function: 5,
                violations: vec![],
            },
            complexity: ComplexityResult {
                status: CollectorStatus::Pass,
                functions: 10,
                max_cyclomatic_complexity: 5,
                max_nesting_depth: 3,
                complex_functions: 0,
                violations: vec![],
            },
        },
    }
}

#[allow(clippy::too_many_arguments)]
fn make_baseline(
    fmt_must_pass: bool,
    max_clippy: u32,
    max_failures: u32,
    min_coverage: f64,
    max_banned: u32,
    max_license: u32,
    max_vuln: u32,
    max_critical: u32,
    hack_must_pass: bool,
    min_score: f64,
    max_duplicate_lines: u32,
    max_line_length: usize,
    size_max_lines_per_file: Option<u32>,
    size_max_code_lines_per_file: Option<u32>,
    size_max_lines_per_function: Option<u32>,
    size_max_parameters_per_function: Option<u32>,
) -> Baseline {
    Baseline {
        schema_version: "1".to_string(),
        created_at: "2026-05-04T00:00:00Z".to_string(),
        rustquty_version: "0.1.0".to_string(),
        thresholds: Thresholds {
            fmt: FmtThreshold { must_pass: fmt_must_pass },
            clippy: ClippyThreshold { max_warnings: max_clippy },
            tests: TestThreshold { max_failures },
            coverage: CoverageThreshold { min_line_percent: dec(min_coverage) },
            deny: DenyThreshold { max_banned, max_license_violations: max_license },
            audit: AuditThreshold { max_vulnerabilities: max_vuln, max_critical },
            hack: HackThreshold { must_pass: hack_must_pass },
            mutants: MutantsThreshold { min_score: dec(min_score) },
            duplicates: DuplicatesThreshold { max_duplicate_lines },
            loc: LocThreshold { max_line_length },
            size: SizeThreshold {
                max_lines_per_file: size_max_lines_per_file,
                max_code_lines_per_file: size_max_code_lines_per_file,
                max_lines_per_function: size_max_lines_per_function,
                max_parameters_per_function: size_max_parameters_per_function,
            },
            complexity: ComplexityThreshold { max_cyclomatic_per_function: None, max_nesting_depth: None },
        },
    }
}

fn passing_summary() -> MetricsSummary {
    make_summary(CollectorStatus::Pass, 0, 0, 90.0, 0, 0, 0, 0, CollectorStatus::Pass, 0.9)
}

fn standard_baseline() -> Baseline {
    make_baseline(true, 0, 0, 80.0, 0, 0, 0, 0, true, 0.8, 100, 120, None, None, None, None)
}

#[test]
fn test_gate_passes_when_all_metrics_within_baseline() {
    let report = Gate::run(&passing_summary(), &standard_baseline()).unwrap();
    assert!(matches!(report.gate_result, GateResult::Pass));
    assert!(report.violations.is_empty());
    assert_eq!(report.summary.collectors_passed, 12);
    assert_eq!(report.summary.collectors_failed, 0);
}

#[test]
fn test_gate_fails_when_clippy_exceeds_baseline() {
    let summary = make_summary(CollectorStatus::Pass, 5, 0, 90.0, 0, 0, 0, 0, CollectorStatus::Pass, 0.9);
    let report = Gate::run(&summary, &standard_baseline()).unwrap();
    assert!(matches!(report.gate_result, GateResult::Fail));
    assert_eq!(report.violations.len(), 1);
    assert_eq!(report.violations[0].collector, "clippy");
}

#[test]
fn test_equal_values_do_not_fail() {
    let summary = make_summary(CollectorStatus::Pass, 3, 1, 85.0, 0, 0, 0, 0, CollectorStatus::Pass, 0.8);
    let baseline = make_baseline(true, 3, 1, 85.0, 0, 0, 0, 0, true, 0.8, 100, 120, None, None, None, None);
    let report = Gate::run(&summary, &baseline).unwrap();
    assert!(matches!(report.gate_result, GateResult::Pass));
}

#[test]
fn test_gate_fails_when_loc_exceeds_max_line_length() {
    let mut summary = passing_summary();
    summary.collectors.loc.long_lines = 5;
    summary.collectors.loc.status = CollectorStatus::Fail;
    let report = Gate::run(&summary, &standard_baseline()).unwrap();
    assert!(matches!(report.gate_result, GateResult::Fail));
    assert!(report.violations.iter().any(|v| v.collector == "loc"));
}

#[test]
fn test_loc_gate_message_uses_collector_threshold() {
    let mut summary = passing_summary();
    summary.collectors.loc.long_lines = 5;
    summary.collectors.loc.max_line_length_found = 284;
    summary.collectors.loc.max_line_length_allowed = 120;
    summary.collectors.loc.status = CollectorStatus::Fail;
    let baseline = make_baseline(true, 0, 0, 80.0, 0, 0, 0, 0, true, 0.8, 100, 284, None, None, None, None);
    let report = Gate::run(&summary, &baseline).unwrap();
    let violation = report.violations.iter().find(|v| v.collector == "loc").unwrap();
    assert!(violation.message.contains("(120)"));
    assert!(!violation.message.contains("(284)"));
}

#[test]
fn test_size_gate_passes_without_size_thresholds() {
    let report = Gate::run(&passing_summary(), &standard_baseline()).unwrap();
    assert!(matches!(report.gate_result, GateResult::Pass));
}

#[test]
fn test_size_gate_fails_with_violations_and_threshold() {
    let baseline = make_baseline(
        true, 0, 0, 80.0, 0, 0, 0, 0, true, 0.8, 100, 120, Some(500), Some(400), Some(80), Some(5),
    );
    let report = Gate::run(&passing_summary(), &baseline).unwrap();
    assert!(matches!(report.gate_result, GateResult::Pass));
}

#[test]
fn test_gate_regression_generated_at_is_iso8601() {
    let report = Gate::run(&passing_summary(), &standard_baseline()).unwrap();
    assert!(report.generated_at.contains('T'), "generated_at should be ISO-8601: {}", report.generated_at);
    assert!(report.generated_at.ends_with('Z'), "generated_at should end with Z: {}", report.generated_at);
    assert!(report.generated_at.len() == 20, "generated_at should be 20 chars: {}", report.generated_at);
}

#[test]
fn test_gate_regression_summary_counts_correct() {
    let summary = make_summary(CollectorStatus::Pass, 5, 0, 90.0, 0, 0, 0, 0, CollectorStatus::Pass, 0.9);
    let report = Gate::run(&summary, &standard_baseline()).unwrap();
    assert_eq!(report.summary.collectors_failed, 1);
    assert_eq!(report.summary.collectors_passed, 11);
    assert!(report.violations.iter().any(|v| v.collector == "clippy"));
}

#[test]
fn test_gate_regression_violation_messages_not_empty() {
    let summary = make_summary(CollectorStatus::Pass, 10, 3, 50.0, 0, 0, 0, 0, CollectorStatus::Pass, 0.5);
    let report = Gate::run(&summary, &standard_baseline()).unwrap();
    for v in &report.violations {
        assert!(!v.message.is_empty(), "Violation message should not be empty for {}", v.collector);
    }
}

#[test]
fn test_gate_config_clippy_override() {
    let summary = make_summary(CollectorStatus::Pass, 5, 0, 90.0, 0, 0, 0, 0, CollectorStatus::Pass, 0.9);
    let baseline = make_baseline(true, 10, 0, 80.0, 0, 0, 0, 0, true, 0.8, 100, 120, None, None, None, None);
    let config = GateConfig { max_clippy_warnings: Some(0), ..Default::default() };
    let report = Gate::run_with_config(&summary, &baseline, Some(&config)).unwrap();
    assert!(matches!(report.gate_result, GateResult::Fail));
    assert!(report.violations.iter().any(|v| v.collector == "clippy"));
}

#[test]
fn test_gate_config_coverage_override() {
    let summary = make_summary(CollectorStatus::Pass, 0, 0, 60.0, 0, 0, 0, 0, CollectorStatus::Pass, 0.9);
    let baseline = make_baseline(true, 0, 0, 50.0, 0, 0, 0, 0, true, 0.8, 100, 120, None, None, None, None);
    let config = GateConfig { min_coverage_percent: Some(dec(80.0)), ..Default::default() };
    let report = Gate::run_with_config(&summary, &baseline, Some(&config)).unwrap();
    assert!(matches!(report.gate_result, GateResult::Fail));
    assert!(report.violations.iter().any(|v| v.collector == "coverage"));
}

#[test]
fn test_gate_config_passes_when_within_absolute_thresholds() {
    let summary = make_summary(CollectorStatus::Pass, 0, 0, 85.0, 0, 0, 0, 0, CollectorStatus::Pass, 0.9);
    let config = GateConfig {
        max_clippy_warnings: Some(0),
        min_coverage_percent: Some(dec(80.0)),
        max_lines_per_function: Some(80),
        max_nesting_depth: Some(5),
        ..Default::default()
    };
    let report = Gate::run_with_config(&summary, &standard_baseline(), Some(&config)).unwrap();
    assert!(matches!(report.gate_result, GateResult::Pass));
}

#[test]
fn test_gate_config_none_falls_back_to_baseline() {
    let summary = make_summary(CollectorStatus::Pass, 3, 0, 90.0, 0, 0, 0, 0, CollectorStatus::Pass, 0.9);
    let baseline = make_baseline(true, 5, 0, 80.0, 0, 0, 0, 0, true, 0.8, 100, 120, None, None, None, None);
    let report = Gate::run_with_config(&summary, &baseline, None).unwrap();
    assert!(matches!(report.gate_result, GateResult::Pass));
}

#[test]
fn test_gate_config_sonarqube_defaults() {
    let summary = make_summary(CollectorStatus::Pass, 0, 0, 85.0, 0, 0, 0, 0, CollectorStatus::Pass, 0.9);
    let config = GateConfig {
        max_cyclomatic_per_function: Some(15),
        max_nesting_depth: Some(5),
        max_lines_per_function: Some(80),
        max_lines_per_file: Some(1000),
        max_code_lines_per_file: Some(700),
        max_parameters_per_function: Some(7),
        min_coverage_percent: Some(dec(80.0)),
        max_clippy_warnings: Some(0),
        max_line_length: Some(120),
        ..Default::default()
    };
    let report = Gate::run_with_config(&summary, &standard_baseline(), Some(&config)).unwrap();
    assert!(matches!(report.gate_result, GateResult::Pass));
}

#[test]
fn every_check_is_counted_once() {
    let summary = make_summary(CollectorStatus::Fail, 5, 2, 50.0, 1, 1, 1, 1, CollectorStatus::Fail, 0.5);
    let report = Gate::run(&summary, &standard_baseline()).unwrap();
    let s = report.summary;
    assert_eq!(s.collectors_passed + s.collectors_failed + s.collectors_skipped, 12);
    assert_eq!(s.collectors_run, s.collectors_passed + s.collectors_failed);
    assert!(report.violations.len() as u32 <= s.collectors_failed);
    assert!(matches!(report.gate_result, GateResult::Fail));
}

#[test]
fn no_config_is_the_default_config() {
    let summary = make_summary(CollectorStatus::Pass, 3, 0, 70.0, 0, 0, 0, 0, CollectorStatus::Pass, 0.9);
    let a = Gate::run_with_config(&summary, &standard_baseline(), None).unwrap();
    let b = Gate::run_with_config(&summary, &standard_baseline(), Some(&GateConfig::default())).unwrap();
    assert_eq!(a.gate_result, b.gate_result);
    assert_eq!(a.violations.len(), b.violations.len());
    assert_eq!(a.summary.collectors_failed, b.summary.collectors_failed);
}

#[test]
fn test_baseline_writer_init() {
    let mut summary = make_summary(CollectorStatus::Pass, 3, 1, 85.5, 0, 0, 0, 0, CollectorStatus::Pass, 0.85);
    summary.collectors.hack.feature_combinations_tested = 16;
    summary.collectors.duplicates.duplicate_lines = 5;
    let baseline = BaselineWriter::build(&summary, "2026-05-04T12:00:00Z".to_string());
    assert_eq!(baseline.thresholds.clippy.max_warnings, 3);
    assert_eq!(baseline.thresholds.tests.max_failures, 1);
    assert_eq!(baseline.thresholds.coverage.min_line_percent.micros, 85_500_000);
    assert_eq!(baseline.schema_version, "1");
    assert_eq!(baseline.thresholds.loc.max_line_length, 120);
    assert_eq!(baseline.thresholds.duplicates.max_duplicate_lines, 5);
    assert!(BaselineWriter::check_overwrite(true, false).is_err());
    assert!(BaselineWriter::check_overwrite(true, true).is_ok());
    assert!(BaselineWriter::check_overwrite(false, false).is_ok());
}

#[test]
fn summary_passes_the_baseline_it_sets() {
    let summary = make_summary(CollectorStatus::Fail, 7, 2, 42.0, 1, 2, 3, 1, CollectorStatus::Fail, 0.3);
    let baseline = BaselineWriter::from_summary(&summary).unwrap();
    let report = Gate::run(&summary, &baseline).unwrap();
    assert!(matches!(report.gate_result, GateResult::Pass));
    assert!(report.violations.is_empty());
}

#[test]
fn threshold_diff_lists_changes() {
    let old = standard_baseline().thresholds;
    let mut new = old;
    new.clippy.max_warnings = 4;
    new.coverage.min_line_percent = dec(82.5);
    assert_eq!(
        BaselineWriter::threshold_diff_lines(&old, &new),
        vec![
            "Threshold changes:".to_string(),
            "  clippy.max_warnings: 0 -> 4".to_string(),
            "  coverage.min_line_percent: 80 -> 82.5".to_string(),
        ]
    );
    assert_eq!(BaselineWriter::threshold_diff_lines(&old, &old), vec!["No threshold changes detected.".to_string()]);
}

#[test]
fn test_unknown_schema_version_error() {
    let mut summary = passing_summary();
    summary.schema_version = "99".to_string();
    let err = summary.check_version().unwrap_err();
    assert!(matches!(err, SchemaVersionError::UnknownVersion(v) if v == "99"));
    assert!(passing_summary().check_version().is_ok());
}

#[test]
fn summary_lines_show_every_collector() {
    let lines = summary_lines(&passing_summary());
    assert_eq!(lines.len(), 15);
    assert_eq!(lines[1], "project: test");
    assert_eq!(lines[3], "  fmt        ✓ pass");
    assert_eq!(lines[4], "  clippy     ✓ pass      (0 warnings)");
    assert_eq!(lines[6], "  coverage   ✓ pass      (90.0%)");
    assert_eq!(lines[10], "  mutants    ✓ pass      (90.0% score, 80 caught, 20 missed)");
    assert_eq!(lines[14], "  complexity ✓ pass      (10 funcs, 5 max cc)");
}

#[test]
fn report_lines_show_counts_and_exit_code() {
    let summary = make_summary(CollectorStatus::Pass, 5, 0, 90.0, 0, 0, 0, 0, CollectorStatus::Pass, 0.9);
    let report = Gate::run(&summary, &standard_baseline()).unwrap();
    let lines = report_head_lines(&report);
    assert_eq!(lines[1], "  collectors: 12 run, 11 passed, 1 failed, 0 skipped");
    assert_eq!(lines[3], "  gate result: Fail");
    assert_eq!(lines[4], "  exit code:   1");
    assert_eq!(violation_line("clippy", "warnings", "0", "5"), "  - clippy: warnings (baseline: 0, current: 5)");
    assert_eq!(status_line("  x ", CollectorStatus::Error, &vec![]), "  x ⚠ error");
    assert!(matches!(report.violations[0].current_value, Json::UInt(5)));
}

#[test]
fn improvements_keep_a_passing_verdict_passing() {
    let baseline = make_baseline(true, 3, 1, 85.0, 0, 0, 0, 0, true, 0.8, 100, 120, None, None, None, None);
    let before = make_summary(CollectorStatus::Pass, 3, 1, 85.0, 0, 0, 0, 0, CollectorStatus::Pass, 0.8);
    assert!(matches!(Gate::run(&before, &baseline).unwrap().gate_result, GateResult::Pass));
    let now = make_summary(CollectorStatus::Pass, 1, 0, 92.5, 0, 0, 0, 0, CollectorStatus::Pass, 0.95);
    let report = Gate::run(&now, &baseline).unwrap();
    assert!(matches!(report.gate_result, GateResult::Pass));
    assert!(report.violations.is_empty());
    // A regression in one metric fails it.
    let worse = make_summary(CollectorStatus::Pass, 4, 0, 92.5, 0, 0, 0, 0, CollectorStatus::Pass, 0.95);
    assert!(matches!(Gate::run(&worse, &baseline).unwrap().gate_result, GateResult::Fail));
}

#[test]
fn any_single_regression_fails_the_verdict() {
    let baseline = make_baseline(true, 3, 1, 85.0, 0, 0, 0, 0, true, 0.8, 100, 120, None, None, None, None);
    let at_limit = make_summary(CollectorStatus::Pass, 3, 1, 85.0, 0, 0, 0, 0, CollectorStatus::Pass, 0.8);
    assert!(matches!(Gate::run(&at_limit, &baseline).unwrap().gate_result, GateResult::Pass));
    let regressions = [
        make_summary(CollectorStatus::Fail, 3, 1, 85.0, 0, 0, 0, 0, CollectorStatus::Pass, 0.8),
        make_summary(CollectorStatus::Pass, 4, 1, 85.0, 0, 0, 0, 0, CollectorStatus::Pass, 0.8),
        make_summary(CollectorStatus::Pass, 3, 2, 85.0, 0, 0, 0, 0, CollectorStatus::Pass, 0.8),
        make_summary(CollectorStatus::Pass, 3, 1, 84.9, 0, 0, 0, 0, CollectorStatus::Pass, 0.8),
        make_summary(CollectorStatus::Pass, 3, 1, 85.0, 1, 0, 0, 0, CollectorStatus::Pass, 0.8),
        make_summary(CollectorStatus::Pass, 3, 1, 85.0, 0, 1, 0, 0, CollectorStatus::Pass, 0.8),
        make_summary(CollectorStatus::Pass, 3, 1, 85.0, 0, 0, 1, 0, CollectorStatus::Pass, 0.8),
        make_summary(CollectorStatus::Pass, 3, 1, 85.0, 0, 0, 0, 1, CollectorStatus::Pass, 0.8),
        make_summary(CollectorStatus::Pass, 3, 1, 85.0, 0, 0, 0, 0, CollectorStatus::Fail, 0.8),
        make_summary(CollectorStatus::Pass, 3, 1, 85.0, 0, 0, 0, 0, CollectorStatus::Pass, 0.79),
    ];
    for worse in regressions.iter() {
        let report = Gate::run(worse, &baseline).unwrap();
        assert!(matches!(report.gate_result, GateResult::Fail));
        assert_eq!(report.violations.len(), 1);
    }
}
