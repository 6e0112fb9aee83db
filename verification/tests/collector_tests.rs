use rustquty_core::collector::assemble::{assemble_reports_at, assemble_results, assemble_results_at, CollectorReport, VERSION};
use rustquty_core::collector::audit::AuditCollector;
use rustquty_core::collector::clippy::ClippyCollector;
use rustquty_core::collector::complexity::ComplexityCollector;
use rustquty_core::collector::coverage::CoverageCollector;
use rustquty_core::collector::deny::DenyCollector;
use rustquty_core::collector::duplicates::DuplicatesCollector;
use rustquty_core::collector::fmt::FmtCollector;
use rustquty_core::collector::hack::HackCollector;
use rustquty_core::collector::loc::LocCollector;
use rustquty_core::collector::mutants::MutantsCollector;
use rustquty_core::collector::size::SizeCollector;
use rustquty_core::collector::tests::TestCollector;
use rustquty_core::collector::{is_scannable_rust_file, CollectorError, CollectorOutput, MockCollector};
use rustquty_core::context::Context;
use rustquty_core::json::{Decimal, Json};
use rustquty_core::schema::CollectorStatus;
use std::path::PathBuf;

fn obj(entries: Vec<(&str, Json)>) -> Json {
    Json::Object(entries.into_iter().map(|(k, v)| (k.to_string(), v)).collect())
}

fn text(s: &str) -> Json {
    Json::Str(s.to_string())
}

fn num(n: u64) -> Json {
    Json::UInt(n)
}

fn float(x: f64) -> Json {
    Json::Float(Decimal { micros: (x * 1_000_000.0).round() as i128 })
}

#[test]
fn test_fmt_collector_name() {
    let collector = FmtCollector::new();
    assert_eq!(collector.name(), "fmt");
}

#[test]
fn test_loc_collector_name() {
    let collector = LocCollector::new();
    assert_eq!(collector.name(), "loc");
}

#[test]
fn test_loc_collector_available() {
    let collector = LocCollector::new();
    assert!(collector.is_available());
}

#[test]
fn size_test_collector_name() {
    let collector = SizeCollector::new();
    assert_eq!(collector.name(), "size");
}

#[test]
fn size_test_collector_available() {
    let collector = SizeCollector::new();
    assert!(collector.is_available());
}

#[test]
fn complexity_test_collector_name() {
    assert_eq!(ComplexityCollector::new().name(), "complexity");
}

#[test]
fn complexity_test_collector_available() {
    assert!(ComplexityCollector::new().is_available());
}

#[test]
fn test_duplicates_collector_name() {
    let collector = DuplicatesCollector::new();
    assert_eq!(collector.name(), "duplicates");
}

#[test]
fn test_duplicates_collector_available() {
    let collector = DuplicatesCollector::new();
    assert!(collector.is_available());
}

#[test]
fn test_parse_feature_count() {
    let collector = HackCollector::new();
    let stderr = "Checking feature combinations...\nChecked 16 combinations";
    assert_eq!(collector.parse_feature_count(stderr), 16);
}

#[test]
fn feature_count_needs_the_word_combination() {
    let collector = HackCollector::new();
    assert_eq!(collector.parse_feature_count("Checked 16 features"), 0);
    assert_eq!(collector.parse_feature_count(""), 0);
}

#[test]
fn test_parse_test_output() {
    let collector = TestCollector::new();
    let output = "running 10 tests\ntest result: ok. 8 passed; 1 failed; 1 ignored";
    let (passed, failed, ignored) = collector.parse_test_output(output, "");
    assert_eq!(passed, 8);
    assert_eq!(failed, 1);
    assert_eq!(ignored, 1);
}

#[test]
fn test_parse_test_output_with_rustc_output() {
    let collector = TestCollector::new();
    let output = "test result: ok. 42 passed; 0 failed; 0 ignored";
    let (passed, failed, ignored) = collector.parse_test_output(output, "");
    assert_eq!(passed, 42);
    assert_eq!(failed, 0);
    assert_eq!(ignored, 0);
}

#[test]
fn test_counts_from_stderr_and_last_result_win() {
    let collector = TestCollector::new();
    let (passed, failed, ignored) = collector.parse_test_output(
        "test result: ok. 3 passed; 0 failed; 0 ignored",
        "test result: FAILED. 5 passed; 2 failed; 1 ignored",
    );
    assert_eq!((passed, failed, ignored), (5, 2, 1));
    assert_eq!(TestCollector::status_for(2), CollectorStatus::Fail);
    assert_eq!(TestCollector::status_for(0), CollectorStatus::Pass);
    assert_eq!(TestCollector::reported_stderr(true, "x"), "[runner: nextest] x");
    assert_eq!(TestCollector::reported_stderr(false, "x"), "x");
}

#[test]
fn test_parse_json_output_no_vulns() {
    let collector = AuditCollector::new();
    let json = r#"{"vulnerabilities":{"found":0,"list":[]}}"#;
    let (vuln, critical) = collector.parse_json_output(json);
    assert_eq!(vuln, 0);
    assert_eq!(critical, 0);
}

#[test]
fn test_parse_json_output_with_vulns() {
    let collector = AuditCollector::new();
    let json = r#"{"vulnerabilities":{"found":2,"list":[{"id":"RUSTSEC-0001","severity":"High"},{"id":"RUSTSEC-0002","severity":"critical"}]}}"#;
    let (vuln, critical) = collector.parse_json_output(json);
    assert_eq!(vuln, 2);
    assert_eq!(critical, 1);
}

#[test]
fn audit_output_that_is_not_json_counts_nothing() {
    let collector = AuditCollector::new();
    assert_eq!(collector.parse_json_output("error: no Cargo.lock"), (0, 0));
    assert_eq!(collector.read_parsed(None), (0, 0));
    assert_eq!(AuditCollector::status_for(1), CollectorStatus::Fail);
    assert_eq!(AuditCollector::status_for(0), CollectorStatus::Pass);
}

#[test]
fn test_parse_json_output_with_warnings() {
    let collector = ClippyCollector::new();
    let json_output = r#"{"message":"warning: unused variable: `x`","level":"warning","code":{"code":"unused_variables","explanation":"..."},"file":"src/main.rs","line":5}
{"message":"error: expected `,`, found `{`","level":"error","code":{"code":"parse_error","explanation":"..."},"file":"src/main.rs","line":10}
"#;
    let (count, lints) = collector.parse_json_output(json_output);
    assert_eq!(count, 2);
    assert_eq!(lints[0].code, "unused_variables");
    assert_eq!(lints[1].code, "parse_error");
    assert_eq!(lints[1].file.as_deref(), Some("src/main.rs"));
    assert_eq!(lints[1].line, Some(10));
}

#[test]
fn clippy_test_parse_json_output_empty() {
    let collector = ClippyCollector::new();
    let (count, lints) = collector.parse_json_output("");
    assert_eq!(count, 0);
    assert!(lints.is_empty());
}

#[test]
fn clippy_skips_notes_and_lines_without_code() {
    let collector = ClippyCollector::new();
    let output = "Compiling x v0.1.0\n\n{\"level\":\"note\",\"code\":{\"code\":\"x\"}}\n{\"level\":\"warning\"}\n{\"level\":\"warning\",\"code\":{\"code\":\"dead_code\"}}\n";
    let (count, lints) = collector.parse_json_output(output);
    assert_eq!(count, 1);
    assert_eq!(lints[0].code, "dead_code");
    assert_eq!(lints[0].message, "");
    assert_eq!(lints[0].file, None);
    assert_eq!(lints[0].line, None);
    let parsed = vec![None, Some(obj(vec![("level", text("error")), ("code", obj(vec![("code", text("E1"))]))]))];
    assert_eq!(collector.count_lints(&parsed).0, 1);
    assert_eq!(ClippyCollector::message_lines("a\n\n  \nb\n"), vec!["a".to_string(), "b".to_string()]);
    assert_eq!(ClippyCollector::status_for(true, 3), CollectorStatus::Pass);
    assert_eq!(ClippyCollector::status_for(false, 3), CollectorStatus::Fail);
    assert_eq!(ClippyCollector::status_for(false, 0), CollectorStatus::Error);
}

#[test]
fn test_parse_json_output() {
    let collector = CoverageCollector::new();
    let json = r#"{"lines":{"percent":87.5}}"#;
    assert_eq!(collector.parse_json_output(json).unwrap().micros, 87_500_000);
}

#[test]
fn test_parse_json_output_alternative_format() {
    let collector = CoverageCollector::new();
    let json = r#"{"totals":{"lines":{"percent":92.3}}}"#;
    assert_eq!(collector.parse_json_output(json).unwrap().micros, 92_300_000);
}

#[test]
fn coverage_test_parse_json_output_empty() {
    let collector = CoverageCollector::new();
    assert!(collector.parse_json_output("{}").is_none());
}

#[test]
fn test_parse_json_output_invalid() {
    let collector = CoverageCollector::new();
    assert!(collector.parse_json_output("not json").is_none());
}

#[test]
fn coverage_takes_whole_numbers_and_long_fractions() {
    let collector = CoverageCollector::new();
    assert_eq!(collector.parse_json_output(r#"{"lines":{"percent":100}}"#).unwrap().micros, 100_000_000);
    assert_eq!(
        collector.parse_json_output(r#"{"lines":{"percent":85.71428571428571}}"#).unwrap().micros,
        85_714_286
    );
    assert_eq!(collector.parse_json_output(r#"{"lines":{"percent":1.5e1}}"#).unwrap().micros, 15_000_000);
    let json = obj(vec![("lines", obj(vec![("percent", float(87.5))]))]);
    assert_eq!(collector.read_parsed(Some(&json)).unwrap().micros, 87_500_000);
    assert_eq!(CoverageCollector::status_for(false), CollectorStatus::Error);
}

#[test]
fn deny_test_parse_json_output_empty() {
    let collector = DenyCollector::new();
    let (banned, license) = collector.parse_json_output("{}");
    assert_eq!(banned, 0);
    assert_eq!(license, 0);
}

#[test]
fn deny_counts_banned_crates_and_license_violations() {
    let collector = DenyCollector::new();
    let json = r#"{"ban":{"list":[1,2,3]},"license":{"violations":["GPL"]}}"#;
    assert_eq!(collector.parse_json_output(json), (3, 1));
    assert_eq!(collector.parse_json_output("not json"), (0, 0));
}

#[test]
fn test_parse_outcomes() {
    let collector = MutantsCollector::new();
    let (score, caught, missed) = collector.parse_outcomes(r#"{"caught":80,"missed":20}"#).unwrap();
    assert_eq!(score.micros, 800_000);
    assert_eq!(caught, 80);
    assert_eq!(missed, 20);
}

#[test]
fn outcomes_that_are_not_json_are_a_parse_error() {
    let collector = MutantsCollector::new();
    let err = collector.parse_outcomes("caught=80").unwrap_err();
    assert!(matches!(err, CollectorError::ParseError(ref m) if !m.is_empty()));
}

#[test]
fn mutants_score_and_summary_line() {
    let collector = MutantsCollector::new();
    let (score, caught, missed) = collector.outcomes_of(&obj(vec![]));
    assert_eq!((score.micros, caught, missed), (0, 0, 0));
    let (score, _, _) = collector.outcomes_of(&obj(vec![("caught", num(2)), ("missed", num(1))]));
    assert_eq!(score.micros, 666_667);
    assert_eq!(
        MutantsCollector::summary_line(score, 2, 1),
        "mutation_score=0.667 caught=2 missed=1"
    );
}

#[test]
fn test_mock_collector() {
    let mock = MockCollector {
        name_val: "test",
        available: true,
        output: CollectorOutput {
            status: CollectorStatus::Pass,
            duration_ms: 10,
            stdout: String::new(),
            stderr: String::new(),
        },
    };
    assert_eq!(mock.name(), "test");
    assert!(mock.is_available());
    let out = mock.collect(&Context::new(PathBuf::from("/tmp"))).unwrap();
    assert_eq!(out.duration_ms, 10);
    assert_eq!(out.status, CollectorStatus::Pass);
}

#[test]
fn collector_error_messages() {
    assert_eq!(
        CollectorError::NotAvailable("cargo-deny".to_string()).message(),
        "collector not available: cargo-deny"
    );
    assert_eq!(CollectorError::IoError("gone".to_string()).message(), "I/O error: gone");
}

#[test]
fn scannable_files_are_rust_files_outside_build_dirs() {
    let parts = |xs: &[&str]| xs.iter().map(|x| x.to_string()).collect::<Vec<String>>();
    assert!(is_scannable_rust_file(true, Some("rs"), &parts(&["src", "lib.rs"]), 0));
    assert!(!is_scannable_rust_file(true, Some("rs"), &parts(&["target", "a.rs"]), 0));
    assert!(!is_scannable_rust_file(true, Some("rs"), &parts(&[".git", "a.rs"]), 0));
    assert!(!is_scannable_rust_file(true, Some("rs"), &parts(&["quality", "a.rs"]), 0));
    assert!(!is_scannable_rust_file(true, Some("toml"), &parts(&["Cargo.toml"]), 0));
    assert!(!is_scannable_rust_file(false, Some("rs"), &parts(&["src.rs"]), 0));
    assert!(!is_scannable_rust_file(true, None, &parts(&["Makefile"]), 0));
}

#[test]
fn a_workspace_inside_a_quality_folder_is_still_scanned() {
    let parts = |xs: &[&str]| xs.iter().map(|x| x.to_string()).collect::<Vec<String>>();
    let path = parts(&["/", "w", "quality", "proj", "src", "main.rs"]);
    assert!(is_scannable_rust_file(true, Some("rs"), &path, 4));
    let inside = parts(&["/", "w", "quality", "proj", "quality", "main.rs"]);
    assert!(!is_scannable_rust_file(true, Some("rs"), &inside, 4));
    assert!(!is_scannable_rust_file(true, Some("rs"), &path, 0));
}

fn duplicates_report() -> CollectorReport {
    CollectorReport {
        name: "duplicates".to_string(),
        status: CollectorStatus::Fail,
        details: Some(obj(vec![
            ("totalLines", num(20)),
            ("duplicateLines", num(12)),
            ("filesWithDuplicates", num(2)),
            ("duplicateFiles", Json::Array(vec![text("src/a.rs"), text("src/b.rs")])),
            (
                "duplicateBlocks",
                Json::Array(vec![obj(vec![
                    ("lines", num(6)),
                    ("tokens", num(100)),
                    (
                        "occurrences",
                        Json::Array(vec![
                            obj(vec![("file", text("src/a.rs")), ("startLine", num(1)), ("endLine", num(6))]),
                            obj(vec![("file", text("src/b.rs")), ("startLine", num(1)), ("endLine", num(6))]),
                        ]),
                    ),
                ])]),
            ),
            ("duplicateBlocksOmitted", num(3)),
        ])),
    }
}

fn loc_report() -> CollectorReport {
    CollectorReport {
        name: "loc".to_string(),
        status: CollectorStatus::Fail,
        details: Some(obj(vec![
            ("totalLines", num(20)),
            ("codeLines", num(18)),
            ("commentLines", num(1)),
            ("blankLines", num(1)),
            ("longLines", num(2)),
            ("maxLineLengthFound", num(140)),
            ("maxLineLengthAllowed", num(120)),
            ("files", num(2)),
            ("filesWithLongLines", num(1)),
            ("longLineFiles", Json::Array(vec![text("src/a.rs")])),
            (
                "longLineDetails",
                Json::Array(vec![obj(vec![
                    ("file", text("src/a.rs")),
                    ("line", num(10)),
                    ("length", num(140)),
                    ("threshold", num(120)),
                ])]),
            ),
            ("longLineDetailsOmitted", num(1)),
        ])),
    }
}

fn output(status: CollectorStatus, stdout: &str) -> CollectorOutput {
    CollectorOutput { status, duration_ms: 1, stdout: stdout.to_string(), stderr: String::new() }
}

#[test]
fn test_assemble_results_preserves_loc_and_duplicate_detail_fields() {
    let duplicates = output(
        CollectorStatus::Fail,
        r#"{"totalLines":20,"duplicateLines":12,"filesWithDuplicates":2,"duplicateFiles":["src/a.rs","src/b.rs"],"duplicateBlocks":[{"lines":6,"tokens":100,"occurrences":[{"file":"src/a.rs","startLine":1,"endLine":6},{"file":"src/b.rs","startLine":1,"endLine":6}]}],"duplicateBlocksOmitted":3}"#,
    );
    let loc = output(
        CollectorStatus::Fail,
        r#"{"totalLines":20,"codeLines":18,"commentLines":1,"blankLines":1,"longLines":2,"maxLineLengthFound":140,"maxLineLengthAllowed":120,"files":2,"filesWithLongLines":1,"longLineFiles":["src/a.rs"],"longLineDetails":[{"file":"src/a.rs","line":10,"length":140,"threshold":120}],"longLineDetailsOmitted":1}"#,
    );

    let summary = assemble_results(
        &vec![("duplicates".to_string(), duplicates), ("loc".to_string(), loc)],
        "project",
        "2024",
        "/tmp/project",
    ).unwrap();

    assert_eq!(summary.collectors.duplicates.duplicate_files.len(), 2);
    assert_eq!(summary.collectors.duplicates.duplicate_blocks.len(), 1);
    assert_eq!(summary.collectors.duplicates.duplicate_blocks_omitted, 3);
    assert_eq!(summary.collectors.loc.max_line_length_allowed, 120);
    assert_eq!(summary.collectors.loc.files_with_long_lines, 1);
    assert_eq!(summary.collectors.loc.long_line_files, vec!["src/a.rs"]);
    assert_eq!(summary.collectors.loc.long_line_details.len(), 1);
    assert_eq!(summary.collectors.loc.long_line_details_omitted, 1);
}

#[test]
fn outputs_that_are_not_json_keep_only_their_status() {
    let summary = assemble_results_at(
        &vec![
            ("mutants".to_string(), output(CollectorStatus::Pass, "mutation_score=0.800 caught=8 missed=2")),
            ("coverage".to_string(), output(CollectorStatus::Pass, r#"{"linePercent":81.25}"#)),
            ("tests".to_string(), output(CollectorStatus::Fail, "running 3 tests")),
        ],
        "p",
        "2021",
        "/w",
        "2026-01-01T00:00:00Z".to_string(),
    );
    let c = &summary.collectors;
    assert_eq!(c.mutants.status, CollectorStatus::Pass);
    assert_eq!(c.mutants.caught, 0);
    assert_eq!(c.coverage.line_percent.micros, 81_250_000);
    assert_eq!(c.tests.status, CollectorStatus::Fail);
    assert_eq!(c.tests.passed, 0);
    assert_eq!(summary.generated_at, "2026-01-01T00:00:00Z");
}

#[test]
fn assembled_summary_keeps_every_field_it_reads() {
    let clippy = CollectorReport {
        name: "clippy".to_string(),
        status: CollectorStatus::Fail,
        details: Some(obj(vec![
            ("warningCount", num(1)),
            (
                "details",
                Json::Array(vec![obj(vec![
                    ("code", text("dead_code")),
                    ("message", text("unused")),
                    ("file", text("src/x.rs")),
                    ("line", num(7)),
                ])]),
            ),
        ])),
    };
    let coverage = CollectorReport {
        name: "coverage".to_string(),
        status: CollectorStatus::Pass,
        details: Some(obj(vec![("linePercent", float(81.25))])),
    };
    let unknown = CollectorReport { name: "other".to_string(), status: CollectorStatus::Fail, details: None };
    let fmt = CollectorReport { name: "fmt".to_string(), status: CollectorStatus::Error, details: None };
    let summary = assemble_reports_at(
        &vec![clippy, coverage, unknown, fmt, duplicates_report()],
        "p",
        "2021",
        "/w",
        "2026-01-01T00:00:00Z".to_string(),
    );
    assert_eq!(summary.schema_version, "1");
    assert_eq!(summary.generated_at, "2026-01-01T00:00:00Z");
    assert_eq!(summary.rustquty_version, VERSION);
    assert_eq!(summary.project.name, "p");
    let c = &summary.collectors;
    assert_eq!(c.fmt.status, CollectorStatus::Error);
    assert_eq!(c.clippy.warning_count, 1);
    assert_eq!(c.clippy.details[0].file.as_deref(), Some("src/x.rs"));
    assert_eq!(c.clippy.details[0].line, Some(7));
    assert_eq!(c.coverage.line_percent.micros, 81_250_000);
    assert_eq!(c.duplicates.duplicate_blocks[0].occurrences[1].file, "src/b.rs");
    assert_eq!(c.duplicates.duplicate_blocks[0].tokens, 100);
    assert_eq!(c.tests.status, CollectorStatus::Skipped);
    assert_eq!(c.mutants.status, CollectorStatus::Skipped);
}

#[test]
fn a_later_report_without_json_keeps_the_earlier_figures() {
    let first = loc_report();
    let second = CollectorReport { name: "loc".to_string(), status: CollectorStatus::Pass, details: None };
    let summary = assemble_reports_at(&vec![first, second], "p", "2021", "/w", "t".to_string());
    assert_eq!(summary.collectors.loc.status, CollectorStatus::Pass);
    assert_eq!(summary.collectors.loc.total_lines, 20);
    assert_eq!(summary.collectors.loc.long_line_details.len(), 1);
}

#[test]
fn test_and_deny_details_reach_the_summary() {
    let counts = TestCollector::new().parse_test_output("test result: ok. 8 passed; 1 failed; 1 ignored", "");
    let tests = TestCollector::details(counts, "nextest");
    assert_eq!(tests.member("passed").as_u64(), Some(8));
    assert_eq!(tests.member("failed").as_u64(), Some(1));
    assert_eq!(tests.member("ignored").as_u64(), Some(1));
    assert_eq!(tests.member("runner").as_str().unwrap(), "nextest");
    let deny = DenyCollector::details(2, 3);
    let reports = vec![
        CollectorReport { name: "tests".to_string(), status: CollectorStatus::Fail, details: Some(tests) },
        CollectorReport { name: "deny".to_string(), status: CollectorStatus::Pass, details: Some(deny) },
    ];
    let summary = assemble_reports_at(&reports, "p", "2021", "/w", "t".to_string());
    let t = &summary.collectors.tests;
    assert_eq!((t.passed, t.failed, t.ignored), (8, 1, 1));
    assert_eq!(t.runner.as_deref(), Some("nextest"));
    assert_eq!(t.status, CollectorStatus::Fail);
    assert_eq!(summary.collectors.deny.banned_count, 2);
    assert_eq!(summary.collectors.deny.license_violations, 3);
}
