use rustquty_core::collector::assemble::{assemble_reports_at, CollectorReport};
use rustquty_core::collector::loc::LocCollector;
use rustquty_core::collector::SourceFile;
use rustquty_core::config::LocConfig;
use rustquty_core::json::Json;
use rustquty_core::schema::CollectorStatus;

fn member<'a>(j: &'a Json, key: &str) -> &'a Json {
    j.member(key)
}

fn count(j: &Json, key: &str) -> u64 {
    j.member(key).as_u64().unwrap()
}

fn run_on_content(content: &str) -> (CollectorStatus, Json) {
    let files = vec![SourceFile { name: "test.rs".to_string(), content: content.to_string() }];
    LocCollector::new().analyze(&files)
}

fn run_on_content_with_threshold(content: &str, max_line_length: usize) -> (CollectorStatus, Json) {
    let files = vec![SourceFile { name: "test.rs".to_string(), content: content.to_string() }];
    LocCollector::with_config(LocConfig { max_line_length: Some(max_line_length) }).analyze(&files)
}

#[test]
fn test_block_comment_lines_counted_as_code() {
    let content = "/* block start\n   inside block\n   still inside\n*/\nfn main() {}";
    let (_, details) = run_on_content(content);
    assert_eq!(count(&details, "commentLines"), 4, "Block comment interior lines should be counted as comments");
    assert_eq!(count(&details, "codeLines"), 1, "Only 'fn main() {{}}' should be code, not block comment lines");
}

#[test]
fn test_single_line_block_comment() {
    let (_, details) = run_on_content("/* single line comment */\nfn main() {}");
    assert_eq!(count(&details, "commentLines"), 1);
    assert_eq!(count(&details, "codeLines"), 1);
}

#[test]
fn test_mixed_comments() {
    let (_, details) = run_on_content("// line comment\nfn main() {}\n/* block\n   interior\n*/");
    assert_eq!(count(&details, "commentLines"), 4, "Block comment interior should be counted as comments");
    assert_eq!(count(&details, "codeLines"), 1);
}

#[test]
fn test_loc_regression_block_comment_at_eof() {
    let (_, details) = run_on_content("fn main() {}\n/* comment\n   interior */");
    assert_eq!(count(&details, "commentLines"), 2);
    assert_eq!(count(&details, "codeLines"), 1);
}

#[test]
fn test_loc_regression_code_before_and_after_block() {
    let (_, details) = run_on_content("fn first() {}\n/* block\n   inside\n*/\nfn second() {}");
    assert_eq!(count(&details, "commentLines"), 3);
    assert_eq!(count(&details, "codeLines"), 2);
}

#[test]
fn test_loc_regression_empty_block_comment() {
    let (_, details) = run_on_content("/**/\nfn main() {}");
    assert_eq!(count(&details, "commentLines"), 1);
    assert_eq!(count(&details, "codeLines"), 1);
}

#[test]
fn test_loc_regression_single_line_block_with_code() {
    let (_, details) = run_on_content("let x = 1; /* inline */ let y = 2;");
    assert_eq!(count(&details, "codeLines"), 1);
}

#[test]
fn test_loc_regression_multiple_block_comments() {
    let (_, details) = run_on_content("/* first\n   inside\n*/\nfn main() {}\n/* second\n   inside\n*/");
    assert_eq!(count(&details, "commentLines"), 6);
    assert_eq!(count(&details, "codeLines"), 1);
}

#[test]
fn test_loc_regression_blank_lines_not_miscounted() {
    let (_, details) = run_on_content("/* start\n\n   after blank\n*/\nfn main() {}");
    assert_eq!(count(&details, "blankLines"), 1);
    assert_eq!(count(&details, "commentLines"), 3);
    assert_eq!(count(&details, "codeLines"), 1);
}

#[test]
fn test_loc_regression_doc_comments_counted() {
    let (_, details) = run_on_content("/// doc\n//! inner\nfn main() {}");
    assert_eq!(count(&details, "commentLines"), 2);
    assert_eq!(count(&details, "codeLines"), 1);
}

#[test]
fn test_loc_configured_max_line_length_and_details() {
    let content = "fn main() {}\nlet very_long_value = \"abcdef\";\n";
    let (status, details) = run_on_content_with_threshold(content, 20);
    assert_eq!(count(&details, "longLines"), 1);
    assert_eq!(count(&details, "maxLineLengthAllowed"), 20);
    assert_eq!(count(&details, "filesWithLongLines"), 1);
    assert_eq!(member(&details, "longLineFiles").as_array().unwrap().len(), 1);
    let first = &member(&details, "longLineDetails").as_array().unwrap()[0];
    assert_eq!(first.member("file").as_str().unwrap(), "test.rs");
    assert_eq!(count(first, "line"), 2);
    assert!(count(first, "length") > 20);
    assert_eq!(count(first, "threshold"), 20);
    assert_eq!(status, CollectorStatus::Fail);
}

#[test]
fn every_line_has_one_kind_and_lengths_are_bytes() {
    // "é" and "ö" take two bytes each, so the second line is 16 bytes long.
    let content = "fn a() {}\r\n// héllo wörld\n\n  \n";
    let (status, details) = run_on_content(content);
    assert_eq!(count(&details, "totalLines"), 4);
    assert_eq!(count(&details, "codeLines"), 1);
    assert_eq!(count(&details, "commentLines"), 1);
    assert_eq!(count(&details, "blankLines"), 2);
    assert_eq!(count(&details, "maxLineLengthFound"), 16);
    assert_eq!(count(&details, "maxLineLengthAllowed"), 120);
    assert_eq!(count(&details, "files"), 1);
    assert_eq!(status, CollectorStatus::Pass);
}

#[test]
fn long_line_details_stop_at_the_cap() {
    let long = "x".repeat(130);
    let content = vec![long.as_str(); 205].join("\n");
    let files = vec![
        SourceFile { name: "a.rs".to_string(), content: content.clone() },
        SourceFile { name: "b.rs".to_string(), content: "fn b() {}".to_string() },
    ];
    let (status, details) = LocCollector::new().analyze(&files);
    assert_eq!(status, CollectorStatus::Fail);
    assert_eq!(count(&details, "longLines"), 205);
    assert_eq!(member(&details, "longLineDetails").as_array().unwrap().len(), 200);
    assert_eq!(count(&details, "longLineDetailsOmitted"), 5);
    assert_eq!(count(&details, "files"), 2);
    assert_eq!(count(&details, "filesWithLongLines"), 1);
}

#[test]
fn no_files_give_zero_counts() {
    let (status, details) = LocCollector::new().analyze(&vec![]);
    assert_eq!(status, CollectorStatus::Pass);
    assert_eq!(count(&details, "totalLines"), 0);
    assert_eq!(LocCollector::default().max_line_length, 120);
}

#[test]
fn loc_report_survives_assembly() {
    let content = "// note\nfn main() {}\n\nlet very_long_value = \"abcdef\";\n";
    let (status, details) = run_on_content_with_threshold(content, 20);
    let report = CollectorReport { name: "loc".to_string(), status, details: Some(details) };
    let summary = assemble_reports_at(&vec![report], "p", "2021", "/w", "t".to_string());
    let loc = &summary.collectors.loc;
    assert_eq!(loc.status, CollectorStatus::Fail);
    assert_eq!(loc.total_lines, 4);
    assert_eq!(loc.code_lines, 2);
    assert_eq!(loc.comment_lines, 1);
    assert_eq!(loc.blank_lines, 1);
    assert_eq!(loc.long_lines, 1);
    assert_eq!(loc.max_line_length_allowed, 20);
    assert_eq!(loc.max_line_length_found, 31);
    assert_eq!(loc.files, 1);
    assert_eq!(loc.files_with_long_lines, 1);
    assert_eq!(loc.long_line_files, vec!["test.rs".to_string()]);
    assert_eq!(loc.long_line_details.len(), 1);
    assert_eq!(loc.long_line_details[0].file, "test.rs");
    assert_eq!(loc.long_line_details[0].line, 4);
    assert_eq!(loc.long_line_details[0].length, 31);
    assert_eq!(loc.long_line_details[0].threshold, 20);
    assert_eq!(loc.long_line_details_omitted, 0);
}

#[test]
fn long_lines_past_the_cap_are_counted_as_omitted() {
    let content = vec!["xxxxxxxxxx"; 203].join("\n");
    let (status, details) = run_on_content_with_threshold(&content, 5);
    assert_eq!(status, CollectorStatus::Fail);
    assert_eq!(count(&details, "longLines"), 203);
    let listed = member(&details, "longLineDetails").as_array().unwrap();
    assert_eq!(listed.len(), 200);
    assert_eq!(count(&details, "longLineDetailsOmitted"), 3);
    assert!(listed.iter().all(|d| d.member("length").as_u64().unwrap() > 5));
}
