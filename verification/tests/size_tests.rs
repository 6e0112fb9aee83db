use rustquty_core::collector::size::{count_code_lines, count_total_lines, FunctionInfo, SizeCollector, SizeFile};
use rustquty_core::config::SizeConfig;
use rustquty_core::json::Json;
use rustquty_core::schema::CollectorStatus;

fn file(content: &str, functions: Vec<FunctionInfo>) -> SizeFile {
    SizeFile { name: "test.rs".to_string(), content: Some(content.to_string()), functions }
}

fn function(name: &str, start: u32, end: u32, params: usize) -> FunctionInfo {
    FunctionInfo::from_span(name.to_string(), "test.rs".to_string(), start, end, params)
}

fn violations(details: &Json) -> &Vec<Json> {
    details.member("violations").as_array().unwrap()
}

#[test]
fn test_count_total_lines_empty() {
    assert_eq!(count_total_lines(""), 0);
}

#[test]
fn test_count_total_lines_single_line() {
    assert_eq!(count_total_lines("fn main() {}"), 1);
}

#[test]
fn test_count_total_lines_multiple_lines() {
    let content = "fn main() {\n    println!(\"hello\");\n}";
    assert_eq!(count_total_lines(content), 3);
}

#[test]
fn test_count_code_lines_simple() {
    let content = "fn main() {\n\n\n}";
    assert_eq!(count_code_lines(content), 2);
}

#[test]
fn test_count_code_lines_with_comments() {
    let content = "// comment\nfn main() {}\n/* block */";
    assert_eq!(count_code_lines(content), 1);
}

#[test]
fn test_count_code_lines_with_doc_comments() {
    let content = "/// doc comment\n//! inner doc\nfn main() {}\n/* multi\n   line */";
    assert_eq!(count_code_lines(content), 1);
}

#[test]
fn test_collector_reports_total_lines() {
    let content = "fn main() {\n    let x = 1;\n    let y = 2;\n}";
    let (_, details) = SizeCollector::new().analyze(&vec![file(content, vec![function("main", 1, 4, 0)])]);
    assert_eq!(details.member("files").as_u64(), Some(1));
    assert_eq!(details.member("maxLinesPerFile").as_u64(), Some(4));
}

#[test]
fn test_collector_reports_code_lines() {
    let content = "// comment\n\nfn main() {\n    let x = 1;\n}";
    let (_, details) = SizeCollector::new().analyze(&vec![file(content, vec![function("main", 3, 5, 0)])]);
    assert!(details.member("maxCodeLinesPerFile").as_u64().unwrap() >= 3);
}

#[test]
fn test_violation_max_lines_per_file() {
    let mut collector = SizeCollector::new();
    collector.config.max_lines_per_file = Some(5);

    let five = "fn main() {\n    let a = 1;\n    let b = 2;\n    let c = 3;\n}";
    let (_, details) = collector.analyze(&vec![file(five, vec![function("main", 1, 5, 0)])]);
    assert_eq!(violations(&details).len(), 0);
    assert_eq!(details.member("maxLinesPerFile").as_u64(), Some(5));

    let six = "fn main() {\n    let a = 1;\n    let b = 2;\n    let c = 3;\n    let d = 4;\n}";
    let (_, details2) = collector.analyze(&vec![file(six, vec![function("main", 1, 6, 0)])]);
    assert_eq!(violations(&details2).len(), 1);
    assert_eq!(violations(&details2)[0].member("ruleId").as_str().unwrap(), "size:max-lines-per-file");
}

#[test]
fn test_violation_max_code_lines_per_file() {
    let mut collector = SizeCollector::new();
    collector.config.max_code_lines_per_file = Some(3);
    let content = "// comment line 1\n// comment line 2\nfn main() {\n    let a = 1;\n    let b = 2;\n    let c = 3;\n}";
    let (_, details) = collector.analyze(&vec![file(content, vec![function("main", 3, 7, 0)])]);
    assert_eq!(violations(&details).len(), 1);
    assert_eq!(violations(&details)[0].member("ruleId").as_str().unwrap(), "size:max-code-lines-per-file");
}

#[test]
fn test_violation_max_lines_per_function() {
    let mut collector = SizeCollector::new();
    collector.config.max_lines_per_function = Some(3);
    let content = "fn short() {\n    1;\n}\n\nfn longer() {\n    1;\n    2;\n    3;\n    4;\n}";
    let fns = vec![function("short", 1, 3, 0), function("longer", 5, 10, 0)];
    let (_, details) = collector.analyze(&vec![file(content, fns)]);
    let v = violations(&details);
    assert_eq!(v.len(), 1);
    assert_eq!(v[0].member("ruleId").as_str().unwrap(), "size:max-lines-per-function");
    assert_eq!(v[0].member("function").as_str().unwrap(), "longer");
}

#[test]
fn test_violation_max_parameters_per_function() {
    let mut collector = SizeCollector::new();
    collector.config.max_parameters_per_function = Some(2);
    let content = "fn two_params(a: i32, b: i32) {}\n\nfn three_params(a: i32, b: i32, c: i32) {}";
    let fns = vec![function("two_params", 1, 1, 2), function("three_params", 3, 3, 3)];
    let (_, details) = collector.analyze(&vec![file(content, fns)]);
    let v = violations(&details);
    assert_eq!(v.len(), 1);
    assert_eq!(v[0].member("ruleId").as_str().unwrap(), "size:max-parameters-per-function");
    assert_eq!(v[0].member("function").as_str().unwrap(), "three_params");
}

#[test]
fn size_test_no_config_no_violations() {
    let content = "fn huge_function(a: i32, b: i32, c: i32, d: i32, e: i32, f: i32, g: i32) {\n    1;\n    2;\n    3;\n    4;\n    5;\n    6;\n    7;\n    8;\n    9;\n    10;\n}";
    let (status, details) = SizeCollector::new().analyze(&vec![file(content, vec![function("huge_function", 1, 12, 7)])]);
    assert_eq!(violations(&details).len(), 0);
    assert_eq!(status, CollectorStatus::Pass);
}

#[test]
fn size_violation_messages_and_fields() {
    let collector = SizeCollector::with_config(SizeConfig {
        max_lines_per_file: Some(1),
        max_code_lines_per_file: None,
        max_lines_per_function: Some(1),
        max_parameters_per_function: None,
    });
    let content = "fn f(a: u8) {\n}\n";
    let (status, details) = collector.analyze(&vec![file(content, vec![function("f", 1, 2, 1)])]);
    assert_eq!(status, CollectorStatus::Fail);
    let v = violations(&details);
    assert_eq!(v.len(), 2);
    assert_eq!(v[0].member("message").as_str().unwrap(), "File has 2 lines; maximum allowed is 1");
    assert_eq!(v[0].member("line").as_u64(), Some(1));
    assert!(matches!(v[0].member("function"), Json::Null));
    assert_eq!(v[0].member("severity").as_str().unwrap(), "major");
    assert_eq!(v[1].member("message").as_str().unwrap(), "Function `f` has 2 lines; maximum allowed is 1");
    assert_eq!(v[1].member("actual").as_u64(), Some(2));
    assert_eq!(v[1].member("threshold").as_u64(), Some(1));
    assert_eq!(details.member("maxLinesPerFunction").as_u64(), Some(2));
    assert_eq!(details.member("maxParametersPerFunction").as_u64(), Some(1));
}

#[test]
fn unreadable_files_are_counted_but_not_measured() {
    let files = vec![SizeFile { name: "x.rs".to_string(), content: None, functions: vec![] }];
    let (_, details) = SizeCollector::new().analyze(&files);
    assert_eq!(details.member("files").as_u64(), Some(1));
    assert_eq!(details.member("maxLinesPerFile").as_u64(), Some(0));
}

#[test]
fn function_length_from_its_span() {
    assert_eq!(function("f", 3, 7, 0).total_lines, 5);
    assert_eq!(function("f", 4, 4, 0).total_lines, 1);
    assert_eq!(function("f", 9, 2, 0).total_lines, 1);
}

#[test]
fn block_comment_interiors_are_not_code() {
    assert_eq!(count_code_lines("/* start\n   interior\n*/\nfn main() {}"), 1);
    assert_eq!(count_code_lines("fn first() {}\n/* block\n   inside\n*/\nfn second() {}"), 2);
    assert_eq!(count_code_lines("/* one line */\nlet x = 1;"), 1);
}

#[test]
fn every_size_violation_exceeds_a_set_limit() {
    let config = SizeConfig {
        max_lines_per_file: Some(2),
        max_code_lines_per_file: Some(1),
        max_lines_per_function: Some(1),
        max_parameters_per_function: Some(0),
    };
    let collector = SizeCollector::with_config(config);
    let content = "fn f(a: u8) {\n    a;\n}";
    let (status, details) = collector.analyze(&vec![file(content, vec![function("f", 1, 3, 1)])]);
    assert_eq!(status, CollectorStatus::Fail);
    let v = violations(&details);
    assert_eq!(v.len(), 4);
    assert!(v.iter().all(|x| x.member("actual").as_u64() > x.member("threshold").as_u64()));
    let (status, details) = SizeCollector::new().analyze(&vec![file(content, vec![function("f", 1, 3, 1)])]);
    assert_eq!(status, CollectorStatus::Pass);
    assert_eq!(violations(&details).len(), 0);
}
