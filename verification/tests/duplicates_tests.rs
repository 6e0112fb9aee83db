use rustquty_core::collector::duplicates::{
    count_duplicate_lines, find_duplicate_intervals, merge_token_intervals, DuplicatesCollector, TokenFile,
    TokenInfo, TokenInterval,
};
use rustquty_core::collector::source::tokenize_source;
use rustquty_core::json::Json;
use rustquty_core::schema::CollectorStatus;

/// The tokens of a function of `lines` lines, each line holding the
/// same statement with its own number.
fn block_tokens(first_line: u32, lines: u32) -> Vec<TokenInfo> {
    let mut tokens = Vec::new();
    for i in 0..lines {
        for t in ["ident:total", "punct:+:Joint", "punct:=:Alone", "ident:items", "punct:;:Alone"] {
            tokens.push(TokenInfo { normalized: t.to_string(), line: first_line + i });
        }
        tokens.push(TokenInfo { normalized: format!("literal:{i}"), line: first_line + i });
    }
    tokens
}

fn file(path: &str, total_lines: u32, tokens: Vec<TokenInfo>) -> TokenFile {
    TokenFile { path: path.to_string(), total_lines, tokens }
}

fn count(j: &Json, key: &str) -> u64 {
    j.member(key).as_u64().unwrap()
}

#[test]
fn short_files_have_no_duplicates() {
    let tokens = vec![
        TokenInfo { normalized: "punct:#:Alone".to_string(), line: 2 },
        TokenInfo { normalized: "[".to_string(), line: 2 },
        TokenInfo { normalized: "ident:test".to_string(), line: 2 },
        TokenInfo { normalized: "]".to_string(), line: 2 },
    ];
    let (status, details) = DuplicatesCollector::new().analyze(&vec![file("src/lib.rs", 11, tokens)]).unwrap();
    assert_eq!(status, CollectorStatus::Pass);
    assert_eq!(count(&details, "duplicateLines"), 0);
    assert_eq!(count(&details, "filesWithDuplicates"), 0);
    assert_eq!(count(&details, "totalLines"), 11);
}

#[test]
fn identical_files_are_duplicates() {
    let a = file("src/a.rs", 40, block_tokens(1, 38));
    let b = file("src/b.rs", 40, block_tokens(1, 38));
    let (status, details) = DuplicatesCollector::new().analyze(&vec![a, b]).unwrap();
    assert_eq!(status, CollectorStatus::Fail);
    assert!(count(&details, "duplicateLines") >= 12);
    assert!(count(&details, "duplicateLines") <= count(&details, "totalLines"));
    assert_eq!(count(&details, "filesWithDuplicates"), 2);
    let files = details.member("duplicateFiles").as_array().unwrap();
    assert_eq!(files[0].as_str().unwrap(), "src/a.rs");
    let blocks = details.member("duplicateBlocks").as_array().unwrap();
    assert_eq!(blocks.len(), 1);
    let occurrences = blocks[0].member("occurrences").as_array().unwrap();
    assert_eq!(occurrences.len(), 2);
    assert_eq!(occurrences[1].member("file").as_str().unwrap(), "src/b.rs");
    assert_eq!(count(&blocks[0], "lines"), 38);
    assert_eq!(count(&blocks[0], "tokens"), 228);
    assert_eq!(count(&details, "duplicateBlocksOmitted"), 0);
}

#[test]
fn a_block_twice_in_one_file_is_a_duplicate() {
    let mut tokens = block_tokens(1, 38);
    tokens.extend(block_tokens(40, 38));
    let (_, details) = DuplicatesCollector::new().analyze(&vec![file("src/lib.rs", 80, tokens)]).unwrap();
    assert!(count(&details, "duplicateLines") > 0);
    assert_eq!(count(&details, "filesWithDuplicates"), 1);
}

#[test]
fn overlapping_repeats_alone_are_no_duplicates() {
    // 150 equal tokens, one per line: every window of 100 overlaps every
    // other one.
    let tokens: Vec<TokenInfo> =
        (1..=150).map(|l| TokenInfo { normalized: "punct:;:Alone".to_string(), line: l }).collect();
    let intervals = find_duplicate_intervals(&vec![file("src/x.rs", 150, tokens.clone())]);
    assert!(intervals[0].is_empty());
    // With 200 of them, the first and the last window no longer overlap.
    let tokens: Vec<TokenInfo> =
        (1..=200).map(|l| TokenInfo { normalized: "punct:;:Alone".to_string(), line: l }).collect();
    let intervals = find_duplicate_intervals(&vec![file("src/x.rs", 200, tokens)]);
    assert_eq!(intervals[0], vec![TokenInterval { start_token: 0, end_token: 200 }]);
}

#[test]
fn intervals_are_sorted_and_merged() {
    let mut ivs = vec![
        TokenInterval { start_token: 5, end_token: 10 },
        TokenInterval { start_token: 0, end_token: 3 },
        TokenInterval { start_token: 3, end_token: 4 },
        TokenInterval { start_token: 12, end_token: 20 },
        TokenInterval { start_token: 8, end_token: 15 },
    ];
    merge_token_intervals(&mut ivs);
    assert_eq!(
        ivs,
        vec![
            TokenInterval { start_token: 0, end_token: 4 },
            TokenInterval { start_token: 5, end_token: 20 },
        ]
    );
}

#[test]
fn touching_line_intervals_are_counted_once() {
    let tokens: Vec<TokenInfo> =
        (1..=30).map(|l| TokenInfo { normalized: "ident:x".to_string(), line: l }).collect();
    let f = file("src/x.rs", 30, tokens);
    // Tokens 0..5 are lines 1-5, 5..10 lines 6-10, 20..25 lines 21-25.
    let ivs = vec![vec![
        TokenInterval { start_token: 20, end_token: 25 },
        TokenInterval { start_token: 0, end_token: 5 },
        TokenInterval { start_token: 5, end_token: 10 },
    ]];
    assert_eq!(count_duplicate_lines(&vec![f], &ivs), Some(15));
}

// The scenarios below start from source text, tokenized by the library.

fn run_on_files(files: &[(&str, &str)]) -> Json {
    let token_files: Vec<TokenFile> = files
        .iter()
        .map(|(path, content)| {
            file(path, content.lines().count() as u32, tokenize_source(content))
        })
        .collect();
    DuplicatesCollector::new().analyze(&token_files).unwrap().1
}

fn duplicated_block(name: &str, comments: bool) -> String {
    let mut block = format!("pub fn {name}() -> usize {{\n");
    block.push_str("    let mut total = 0usize;\n");
    for idx in 0..36 {
        if comments && idx % 8 == 0 {
            block.push_str("    // intentionally ignored by token duplicate detection\n");
        }
        block.push_str(&format!("    total += items::{idx}().unwrap_or({idx});\n"));
    }
    block.push_str("    total\n}\n");
    block
}

#[test]
fn test_common_punctuation_is_not_duplicate_code() {
    let details = run_on_files(&[(
        "src/lib.rs",
        r#"
#[test]
fn first() {
    assert_eq!(1, 1);
}

#[test]
fn second() {
    assert_eq!(2, 2);
}
"#,
    )]);
    assert_eq!(count(&details, "duplicateLines"), 0);
    assert_eq!(count(&details, "filesWithDuplicates"), 0);
}

#[test]
fn test_detects_duplicate_token_blocks_across_files() {
    let block = duplicated_block("parse_config", false);
    let details = run_on_files(&[("src/a.rs", &block), ("src/b.rs", &block)]);
    assert!(count(&details, "duplicateLines") >= 12);
    assert_eq!(count(&details, "filesWithDuplicates"), 2);
    assert!(!details.member("duplicateBlocks").as_array().unwrap().is_empty());
}

#[test]
fn test_duplicate_detection_ignores_whitespace_and_comments() {
    let first = duplicated_block("parse_config", false);
    let second = duplicated_block("parse_config", true).replace("    ", "        ");
    let details = run_on_files(&[("src/a.rs", &first), ("src/b.rs", &second)]);
    assert!(count(&details, "duplicateLines") > 0);
}

#[test]
fn test_detects_same_file_non_overlapping_blocks() {
    let block = duplicated_block("parse_config", false);
    let content = format!("{block}\n{block}");
    let details = run_on_files(&[("src/lib.rs", &content)]);
    assert!(count(&details, "duplicateLines") > 0);
    assert_eq!(count(&details, "filesWithDuplicates"), 1);
}

#[test]
fn test_duplicate_line_count_does_not_exceed_total_lines() {
    let block = duplicated_block("parse_config", false);
    let details = run_on_files(&[("src/a.rs", &block), ("src/b.rs", &block)]);
    assert!(count(&details, "duplicateLines") <= count(&details, "totalLines"));
}

#[test]
fn files_without_an_interval_list_count_no_duplicate_lines() {
    let tokens: Vec<TokenInfo> =
        (1..=10).map(|l| TokenInfo { normalized: "ident:x".to_string(), line: l }).collect();
    let a = file("src/a.rs", 10, tokens.clone());
    let b = file("src/b.rs", 10, tokens);
    let ivs = vec![vec![TokenInterval { start_token: 0, end_token: 5 }]];
    assert_eq!(count_duplicate_lines(&vec![a, b], &ivs), Some(5));
}

#[test]
fn every_listed_block_occurs_twice_over_enough_lines() {
    let block = duplicated_block("parse_config", false);
    let details = run_on_files(&[("src/a.rs", &block), ("src/b.rs", &block), ("src/c.rs", "fn x() {}")]);
    assert!(count(&details, "filesWithDuplicates") <= 3);
    let blocks = details.member("duplicateBlocks").as_array().unwrap();
    assert!(!blocks.is_empty() && blocks.len() <= 100);
    for b in blocks {
        assert!(b.member("occurrences").as_array().unwrap().len() >= 2);
        assert!(b.member("lines").as_u64().unwrap() >= 6);
    }
}
