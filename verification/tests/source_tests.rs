use rustquty_core::collector::size::FunctionInfo;
use rustquty_core::collector::source::{extract_functions, parsed_fn_items, tokenize_source};

fn functions(content: &str) -> Vec<FunctionInfo> {
    extract_functions(content, "test.rs").unwrap()
}

#[test]
fn test_detect_free_function() {
    let content = "fn free_function(a: i32, b: String) -> bool {\n    true\n}";
    let functions = functions(content);
    assert_eq!(functions.len(), 1);
    assert_eq!(functions[0].name, "free_function");
    assert_eq!(functions[0].param_count, 2);
    assert!(functions[0].total_lines >= 3);
}

#[test]
fn size_test_detect_method_in_impl() {
    let content = r#"
impl Foo {
    fn method(&self, x: i32) -> i32 {
        x
    }
}
"#;
    let functions = functions(content);
    assert_eq!(functions.len(), 1);
    assert_eq!(functions[0].name, "method");
    assert_eq!(functions[0].param_count, 2); // &self, x
}

#[test]
fn size_test_detect_async_fn() {
    let content = "async fn async_main() {\n    println!(\"hello\");\n}";
    let functions = functions(content);
    assert_eq!(functions.len(), 1);
    assert_eq!(functions[0].name, "async_main");
}

#[test]
fn test_detect_unsafe_fn() {
    let content = "unsafe fn unsafe_read(ptr: *const i32) -> i32 {\n    *ptr\n}";
    let functions = functions(content);
    assert_eq!(functions.len(), 1);
    assert_eq!(functions[0].name, "unsafe_read");
    assert_eq!(functions[0].param_count, 1);
}

#[test]
fn test_parameter_count_free_function() {
    let content = "fn three_params(a: i32, b: i32, c: i32) -> i32 {\n    a + b + c\n}";
    let functions = functions(content);
    assert_eq!(functions[0].param_count, 3);
}

#[test]
fn test_parameter_count_with_self() {
    let content = "impl Bar {\n    fn with_self(&self, x: usize) -> usize {\n        x\n    }\n}";
    let functions = functions(content);
    assert_eq!(functions[0].param_count, 2); // &self, x
}

#[test]
fn test_multiple_functions_same_name() {
    let content = r#"
impl Foo {
    fn bar(x: i32) -> i32 { x }
}
impl Baz {
    fn bar(y: i32) -> i32 { y }
}
"#;
    let functions = functions(content);
    assert_eq!(functions.len(), 2);
}

#[test]
fn free_functions_come_before_methods_with_their_spans() {
    let content = "impl A {\n    fn m(&self) {}\n}\nfn f() {\n}\n";
    let functions = functions(content);
    assert_eq!(functions.len(), 2);
    assert_eq!(functions[0].name, "f");
    assert_eq!((functions[0].start_line, functions[0].end_line, functions[0].total_lines), (4, 5, 2));
    assert_eq!(functions[0].file, "test.rs");
    assert_eq!(functions[1].name, "m");
    assert_eq!((functions[1].start_line, functions[1].end_line, functions[1].total_lines), (2, 2, 1));
}

#[test]
fn text_that_does_not_parse_has_no_functions() {
    assert_eq!(functions("fn f( {").len(), 0);
}

#[test]
fn tokens_are_normalized_with_their_lines() {
    let tokens = tokenize_source("fn f(a: u8) {\n    a += 1;\n}");
    let texts: Vec<&str> = tokens.iter().map(|t| t.normalized.as_str()).collect();
    assert_eq!(
        texts,
        vec![
            "ident:fn", "ident:f", "(", "ident:a", "punct:::Alone", "ident:u8", ")", "{",
            "ident:a", "punct:+:Joint", "punct:=:Alone", "literal:1", "punct:;:Alone", "}",
        ]
    );
    let lines: Vec<u32> = tokens.iter().map(|t| t.line).collect();
    assert_eq!(lines, vec![1, 1, 1, 1, 1, 1, 1, 1, 2, 2, 2, 2, 2, 3]);
}

#[test]
fn comments_and_whitespace_leave_no_tokens() {
    let a = tokenize_source("let x = 1; // one\n/* two */");
    let b = tokenize_source("let   x=1;");
    let ta: Vec<&str> = a.iter().map(|t| t.normalized.as_str()).collect();
    let tb: Vec<&str> = b.iter().map(|t| t.normalized.as_str()).collect();
    assert_eq!(ta, tb);
}

#[test]
fn text_that_does_not_lex_has_no_tokens() {
    assert!(tokenize_source("fn f( {").is_empty());
}

#[test]
fn only_functions_and_methods_are_function_items() {
    let content = "struct S;\nconst C: u8 = 1;\nimpl S {\n    const K: u8 = 2;\n    fn m(&self) {}\n    type T = u8;\n}\nfn f() {}\n";
    let items = parsed_fn_items(content).unwrap();
    assert_eq!(items.len(), 2);
    assert_eq!((items[0].name.as_str(), items[0].method), ("m", true));
    assert_eq!((items[1].name.as_str(), items[1].method), ("f", false));
    assert!(parsed_fn_items("fn f( {").is_none());
}
