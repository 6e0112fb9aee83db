use rustquty_core::collector::complexity::{
    complexity_fits, measure_function, ComplexityCollector, ExprKind, ExprNode, FunctionTree,
};
use rustquty_core::config::ComplexityConfig;
use rustquty_core::json::Json;
use rustquty_core::schema::CollectorStatus;

fn leaf() -> ExprNode {
    ExprNode { kind: ExprKind::Other, children: vec![] }
}

fn node(kind: ExprKind, children: Vec<ExprNode>) -> ExprNode {
    ExprNode { kind, children }
}

/// `x > 0`: a comparison of two leaves.
fn comparison() -> ExprNode {
    node(ExprKind::Other, vec![leaf(), leaf()])
}

fn function(name: &str, body: Vec<ExprNode>) -> FunctionTree {
    FunctionTree { name: name.to_string(), file: "test.rs".to_string(), start_line: 1, body }
}

fn cc(body: Vec<ExprNode>) -> u32 {
    measure_function(&function("f", body)).cyclomatic_complexity
}

fn depth(body: Vec<ExprNode>) -> u32 {
    measure_function(&function("f", body)).nesting_depth
}

// The bodies below are the expression trees of the sources quoted above
// each test: one node per expression the walk visits, a macro call
// contributing none.

/// `{}` or a path, literal or `break`: an expression with nothing under it.
fn empty_block() -> ExprNode {
    leaf()
}

/// `println!(..);` inside a block: a macro, of which nothing is visited.
fn println_stmt() -> Vec<ExprNode> {
    vec![]
}

#[test]
fn test_empty_function_has_complexity_one() {
    // fn empty() {}
    let f = measure_function(&function("empty", vec![]));
    assert_eq!(f.cyclomatic_complexity, 1);
    assert_eq!(f.name, "empty");
}

#[test]
fn test_if_increments_complexity() {
    // fn f(x: i32) { if x > 0 { println!("pos"); } }
    let mut children = vec![comparison()];
    children.extend(println_stmt());
    assert_eq!(cc(vec![node(ExprKind::If, children)]), 2);
}

#[test]
fn test_else_if_increments_complexity() {
    // fn f(x: i32) { if x > 0 { println!("pos"); } else if x < 0 { println!("neg"); } }
    let else_if = node(ExprKind::If, vec![comparison()]);
    assert_eq!(cc(vec![node(ExprKind::If, vec![comparison(), else_if])]), 3);
}

#[test]
fn test_match_increments_complexity() {
    // fn f(x: i32) { match x { 1 => {}, 2 => {}, _ => {} } }
    let arms = node(ExprKind::Match, vec![empty_block(), empty_block(), empty_block()]);
    assert_eq!(cc(vec![arms]), 5);
}

#[test]
fn test_match_arm_increments_complexity() {
    // fn f(x: i32) { match x { 1 => {}, 2 => {}, 3 => {}, _ => {} } }
    let arms = node(
        ExprKind::Match,
        vec![empty_block(), empty_block(), empty_block(), empty_block()],
    );
    assert_eq!(cc(vec![arms]), 6);
}

#[test]
fn test_for_increments_complexity() {
    // fn f() { for i in 0..10 { let x = i; } }
    let range = node(ExprKind::Other, vec![leaf(), leaf()]);
    assert_eq!(cc(vec![node(ExprKind::ForLoop, vec![range, leaf()])]), 2);
}

#[test]
fn test_while_increments_complexity() {
    // fn f() { while true { println!("loop"); } }
    assert_eq!(cc(vec![node(ExprKind::While, vec![leaf()])]), 2);
}

#[test]
fn test_loop_increments_complexity() {
    // fn f() { loop { break; } }
    assert_eq!(cc(vec![node(ExprKind::Loop, vec![leaf()])]), 2);
}

#[test]
fn test_and_operator_increments_complexity() {
    // fn f(a: bool, b: bool) { if a && b { println!("both"); } }
    // The && is walked as an ordinary binary expression.
    let and = node(ExprKind::Other, vec![leaf(), leaf()]);
    assert_eq!(cc(vec![node(ExprKind::If, vec![and])]), 2);
}

#[test]
fn test_or_operator_increments_complexity() {
    // fn f(a: bool, b: bool) { if a || b { println!("either"); } }
    let or = node(ExprKind::Other, vec![leaf(), leaf()]);
    assert_eq!(cc(vec![node(ExprKind::If, vec![or])]), 2);
}

#[test]
fn test_question_operator_increments_complexity() {
    // fn f(x: Option<i32>) -> Option<i32> { Some(x?) }
    let call = node(ExprKind::Other, vec![leaf(), node(ExprKind::Try, vec![leaf()])]);
    assert_eq!(cc(vec![call]), 2);
}

#[test]
fn test_nesting_depth_simple_if() {
    // fn f(x: i32) { if x > 0 { println!("hi"); } }
    assert_eq!(depth(vec![node(ExprKind::If, vec![comparison()])]), 1);
}

#[test]
fn test_nesting_depth_if_for_if() {
    // fn example(x: i32) {
    //     if x > 0 {
    //         for i in 0..x {
    //             if i % 2 == 0 {
    //                 println!("{i}");
    //             }
    //         }
    //     }
    // }
    let remainder_test = node(ExprKind::Other, vec![comparison(), leaf()]);
    let inner = node(ExprKind::If, vec![remainder_test]);
    let range = node(ExprKind::Other, vec![leaf(), leaf()]);
    let for_loop = node(ExprKind::ForLoop, vec![range, inner]);
    assert!(depth(vec![node(ExprKind::If, vec![comparison(), for_loop])]) >= 3);
}

#[test]
fn match_arms_and_try_do_not_nest() {
    let m = node(ExprKind::Match, vec![node(ExprKind::Try, vec![node(ExprKind::If, vec![])])]);
    assert_eq!(depth(vec![m]), 1);
}

fn three_nested_ifs() -> Vec<ExprNode> {
    let third = node(ExprKind::If, vec![comparison()]);
    let second = node(ExprKind::If, vec![comparison(), third]);
    vec![node(ExprKind::If, vec![comparison(), second])]
}

#[test]
fn test_violation_max_cyclomatic() {
    // fn f(x: i32) { if x > 0 { if x > 10 { if x > 100 { println!("hi"); } } } }
    let mut collector = ComplexityCollector::new();
    collector.config.max_cyclomatic_per_function = Some(3);
    let (status, details) = collector.analyze(&vec![function("f", three_nested_ifs())]);
    assert_eq!(status, CollectorStatus::Fail);
    let v = details.member("violations").as_array().unwrap();
    assert_eq!(v.len(), 1);
    assert_eq!(v[0].member("ruleId").as_str().unwrap(), "complexity:max-cyclomatic-per-function");
    assert_eq!(
        v[0].member("message").as_str().unwrap(),
        "Function `f` has cyclomatic complexity 4; maximum allowed is 3"
    );
    assert_eq!(details.member("complexFunctions").as_u64(), Some(1));
}

#[test]
fn test_violation_max_nesting() {
    // fn f() { if true { if true { if true { println!("deep"); } } } }
    let mut collector = ComplexityCollector::new();
    collector.config.max_nesting_depth = Some(2);
    let third = node(ExprKind::If, vec![leaf()]);
    let second = node(ExprKind::If, vec![leaf(), third]);
    let body = vec![node(ExprKind::If, vec![leaf(), second])];
    let (_, details) = collector.analyze(&vec![function("f", body)]);
    let v = details.member("violations").as_array().unwrap();
    assert_eq!(v.len(), 1);
    assert_eq!(v[0].member("ruleId").as_str().unwrap(), "complexity:max-nesting-depth");
    assert_eq!(v[0].member("actual").as_u64(), Some(3));
    assert_eq!(details.member("complexFunctions").as_u64(), Some(0));
}

#[test]
fn complexity_test_no_config_no_violations() {
    // fn f() { if true { for i in 0..10 { if i > 5 { println!("{i}"); } } } } }
    // The stray brace keeps the text from parsing: no function is read.
    let (status, details) = ComplexityCollector::new().analyze(&vec![]);
    assert_eq!(details.member("violations").as_array().unwrap().len(), 0);
    assert_eq!(status, CollectorStatus::Pass);
}

#[test]
fn without_limits_there_are_no_violations() {
    let (status, details) = ComplexityCollector::new().analyze(&vec![
        function("a", three_nested_ifs()),
        function("b", vec![]),
    ]);
    assert_eq!(status, CollectorStatus::Pass);
    assert_eq!(details.member("violations").as_array().unwrap().len(), 0);
    assert_eq!(details.member("functions").as_u64(), Some(2));
    assert_eq!(details.member("maxCyclomaticComplexity").as_u64(), Some(4));
    assert_eq!(details.member("maxNestingDepth").as_u64(), Some(3));
}

#[test]
fn configured_collector_keeps_its_limits() {
    let c = ComplexityCollector::with_config(ComplexityConfig {
        max_cyclomatic_per_function: Some(15),
        max_nesting_depth: None,
    });
    assert_eq!(c.config.max_cyclomatic_per_function, Some(15));
    assert_eq!(c.config.max_nesting_depth, None);
    let (_, details) = c.analyze(&vec![]);
    assert!(matches!(details.member("functions"), Json::UInt(0)));
}

#[test]
fn ordinary_bodies_fit_the_counters() {
    assert!(complexity_fits(&three_nested_ifs()));
    assert!(complexity_fits(&vec![]));
}

#[test]
fn complex_functions_are_the_cyclomatic_violations() {
    let mut collector = ComplexityCollector::new();
    collector.config.max_cyclomatic_per_function = Some(2);
    collector.config.max_nesting_depth = Some(1);
    let fs = vec![function("a", three_nested_ifs()), function("b", vec![]), function("c", three_nested_ifs())];
    let (status, details) = collector.analyze(&fs);
    assert_eq!(status, CollectorStatus::Fail);
    let v = details.member("violations").as_array().unwrap();
    assert_eq!(v.len(), 4);
    let cyclomatic = v
        .iter()
        .filter(|x| x.member("ruleId").as_str().unwrap() == "complexity:max-cyclomatic-per-function")
        .count() as u64;
    assert_eq!(details.member("complexFunctions").as_u64(), Some(cyclomatic));
    assert!(v.iter().all(|x| x.member("actual").as_u64() > x.member("threshold").as_u64()));
}
