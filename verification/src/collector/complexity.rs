//! Complexity collector: cyclomatic complexity and nesting depth of every
//! function.

use vstd::prelude::*;
use crate::collector::{named_message, named_message_text, violation_json, violation_to_json, violations_json, ViolationSpec};
use crate::json::Json;
use crate::schema::CollectorStatus;
use crate::config::ComplexityConfig;

verus! {

/// The expressions of a function body that the complexity count tells
/// apart; every other expression is `Other`.
#[derive(Debug, Clone, Copy, PartialEq, Eq, Structural)]
pub enum ExprKind {
    If,
    Match,
    ForLoop,
    While,
    Loop,
    Try,
    Other,
}

/// An expression of a function body and the expressions the count visits
/// under it, in source order.  For `If` those are the condition, the
/// expressions of the `then` block and the `else` branch; for a loop its
/// head and body; for `Match` one body per arm (the scrutinee and the
/// guards are not visited); for `Try` its operand.  Items nested in a body
/// (functions, methods) are not part of it.
#[derive(Debug)]
pub struct ExprNode {
    pub kind: ExprKind,
    pub children: Vec<ExprNode>,
}

/// A function of a source file: its name, the file's name, the line it
/// starts on, and the expressions of its body.
#[derive(Debug)]
pub struct FunctionTree {
    pub name: String,
    pub file: String,
    pub start_line: u32,
    pub body: Vec<ExprNode>,
}

/// Whether an expression of this kind opens a nesting level.
pub open spec fn nests(k: ExprKind) -> bool {
    k == ExprKind::If || k == ExprKind::ForLoop || k == ExprKind::While || k == ExprKind::Loop
}

/// What an expression of kind `k` with `arms` children adds to the
/// cyclomatic complexity by itself: one for a branch, a loop or `?`, one
/// for a `match` and one more for each of its arms.
pub open spec fn own_weight(k: ExprKind, arms: nat) -> nat {
    match k {
        ExprKind::If | ExprKind::ForLoop | ExprKind::While | ExprKind::Loop | ExprKind::Try => 1,
        ExprKind::Match => 1 + arms,
        ExprKind::Other => 0,
    }
}

/// What expression `n` adds to the cyclomatic complexity.
pub open spec fn node_cc(n: ExprNode) -> nat
    decreases n,
{
    own_weight(n.kind, n.children@.len()) + forest_cc(n.children@)
}

/// What the expressions `ns` add to the cyclomatic complexity.
pub open spec fn forest_cc(ns: Seq<ExprNode>) -> nat
    decreases ns,
{
    if ns.len() == 0 {
        0
    } else {
        forest_cc(ns.drop_last()) + node_cc(ns.last())
    }
}

/// The nesting depth of expression `n`.
pub open spec fn node_depth(n: ExprNode) -> nat
    decreases n,
{
    (if nests(n.kind) { 1nat } else { 0nat }) + forest_depth(n.children@)
}

/// The deepest nesting among the expressions `ns`.
pub open spec fn forest_depth(ns: Seq<ExprNode>) -> nat
    decreases ns,
{
    if ns.len() == 0 {
        0
    } else {
        let a = forest_depth(ns.drop_last());
        let b = node_depth(ns.last());
        if a >= b { a } else { b }
    }
}

proof fn lemma_forest_step(ns: Seq<ExprNode>, i: int)
    requires
        0 <= i < ns.len(),
    ensures
        forest_cc(ns.take(i + 1)) == forest_cc(ns.take(i)) + node_cc(ns[i]),
        forest_depth(ns.take(i + 1)) == if forest_depth(ns.take(i)) >= node_depth(ns[i]) {
            forest_depth(ns.take(i))
        } else {
            node_depth(ns[i])
        },
{
    assert(ns.take(i + 1).drop_last() =~= ns.take(i));
}

proof fn lemma_forest_prefix(ns: Seq<ExprNode>, i: int)
    requires
        0 <= i <= ns.len(),
    ensures
        forest_cc(ns.take(i)) <= forest_cc(ns),
        forest_depth(ns.take(i)) <= forest_depth(ns),
    decreases ns.len() - i,
{
    if i == ns.len() {
        assert(ns.take(i) =~= ns);
    } else {
        lemma_forest_step(ns, i);
        lemma_forest_prefix(ns, i + 1);
    }
}

/// What each kind of expression contributes: `if`, `for`, `while` and
/// `loop` each add one to the cyclomatic complexity and open a nesting
/// level (their depth is one more than the deepest among what they hold);
/// `match` adds one and one per arm and opens no level; `?` adds one and
/// opens no level; any other expression adds nothing and opens no level.
/// A sequence of expressions adds what each adds, and is as deep as the
/// deepest of them.
pub proof fn law_expression_contributions(n: ExprNode)
    ensures
        (n.kind == ExprKind::If || n.kind == ExprKind::ForLoop || n.kind == ExprKind::While
            || n.kind == ExprKind::Loop) ==> node_cc(n) == 1 + forest_cc(n.children@)
            && node_depth(n) == 1 + forest_depth(n.children@),
        n.kind == ExprKind::Match ==> node_cc(n) == 1 + n.children@.len() + forest_cc(n.children@)
            && node_depth(n) == forest_depth(n.children@),
        n.kind == ExprKind::Try ==> node_cc(n) == 1 + forest_cc(n.children@)
            && node_depth(n) == forest_depth(n.children@),
        n.kind == ExprKind::Other ==> node_cc(n) == forest_cc(n.children@)
            && node_depth(n) == forest_depth(n.children@),
{
}

/// A sequence of expressions adds what each adds and is as deep as the
/// deepest: appending `n` adds `n`'s complexity and raises the depth to
/// `n`'s depth if that is deeper; an empty sequence adds nothing and has
/// depth 0.
pub proof fn law_sequence_contributions(ns: Seq<ExprNode>, n: ExprNode)
    ensures
        forest_cc(Seq::<ExprNode>::empty()) == 0,
        forest_depth(Seq::<ExprNode>::empty()) == 0,
        forest_cc(ns.push(n)) == forest_cc(ns) + node_cc(n),
        forest_depth(ns.push(n)) >= forest_depth(ns),
        forest_depth(ns.push(n)) >= node_depth(n),
        forest_depth(ns.push(n)) == forest_depth(ns) || forest_depth(ns.push(n)) == node_depth(n),
{
    assert(ns.push(n).drop_last() =~= ns);
}

/// The counters of the walk over a function body: the cyclomatic
/// complexity so far, the current nesting level and the deepest one seen.
struct ComplexityWalker {
    cyclomatic_complexity: u32,
    nesting_depth: u32,
    max_nesting_depth: u32,
}

impl ComplexityWalker {
    fn new() -> (w: ComplexityWalker)
        ensures
            w.cyclomatic_complexity == 1,
            w.nesting_depth == 0,
            w.max_nesting_depth == 0,
    {
        ComplexityWalker { cyclomatic_complexity: 1, nesting_depth: 0, max_nesting_depth: 0 }
    }

    fn enter_nesting(&mut self)
        requires
            old(self).nesting_depth < u32::MAX,
        ensures
            final(self).nesting_depth == old(self).nesting_depth + 1,
            final(self).max_nesting_depth == if old(self).nesting_depth + 1 > old(self).max_nesting_depth {
                (old(self).nesting_depth + 1) as u32
            } else {
                old(self).max_nesting_depth
            },
            final(self).cyclomatic_complexity == old(self).cyclomatic_complexity,
    {
        self.nesting_depth = self.nesting_depth + 1;
        if self.nesting_depth > self.max_nesting_depth {
            self.max_nesting_depth = self.nesting_depth;
        }
    }

    fn exit_nesting(&mut self)
        ensures
            final(self).nesting_depth == if old(self).nesting_depth > 0 { old(self).nesting_depth - 1 } else { 0 },
            final(self).max_nesting_depth == old(self).max_nesting_depth,
            final(self).cyclomatic_complexity == old(self).cyclomatic_complexity,
    {
        self.nesting_depth = self.nesting_depth.saturating_sub(1);
    }

    /// Walks the expressions `ns`, one after the other.
    fn visit_all(&mut self, ns: &Vec<ExprNode>)
        requires
            old(self).cyclomatic_complexity + forest_cc(ns@) <= u32::MAX,
            old(self).nesting_depth + forest_depth(ns@) <= u32::MAX,
            old(self).nesting_depth <= old(self).max_nesting_depth,
        ensures
            final(self).cyclomatic_complexity == old(self).cyclomatic_complexity + forest_cc(ns@),
            final(self).nesting_depth == old(self).nesting_depth,
            final(self).max_nesting_depth == if old(self).nesting_depth + forest_depth(ns@) > old(self).max_nesting_depth {
                old(self).nesting_depth + forest_depth(ns@)
            } else {
                old(self).max_nesting_depth as int
            },
        decreases ns@, 1nat,
    {
        let mut i: usize = 0;
        proof {
            assert(ns@.take(0) =~= Seq::<ExprNode>::empty());
        }
        while i < ns.len()
            invariant
                i <= ns.len(),
                old(self).cyclomatic_complexity + forest_cc(ns@) <= u32::MAX,
                old(self).nesting_depth + forest_depth(ns@) <= u32::MAX,
                old(self).nesting_depth <= old(self).max_nesting_depth,
                self.cyclomatic_complexity == old(self).cyclomatic_complexity + forest_cc(ns@.take(i as int)),
                self.nesting_depth == old(self).nesting_depth,
                self.max_nesting_depth == if old(self).nesting_depth + forest_depth(ns@.take(i as int)) > old(self).max_nesting_depth {
                    old(self).nesting_depth + forest_depth(ns@.take(i as int))
                } else {
                    old(self).max_nesting_depth as int
                },
            decreases ns.len() - i,
        {
            proof {
                lemma_forest_step(ns@, i as int);
                lemma_forest_prefix(ns@, i + 1);
            }
            self.visit_node(&ns[i]);
            i = i + 1;
        }
        proof {
            assert(ns@.take(ns@.len() as int) =~= ns@);
        }
    }

    /// Walks expression `n`.
    fn visit_node(&mut self, n: &ExprNode)
        requires
            old(self).cyclomatic_complexity + node_cc(*n) <= u32::MAX,
            old(self).nesting_depth + node_depth(*n) <= u32::MAX,
            old(self).nesting_depth <= old(self).max_nesting_depth,
        ensures
            final(self).cyclomatic_complexity == old(self).cyclomatic_complexity + node_cc(*n),
            final(self).nesting_depth == old(self).nesting_depth,
            final(self).max_nesting_depth == if old(self).nesting_depth + node_depth(*n) > old(self).max_nesting_depth {
                old(self).nesting_depth + node_depth(*n)
            } else {
                old(self).max_nesting_depth as int
            },
        decreases *n, 0nat,
    {
        match n.kind {
            ExprKind::If | ExprKind::ForLoop | ExprKind::While | ExprKind::Loop => {
                self.cyclomatic_complexity = self.cyclomatic_complexity + 1;
                self.enter_nesting();
                self.visit_all(&n.children);
                self.exit_nesting();
            },
            ExprKind::Match => {
                self.cyclomatic_complexity = self.cyclomatic_complexity + 1;
                let mut i: usize = 0;
                let ghost start = self.cyclomatic_complexity;
                proof {
                    assert(n.children@.take(0) =~= Seq::<ExprNode>::empty());
                }
                while i < n.children.len()
                    invariant
                        i <= n.children.len(),
                        start == old(self).cyclomatic_complexity + 1,
                        old(self).cyclomatic_complexity + node_cc(*n) <= u32::MAX,
                        old(self).nesting_depth + node_depth(*n) <= u32::MAX,
                        n.kind == ExprKind::Match,
                        old(self).nesting_depth <= old(self).max_nesting_depth,
                        self.cyclomatic_complexity == start + i + forest_cc(n.children@.take(i as int)),
                        self.nesting_depth == old(self).nesting_depth,
                        self.max_nesting_depth == if old(self).nesting_depth + forest_depth(n.children@.take(i as int)) > old(self).max_nesting_depth {
                            old(self).nesting_depth + forest_depth(n.children@.take(i as int))
                        } else {
                            old(self).max_nesting_depth as int
                        },
                    decreases n.children.len() - i,
                {
                    proof {
                        lemma_forest_step(n.children@, i as int);
                        lemma_forest_prefix(n.children@, i + 1);
                    }
                    self.cyclomatic_complexity = self.cyclomatic_complexity + 1;
                    self.visit_node(&n.children[i]);
                    i = i + 1;
                }
                proof {
                    assert(n.children@.take(n.children@.len() as int) =~= n.children@);
                }
            },
            ExprKind::Try => {
                self.cyclomatic_complexity = self.cyclomatic_complexity + 1;
                self.visit_all(&n.children);
            },
            ExprKind::Other => {
                self.visit_all(&n.children);
            },
        }
    }
}

/// The largest value among `a` and `b`.
pub open spec fn max_nat(a: nat, b: nat) -> nat {
    if a >= b { a } else { b }
}

/// The cyclomatic complexity of a function body: one, plus what its
/// expressions add.
pub open spec fn body_cyclomatic(body: Seq<ExprNode>) -> nat {
    1 + forest_cc(body)
}

/// The counts of `body` fit the `u32` counters of the walk.
pub open spec fn body_fits(body: Seq<ExprNode>) -> bool {
    body_cyclomatic(body) <= u32::MAX && forest_depth(body) <= u32::MAX
}

/// The complexity measured for one function.
#[derive(Debug, Clone)]
pub struct FunctionComplexity {
    pub name: String,
    pub file: String,
    pub start_line: u32,
    pub cyclomatic_complexity: u32,
    pub nesting_depth: u32,
}

/// Walks the body of `f` and returns its complexity.
pub fn measure_function(f: &FunctionTree) -> (r: FunctionComplexity)
    requires
        body_fits(f.body@),
    ensures
        r.name@ == f.name@,
        r.file@ == f.file@,
        r.start_line == f.start_line,
        r.cyclomatic_complexity == body_cyclomatic(f.body@),
        r.nesting_depth == forest_depth(f.body@),
{
    let mut walker = ComplexityWalker::new();
    walker.visit_all(&f.body);
    FunctionComplexity {
        name: f.name.clone(),
        file: f.file.clone(),
        start_line: f.start_line,
        cyclomatic_complexity: walker.cyclomatic_complexity,
        nesting_depth: walker.max_nesting_depth,
    }
}

/// `min(node_cc(n), cap)`.
fn capped_node_cc(n: &ExprNode, cap: u64) -> (r: u64)
    requires
        cap <= 0x1_0000_0000,
    ensures
        r == if node_cc(*n) <= cap { node_cc(*n) } else { cap as nat },
    decreases *n, 0nat,
{
    let arms = n.children.len();
    let own: u64 = match n.kind {
        ExprKind::If | ExprKind::ForLoop | ExprKind::While | ExprKind::Loop | ExprKind::Try => 1,
        ExprKind::Match => if arms as u64 >= cap { cap } else { 1 + arms as u64 },
        ExprKind::Other => 0,
    };
    let own = if own > cap { cap } else { own };
    let rest = capped_forest_cc(&n.children, cap);
    if own + rest > cap { cap } else { own + rest }
}

/// `min(forest_cc(ns), cap)`.
fn capped_forest_cc(ns: &Vec<ExprNode>, cap: u64) -> (r: u64)
    requires
        cap <= 0x1_0000_0000,
    ensures
        r == if forest_cc(ns@) <= cap { forest_cc(ns@) } else { cap as nat },
    decreases ns@, 1nat,
{
    let mut total: u64 = 0;
    let mut i: usize = 0;
    proof {
        assert(ns@.take(0) =~= Seq::<ExprNode>::empty());
    }
    while i < ns.len()
        invariant
            i <= ns.len(),
            cap <= 0x1_0000_0000,
            total == if forest_cc(ns@.take(i as int)) <= cap { forest_cc(ns@.take(i as int)) } else { cap as nat },
        decreases ns.len() - i,
    {
        proof {
            lemma_forest_step(ns@, i as int);
        }
        let c = capped_node_cc(&ns[i], cap);
        total = if total + c > cap { cap } else { total + c };
        i = i + 1;
    }
    proof {
        assert(ns@.take(ns@.len() as int) =~= ns@);
    }
    total
}

/// `min(node_depth(n), cap)`.
fn capped_node_depth(n: &ExprNode, cap: u64) -> (r: u64)
    requires
        cap <= 0x1_0000_0000,
    ensures
        r == if node_depth(*n) <= cap { node_depth(*n) } else { cap as nat },
    decreases *n, 0nat,
{
    let inner = capped_forest_depth(&n.children, cap);
    let own: u64 = match n.kind {
        ExprKind::If | ExprKind::ForLoop | ExprKind::While | ExprKind::Loop => 1,
        _ => 0,
    };
    if own + inner > cap { cap } else { own + inner }
}

/// `min(forest_depth(ns), cap)`.
fn capped_forest_depth(ns: &Vec<ExprNode>, cap: u64) -> (r: u64)
    requires
        cap <= 0x1_0000_0000,
    ensures
        r == if forest_depth(ns@) <= cap { forest_depth(ns@) } else { cap as nat },
    decreases ns@, 1nat,
{
    let mut deepest: u64 = 0;
    let mut i: usize = 0;
    proof {
        assert(ns@.take(0) =~= Seq::<ExprNode>::empty());
    }
    while i < ns.len()
        invariant
            i <= ns.len(),
            cap <= 0x1_0000_0000,
            deepest == if forest_depth(ns@.take(i as int)) <= cap { forest_depth(ns@.take(i as int)) } else { cap as nat },
        decreases ns.len() - i,
    {
        proof {
            lemma_forest_step(ns@, i as int);
        }
        let d = capped_node_depth(&ns[i], cap);
        if d > deepest {
            deepest = d;
        }
        i = i + 1;
    }
    proof {
        assert(ns@.take(ns@.len() as int) =~= ns@);
    }
    deepest
}

/// Whether the counts of `body` fit the `u32` counters of the walk.
pub fn complexity_fits(body: &Vec<ExprNode>) -> (r: bool)
    ensures
        r == body_fits(body@),
{
    let cap: u64 = 0x1_0000_0000;
    let cc = capped_forest_cc(body, cap);
    let depth = capped_forest_depth(body, cap);
    cc < 0xffff_ffff && depth < cap
}

/// The limits the complexity collector checks; a limit that is `None` is
/// not checked.
#[derive(Debug, Clone, Copy, Default)]
pub struct ComplexityCollectorConfig {
    pub max_cyclomatic_per_function: Option<u32>,
    pub max_nesting_depth: Option<u32>,
}

/// The rule of the cyclomatic-complexity limit.
pub open spec fn cyclomatic_rule() -> Seq<char> {
    "complexity:max-cyclomatic-per-function"@
}

/// The rule of the nesting-depth limit.
pub open spec fn nesting_rule() -> Seq<char> {
    "complexity:max-nesting-depth"@
}

/// The violations that function `t` gives under the limits `c`: first the
/// cyclomatic one, then the nesting one.
pub open spec fn function_violations(t: FunctionTree, c: ComplexityCollectorConfig) -> Seq<ViolationSpec> {
    let cc = body_cyclomatic(t.body@);
    let depth = forest_depth(t.body@);
    let first = match c.max_cyclomatic_per_function {
        Some(max) => if cc > max {
            seq![ViolationSpec {
                rule_id: cyclomatic_rule(),
                file: t.file@,
                line: t.start_line,
                function: Some(t.name@),
                message: named_message("Function `"@, t.name@, "` has cyclomatic complexity "@, cc, "; maximum allowed is "@, max as nat),
                actual: cc as u32,
                threshold: max,
            }]
        } else {
            Seq::empty()
        },
        None => Seq::empty(),
    };
    let second = match c.max_nesting_depth {
        Some(max) => if depth > max {
            seq![ViolationSpec {
                rule_id: nesting_rule(),
                file: t.file@,
                line: t.start_line,
                function: Some(t.name@),
                message: named_message("Function `"@, t.name@, "` has nesting depth "@, depth, "; maximum allowed is "@, max as nat),
                actual: depth as u32,
                threshold: max,
            }]
        } else {
            Seq::empty()
        },
        None => Seq::empty(),
    };
    first + second
}

/// The violations of the functions `ts`, in order.
pub open spec fn complexity_violations(ts: Seq<FunctionTree>, c: ComplexityCollectorConfig) -> Seq<ViolationSpec>
    decreases ts.len(),
{
    if ts.len() == 0 {
        Seq::empty()
    } else {
        complexity_violations(ts.drop_last(), c) + function_violations(ts.last(), c)
    }
}

/// The collector's status over the functions `ts`: `Pass` when no limit is
/// broken.
pub open spec fn complexity_status(ts: Seq<FunctionTree>, c: ComplexityCollectorConfig) -> CollectorStatus {
    if complexity_violations(ts, c).len() == 0 { CollectorStatus::Pass } else { CollectorStatus::Fail }
}

/// The number of functions of `ts` above the cyclomatic-complexity limit.
pub open spec fn complex_count(ts: Seq<FunctionTree>, c: ComplexityCollectorConfig) -> nat
    decreases ts.len(),
{
    if ts.len() == 0 {
        0
    } else {
        complex_count(ts.drop_last(), c) + match c.max_cyclomatic_per_function {
            Some(max) => if body_cyclomatic(ts.last().body@) > max { 1nat } else { 0nat },
            None => 0nat,
        }
    }
}

/// The largest cyclomatic complexity among `ts` (0 for none).
pub open spec fn max_cyclomatic(ts: Seq<FunctionTree>) -> nat
    decreases ts.len(),
{
    if ts.len() == 0 { 0 } else { max_nat(max_cyclomatic(ts.drop_last()), body_cyclomatic(ts.last().body@)) }
}

/// The deepest nesting among `ts` (0 for none).
pub open spec fn max_nesting(ts: Seq<FunctionTree>) -> nat
    decreases ts.len(),
{
    if ts.len() == 0 { 0 } else { max_nat(max_nesting(ts.drop_last()), forest_depth(ts.last().body@)) }
}

/// `j` is the details object the collector reports for the functions `ts`
/// under the limits `c` (members in key order).
pub open spec fn complexity_details_json(j: Json, ts: Seq<FunctionTree>, c: ComplexityCollectorConfig) -> bool {
    j matches Json::Object(e) && e@.len() == 5
        && e@[0].0@ == "complexFunctions"@ && e@[0].1 == Json::UInt(complex_count(ts, c) as u64)
        && e@[1].0@ == "functions"@ && e@[1].1 == Json::UInt((ts.len() as u32) as u64)
        && e@[2].0@ == "maxCyclomaticComplexity"@ && e@[2].1 == Json::UInt(max_cyclomatic(ts) as u64)
        && e@[3].0@ == "maxNestingDepth"@ && e@[3].1 == Json::UInt(max_nesting(ts) as u64)
        && e@[4].0@ == "violations"@ && violations_json(e@[4].1, complexity_violations(ts, c))
}

/// Every function body of `ts` fits the counters, and there are few
/// enough functions for the count of complex ones to fit a `u32`.
pub open spec fn functions_fit(ts: Seq<FunctionTree>) -> bool {
    &&& ts.len() <= u32::MAX
    &&& forall|i: int| 0 <= i < ts.len() ==> body_fits(#[trigger] ts[i].body@)
}

/// When every body fits the counters, so do the counts over all of them.
pub(crate) proof fn lemma_complexity_counts_fit(ts: Seq<FunctionTree>, c: ComplexityCollectorConfig)
    requires
        functions_fit(ts),
    ensures
        complex_count(ts, c) <= u32::MAX,
        max_cyclomatic(ts) <= u32::MAX,
        max_nesting(ts) <= u32::MAX,
    decreases ts.len(),
{
    lemma_complex_count_bound(ts, c);
    if ts.len() > 0 {
        assert forall|i: int| 0 <= i < ts.drop_last().len() implies body_fits(#[trigger] ts.drop_last()[i].body@) by {
            assert(ts.drop_last()[i] == ts[i]);
        }
        lemma_complexity_counts_fit(ts.drop_last(), c);
        assert(body_fits(ts[ts.len() - 1].body@));
    }
}

proof fn lemma_complex_count_bound(ts: Seq<FunctionTree>, c: ComplexityCollectorConfig)
    ensures
        complex_count(ts, c) <= ts.len(),
    decreases ts.len(),
{
    if ts.len() > 0 {
        lemma_complex_count_bound(ts.drop_last(), c);
    }
}

/// Measures cyclomatic complexity and nesting depth per function.
#[derive(Debug, Clone, Copy)]
pub struct ComplexityCollector {
    pub config: ComplexityCollectorConfig,
}

impl ComplexityCollector {
    /// A collector that checks no limit.
    pub fn new() -> (c: ComplexityCollector)
        ensures
            c.config.max_cyclomatic_per_function is None,
            c.config.max_nesting_depth is None,
    {
        ComplexityCollector {
            config: ComplexityCollectorConfig { max_cyclomatic_per_function: None, max_nesting_depth: None },
        }
    }

    /// A collector that checks the limits of the `[gate.complexity]` section.
    pub fn with_config(config: ComplexityConfig) -> (c: ComplexityCollector)
        ensures
            c.config.max_cyclomatic_per_function == config.max_cyclomatic_per_function,
            c.config.max_nesting_depth == config.max_nesting_depth,
    {
        ComplexityCollector {
            config: ComplexityCollectorConfig {
                max_cyclomatic_per_function: config.max_cyclomatic_per_function,
                max_nesting_depth: config.max_nesting_depth,
            },
        }
    }

    pub fn name(&self) -> (r: &'static str)
        ensures
            r@ == "complexity"@,
    {
        "complexity"
    }

    /// The collector reads the sources itself, so it is always available.
    pub fn is_available(&self) -> (r: bool)
        ensures
            r,
    {
        true
    }

    /// The status and details object of the collector over the functions
    /// `functions` (in the order the files and their functions were read):
    /// `Pass` when no function breaks a limit.
    pub fn analyze(&self, functions: &Vec<FunctionTree>) -> (r: (CollectorStatus, Json))
        requires
            functions_fit(functions@),
        ensures
            r.0 == complexity_status(functions@, self.config),
            complexity_details_json(r.1, functions@, self.config),
    {
        let c = self.config;
        let mut violations: Vec<Json> = Vec::new();
        let mut max_cc: u32 = 0;
        let mut max_depth: u32 = 0;
        let mut complex: u32 = 0;
        let mut i: usize = 0;
        proof {
            assert(functions@.take(0) =~= Seq::<FunctionTree>::empty());
        }
        while i < functions.len()
            invariant
                i <= functions.len(),
                functions_fit(functions@),
                c == self.config,
                max_cc == max_cyclomatic(functions@.take(i as int)),
                max_depth == max_nesting(functions@.take(i as int)),
                complex == complex_count(functions@.take(i as int), c),
                violations@.len() == complexity_violations(functions@.take(i as int), c).len(),
                forall|k: int| 0 <= k < violations@.len()
                    ==> violation_json(#[trigger] violations@[k], complexity_violations(functions@.take(i as int), c)[k]),
            decreases functions.len() - i,
        {
            let t = &functions[i];
            let ghost prefix = functions@.take(i as int);
            proof {
                assert(functions@.take(i + 1).drop_last() =~= prefix);
                assert(functions@[i as int] == *t);
                assert(body_fits(t.body@));
                lemma_complex_count_bound(prefix, c);
            }
            let f = measure_function(t);
            if f.cyclomatic_complexity > max_cc {
                max_cc = f.cyclomatic_complexity;
            }
            if f.nesting_depth > max_depth {
                max_depth = f.nesting_depth;
            }
            let ghost before = violations@;
            match c.max_cyclomatic_per_function {
                Some(max) => {
                    if f.cyclomatic_complexity > max {
                        let message = named_message_text(
                            "Function `",
                            f.name.as_str(),
                            "` has cyclomatic complexity ",
                            f.cyclomatic_complexity as u64,
                            "; maximum allowed is ",
                            max as u64,
                        );
                        violations.push(violation_to_json(
                            "complexity:max-cyclomatic-per-function",
                            &f.file,
                            f.start_line,
                            Some(&f.name),
                            message,
                            f.cyclomatic_complexity,
                            max,
                        ));
                        complex = complex + 1;
                    }
                },
                None => {},
            }
            match c.max_nesting_depth {
                Some(max) => {
                    if f.nesting_depth > max {
                        let message = named_message_text(
                            "Function `",
                            f.name.as_str(),
                            "` has nesting depth ",
                            f.nesting_depth as u64,
                            "; maximum allowed is ",
                            max as u64,
                        );
                        violations.push(violation_to_json(
                            "complexity:max-nesting-depth",
                            &f.file,
                            f.start_line,
                            Some(&f.name),
                            message,
                            f.nesting_depth,
                            max,
                        ));
                    }
                },
                None => {},
            }
            proof {
                let added = function_violations(*t, c);
                assert(complexity_violations(functions@.take(i + 1), c) == complexity_violations(prefix, c) + added);
                assert forall|k: int| 0 <= k < violations@.len()
                    implies violation_json(#[trigger] violations@[k], complexity_violations(functions@.take(i + 1), c)[k]) by {
                    if k < before.len() {
                        assert(violations@[k] == before[k]);
                    }
                }
            }
            i = i + 1;
        }
        proof {
            assert(functions@.take(functions@.len() as int) =~= functions@);
        }
        let status = if violations.len() == 0 { CollectorStatus::Pass } else { CollectorStatus::Fail };
        let n = functions.len() as u32;
        let details = Json::Object(vec![
            ("complexFunctions".to_string(), Json::UInt(complex as u64)),
            ("functions".to_string(), Json::UInt(n as u64)),
            ("maxCyclomaticComplexity".to_string(), Json::UInt(max_cc as u64)),
            ("maxNestingDepth".to_string(), Json::UInt(max_depth as u64)),
            ("violations".to_string(), Json::Array(violations)),
        ]);
        (status, details)
    }
}

impl Default for ComplexityCollector {
    fn default() -> (c: ComplexityCollector)
        ensures
            c.config.max_cyclomatic_per_function is None,
            c.config.max_nesting_depth is None,
    {
        ComplexityCollector::new()
    }
}

// ------------------------------------------------------------------------------------------------
// Laws
// ------------------------------------------------------------------------------------------------

/// The number of violations of `vs` with rule `rule`.
pub open spec fn rule_count(vs: Seq<ViolationSpec>, rule: Seq<char>) -> nat
    decreases vs.len(),
{
    if vs.len() == 0 {
        0
    } else {
        rule_count(vs.drop_last(), rule) + if vs.last().rule_id == rule { 1nat } else { 0nat }
    }
}

/// Violation `v` breaks a limit that `c` sets: its value exceeds its
/// threshold, and the threshold is the limit of its rule.
pub open spec fn breaks_complexity_limit(v: ViolationSpec, c: ComplexityCollectorConfig) -> bool {
    &&& v.actual > v.threshold
    &&& {
        ||| v.rule_id == cyclomatic_rule() && c.max_cyclomatic_per_function == Some(v.threshold)
        ||| v.rule_id == nesting_rule() && c.max_nesting_depth == Some(v.threshold)
    }
}

proof fn lemma_rule_count_append(a: Seq<ViolationSpec>, b: Seq<ViolationSpec>, rule: Seq<char>)
    ensures
        rule_count(a + b, rule) == rule_count(a, rule) + rule_count(b, rule),
    decreases b.len(),
{
    if b.len() > 0 {
        lemma_rule_count_append(a, b.drop_last(), rule);
        assert((a + b).drop_last() =~= a + b.drop_last());
    }
}

proof fn lemma_complexity_law(ts: Seq<FunctionTree>, c: ComplexityCollectorConfig)
    requires
        functions_fit(ts),
    ensures
        forall|k: int| 0 <= k < complexity_violations(ts, c).len()
            ==> breaks_complexity_limit(#[trigger] complexity_violations(ts, c)[k], c),
        complex_count(ts, c) == rule_count(complexity_violations(ts, c), cyclomatic_rule()),
        (c.max_cyclomatic_per_function is None && c.max_nesting_depth is None)
            ==> complexity_violations(ts, c).len() == 0,
    decreases ts.len(),
{
    if ts.len() > 0 {
        let init = ts.drop_last();
        assert forall|i: int| 0 <= i < init.len() implies body_fits(#[trigger] init[i].body@) by {
            assert(init[i] == ts[i]);
        }
        lemma_complexity_law(init, c);
        let t = ts.last();
        assert(body_fits(ts[ts.len() - 1].body@));
        let a = complexity_violations(init, c);
        let b = function_violations(t, c);
        reveal_strlit("complexity:max-cyclomatic-per-function");
        reveal_strlit("complexity:max-nesting-depth");
        assert(cyclomatic_rule()[15] != nesting_rule()[15]);
        lemma_rule_count_append(a, b, cyclomatic_rule());
        let cc = body_cyclomatic(t.body@);
        let depth = forest_depth(t.body@);
        let first: Seq<ViolationSpec> = match c.max_cyclomatic_per_function {
            Some(max) => if cc > max { seq![b[0]] } else { Seq::empty() },
            None => Seq::empty(),
        };
        assert(b.len() == first.len() + (match c.max_nesting_depth {
            Some(max) => if depth > max { 1nat } else { 0nat },
            None => 0nat,
        }));
        reveal_with_fuel(rule_count, 3);
        assert(rule_count(b, cyclomatic_rule()) == first.len());
        assert forall|k: int| 0 <= k < (a + b).len() implies breaks_complexity_limit(#[trigger] (a + b)[k], c) by {
            if k < a.len() {
                assert((a + b)[k] == a[k]);
            } else {
                assert((a + b)[k] == b[k - a.len()]);
            }
        }
    }
}

/// The complexity collector's violations each break a limit its
/// configuration sets (the value exceeds the limit of its rule); the
/// reported number of complex functions is the number of violations of
/// the cyclomatic limit; without limits, as `ComplexityCollector::new`
/// makes, there are no violations; and the collector passes exactly when
/// there are none.
pub proof fn law_complexity_violations_break_set_limits(ts: Seq<FunctionTree>, c: ComplexityCollectorConfig)
    requires
        functions_fit(ts),
    ensures
        complexity_status(ts, c) == CollectorStatus::Pass <==> complexity_violations(ts, c).len() == 0,
        forall|k: int| 0 <= k < complexity_violations(ts, c).len()
            ==> breaks_complexity_limit(#[trigger] complexity_violations(ts, c)[k], c),
        complex_count(ts, c) == rule_count(complexity_violations(ts, c), cyclomatic_rule()),
        (c.max_cyclomatic_per_function is None && c.max_nesting_depth is None)
            ==> complexity_violations(ts, c).len() == 0,
{
    lemma_complexity_law(ts, c);
}

} // verus!
