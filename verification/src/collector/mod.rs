//! Collectors: what each one reads from its tool or from the sources, and
//! how their reports are assembled into a metrics summary.

pub mod tests;
pub mod fmt;
pub mod hack;
pub mod audit;
pub mod coverage;
pub mod deny;
pub mod mutants;
pub mod clippy;
pub mod loc;
pub mod complexity;
pub mod size;
pub mod grouping;
pub mod duplicates;
pub mod source;
pub mod assemble;

use vstd::prelude::*;
use crate::context::Context;
use crate::json::{str_is, Json};
use crate::schema::CollectorStatus;
use crate::text::{concat_str, decimal, push_decimal, push_str, str_eq, string_from_chars};

verus! {

/// A Rust source file of the workspace: its path relative to the workspace
/// root and its text.
#[derive(Debug, Clone)]
pub struct SourceFile {
    pub name: String,
    pub content: String,
}

/// What running a collector gave: its status, how long it took, and what it
/// wrote (its details as JSON on stdout).
#[derive(Debug, Clone)]
pub struct CollectorOutput {
    pub status: CollectorStatus,
    pub duration_ms: u64,
    pub stdout: String,
    pub stderr: String,
}

/// Why a collector could not run.
#[derive(Debug, Clone)]
pub enum CollectorError {
    NotAvailable(String),
    ExecutionFailed(String),
    ParseError(String),
    IoError(String),
}

/// The text of an error: `collector not available: ..`, `execution failed:
/// ..`, `parse error: ..` or `I/O error: ..`.
pub open spec fn error_text(e: CollectorError) -> Seq<char> {
    match e {
        CollectorError::NotAvailable(s) => "collector not available: "@ + s@,
        CollectorError::ExecutionFailed(s) => "execution failed: "@ + s@,
        CollectorError::ParseError(s) => "parse error: "@ + s@,
        CollectorError::IoError(s) => "I/O error: "@ + s@,
    }
}

impl CollectorError {
    /// The error's message (what `Display` prints).
    pub fn message(&self) -> (r: String)
        ensures
            r@ == error_text(*self),
    {
        match self {
            CollectorError::NotAvailable(s) => concat_str("collector not available: ", s.as_str()),
            CollectorError::ExecutionFailed(s) => concat_str("execution failed: ", s.as_str()),
            CollectorError::ParseError(s) => concat_str("parse error: ", s.as_str()),
            CollectorError::IoError(s) => concat_str("I/O error: ", s.as_str()),
        }
    }
}

/// A collector whose answers are fixed in advance: its name, whether it is
/// available, and the output it gives.
#[derive(Debug, Clone)]
pub struct MockCollector {
    pub name_val: &'static str,
    pub available: bool,
    pub output: CollectorOutput,
}

impl MockCollector {
    pub fn name(&self) -> (r: &'static str)
        ensures
            r == self.name_val,
    {
        self.name_val
    }

    pub fn is_available(&self) -> (r: bool)
        ensures
            r == self.available,
    {
        self.available
    }

    /// The fixed output, whatever the context.
    pub fn collect(&self, ctx: &Context) -> (r: Result<CollectorOutput, CollectorError>)
        ensures
            r matches Ok(o) && o.status == self.output.status && o.duration_ms == self.output.duration_ms
                && o.stdout@ == self.output.stdout@ && o.stderr@ == self.output.stderr@,
    {
        Ok(CollectorOutput {
            status: self.output.status,
            duration_ms: self.output.duration_ms,
            stdout: self.output.stdout.clone(),
            stderr: self.output.stderr.clone(),
        })
    }
}

/// Whether a path is a Rust file that the source collectors read: a file
/// with the extension `rs` in no directory named `target`, `.git` or
/// `quality` inside the workspace.  `components` are the path's
/// components, the first `root_depth` of which name the workspace root;
/// only the components after them are judged.
pub open spec fn spec_scannable(is_file: bool, extension: Option<Seq<char>>, components: Seq<String>, root_depth: nat) -> bool {
    &&& is_file
    &&& extension == Some("rs"@)
    &&& forall|i: int| root_depth <= i < components.len() ==> {
        let c = #[trigger] components[i]@;
        c != "target"@ && c != ".git"@ && c != "quality"@
    }
}

/// Whether a path whose file status, extension and components are given is
/// a Rust file that the source collectors read; the first `root_depth`
/// components, the workspace root's, are not judged.
pub fn is_scannable_rust_file(is_file: bool, extension: Option<&str>, components: &Vec<String>, root_depth: usize) -> (r: bool)
    ensures
        r == spec_scannable(is_file, match extension {
            Some(e) => Some(e@),
            None => None,
        }, components@, root_depth as nat),
{
    if !is_file {
        return false;
    }
    match extension {
        Some(e) => {
            if !str_eq(e, "rs") {
                return false;
            }
        },
        None => {
            return false;
        },
    }
    let mut i: usize = root_depth;
    if i > components.len() {
        i = components.len();
    }
    while i < components.len()
        invariant
            root_depth <= i || i == components.len(),
            i <= components.len(),
            forall|k: int| root_depth <= k < i ==> {
                let c = #[trigger] components@[k]@;
                c != "target"@ && c != ".git"@ && c != "quality"@
            },
        decreases components.len() - i,
    {
        let c = components[i].as_str();
        if str_eq(c, "target") || str_eq(c, ".git") || str_eq(c, "quality") {
            return false;
        }
        i = i + 1;
    }
    true
}

/// A rule violation that a source collector reports.  `function` is the
/// function it concerns, if it concerns one; every such violation is of
/// severity "major".
pub ghost struct ViolationSpec {
    pub rule_id: Seq<char>,
    pub file: Seq<char>,
    pub line: u32,
    pub function: Option<Seq<char>>,
    pub message: Seq<char>,
    pub actual: u32,
    pub threshold: u32,
}

/// `j` is the JSON object of violation `v` (members in key order).
pub open spec fn violation_json(j: Json, v: ViolationSpec) -> bool {
    j matches Json::Object(e) && e@.len() == 8
        && e@[0].0@ == "actual"@ && e@[0].1 == Json::UInt(v.actual as u64)
        && e@[1].0@ == "file"@ && str_is(e@[1].1, v.file)
        && e@[2].0@ == "function"@ && match v.function {
            Some(f) => str_is(e@[2].1, f),
            None => e@[2].1 == Json::Null,
        }
        && e@[3].0@ == "line"@ && e@[3].1 == Json::UInt(v.line as u64)
        && e@[4].0@ == "message"@ && str_is(e@[4].1, v.message)
        && e@[5].0@ == "ruleId"@ && str_is(e@[5].1, v.rule_id)
        && e@[6].0@ == "severity"@ && str_is(e@[6].1, "major"@)
        && e@[7].0@ == "threshold"@ && e@[7].1 == Json::UInt(v.threshold as u64)
}

/// `j` is a JSON array of the violations `vs`, in order.
pub open spec fn violations_json(j: Json, vs: Seq<ViolationSpec>) -> bool {
    j matches Json::Array(a) && a@.len() == vs.len()
        && forall|i: int| 0 <= i < a@.len() ==> violation_json(#[trigger] a@[i], vs[i])
}

/// The JSON object of a violation.
pub fn violation_to_json(
    rule_id: &str,
    file: &String,
    line: u32,
    function: Option<&String>,
    message: String,
    actual: u32,
    threshold: u32,
) -> (j: Json)
    ensures
        violation_json(j, ViolationSpec {
            rule_id: rule_id@,
            file: file@,
            line,
            function: match function { Some(f) => Some(f@), None => None },
            message: message@,
            actual,
            threshold,
        }),
{
    let function_value = match function {
        Some(f) => Json::Str(f.clone()),
        None => Json::Null,
    };
    Json::Object(vec![
        ("actual".to_string(), Json::UInt(actual as u64)),
        ("file".to_string(), Json::Str(file.clone())),
        ("function".to_string(), function_value),
        ("line".to_string(), Json::UInt(line as u64)),
        ("message".to_string(), Json::Str(message)),
        ("ruleId".to_string(), Json::Str(rule_id.to_string())),
        ("severity".to_string(), Json::Str("major".to_string())),
        ("threshold".to_string(), Json::UInt(threshold as u64)),
    ])
}

/// `p1 name p2 a p3 b`, the numbers in decimal: the text of a violation
/// message that names a function.
pub open spec fn named_message(p1: Seq<char>, name: Seq<char>, p2: Seq<char>, a: nat, p3: Seq<char>, b: nat) -> Seq<char> {
    p1 + name + p2 + decimal(a) + p3 + decimal(b)
}

/// `p1 a p2 b`, the numbers in decimal.
pub open spec fn numbers_message(p1: Seq<char>, a: nat, p2: Seq<char>, b: nat) -> Seq<char> {
    p1 + decimal(a) + p2 + decimal(b)
}

pub fn named_message_text(p1: &str, name: &str, p2: &str, a: u64, p3: &str, b: u64) -> (r: String)
    ensures
        r@ == named_message(p1@, name@, p2@, a as nat, p3@, b as nat),
{
    let mut out: Vec<char> = Vec::new();
    push_str(&mut out, p1);
    push_str(&mut out, name);
    push_str(&mut out, p2);
    push_decimal(&mut out, a as u128);
    push_str(&mut out, p3);
    push_decimal(&mut out, b as u128);
    proof {
        assert(out@ =~= named_message(p1@, name@, p2@, a as nat, p3@, b as nat));
    }
    string_from_chars(&out)
}

pub fn numbers_message_text(p1: &str, a: u64, p2: &str, b: u64) -> (r: String)
    ensures
        r@ == numbers_message(p1@, a as nat, p2@, b as nat),
{
    let mut out: Vec<char> = Vec::new();
    push_str(&mut out, p1);
    push_decimal(&mut out, a as u128);
    push_str(&mut out, p2);
    push_decimal(&mut out, b as u128);
    proof {
        assert(out@ =~= numbers_message(p1@, a as nat, p2@, b as nat));
    }
    string_from_chars(&out)
}

} // verus!
