//! Clippy collector — reads the diagnostics of `cargo clippy --message-format=json`.

use vstd::prelude::*;
use crate::json::{json_value, parse_json, spec_as_str, spec_as_u64, spec_get, spec_get2, str_is, Json};
use crate::schema::{ClippyLint, CollectorStatus};
use crate::text::{lines, split_lines, str_chars, string_from_chars, trim, trim_chars};

verus! {

#[derive(Debug, Clone, Copy)]
pub struct ClippyCollector;

/// `msg.get("level").and_then(as_str).unwrap_or("")`.
pub open spec fn level_of(msg: Json) -> Seq<char> {
    match spec_get(msg, "level"@) {
        Some(v) => match spec_as_str(v) {
            Some(s) => s,
            None => Seq::empty(),
        },
        None => Seq::empty(),
    }
}

/// `msg.get("code").and_then(|v| v.get("code")).and_then(as_str)`.
pub open spec fn code_of(msg: Json) -> Option<Seq<char>> {
    match spec_get2(msg, "code"@, "code"@) {
        Some(v) => spec_as_str(v),
        None => None,
    }
}

/// A warning or error that carries a lint code.
pub open spec fn is_lint(msg: Json) -> bool {
    (level_of(msg) == "warning"@ || level_of(msg) == "error"@) && code_of(msg) is Some
}

/// The text member `key` of `msg`, if it has one.
pub open spec fn str_member(msg: Json, key: Seq<char>) -> Option<Seq<char>> {
    match spec_get(msg, key) {
        Some(v) => spec_as_str(v),
        None => None,
    }
}

/// `lint` is what the diagnostic `msg` reports.
pub open spec fn lint_of(lint: ClippyLint, msg: Json) -> bool {
    &&& Some(lint.code@) == code_of(msg)
    &&& lint.message@ == match str_member(msg, "message"@) {
        Some(s) => s,
        None => Seq::empty(),
    }
    &&& match str_member(msg, "file"@) {
        Some(s) => lint.file matches Some(f) && f@ == s,
        None => lint.file is None,
    }
    &&& lint.line == match spec_get(msg, "line"@) {
        Some(v) => match spec_as_u64(v) {
            Some(n) => Some(n as u32),
            None => None,
        },
        None => None,
    }
}

/// The diagnostics among `msgs` that count: parsed ones that are lints.
pub open spec fn lint_messages(msgs: Seq<Option<Json>>) -> Seq<Json>
    decreases msgs.len(),
{
    if msgs.len() == 0 {
        Seq::empty()
    } else {
        lint_messages(msgs.drop_last()) + match msgs.last() {
            Some(m) => if is_lint(m) { seq![m] } else { Seq::empty() },
            None => Seq::empty(),
        }
    }
}

/// The lines of `s` that hold more than whitespace.
pub open spec fn nonblank(ls: Seq<Seq<char>>) -> Seq<Seq<char>>
    decreases ls.len(),
{
    if ls.len() == 0 {
        Seq::empty()
    } else {
        nonblank(ls.drop_last()) + if trim(ls.last()).len() > 0 { seq![ls.last()] } else { Seq::empty() }
    }
}

/// The messages of the output: each line that is not blank, read as JSON
/// (`None` when it is not).
pub open spec fn read_messages(stdout: Seq<char>) -> Seq<Option<Json>> {
    nonblank(lines(stdout)).map_values(|l: Seq<char>| json_value(l))
}

fn level_is(msg: &Json, word: &str) -> (r: bool)
    ensures
        r == (level_of(*msg) == word@),
{
    let level: Vec<char> = match msg.get("level") {
        Some(v) => match v.as_str() {
            Some(s) => str_chars(s.as_str()),
            None => Vec::new(),
        },
        None => Vec::new(),
    };
    let w = str_chars(word);
    crate::text::chars_eq(&level, &w)
}

fn lint_from(msg: &Json) -> (r: Option<ClippyLint>)
    ensures
        is_lint(*msg) ==> (r matches Some(l) && lint_of(l, *msg)),
        !is_lint(*msg) ==> r is None,
{
    let counted_level = level_is(msg, "warning") || level_is(msg, "error");
    let code = match msg.get2("code", "code") {
        Some(v) => v.as_str(),
        None => None,
    };
    if !counted_level {
        return None;
    }
    match code {
        None => None,
        Some(c) => {
            let message = match msg.get("message") {
                Some(v) => v.string_or_empty(),
                None => String::new(),
            };
            let file = match msg.get("file") {
                Some(v) => v.opt_string(),
                None => None,
            };
            let line = match msg.get("line") {
                Some(v) => match v.as_u64() {
                    Some(n) => Some(n as u32),
                    None => None,
                },
                None => None,
            };
            Some(ClippyLint { code: c.clone(), message, file, line })
        },
    }
}

impl ClippyCollector {
    pub fn new() -> Self {
        ClippyCollector
    }

    pub fn name(&self) -> (r: &'static str)
        ensures
            r@ == "clippy"@,
    {
        "clippy"
    }

    /// The lines of the output that hold a message: those that are not blank.
    pub fn message_lines(stdout: &str) -> (r: Vec<String>)
        ensures
            r@.len() == nonblank(lines(stdout@)).len(),
            forall|i: int| 0 <= i < r@.len() ==> #[trigger] r@[i]@ == nonblank(lines(stdout@))[i],
    {
        let text = str_chars(stdout);
        let ls = split_lines(&text);
        let ghost l = lines(stdout@);
        let mut out: Vec<String> = Vec::new();
        let mut i: usize = 0;
        while i < ls.len()
            invariant
                i <= ls@.len(),
                l == lines(stdout@),
                ls@.len() == l.len(),
                forall|k: int| 0 <= k < ls@.len() ==> #[trigger] ls@[k]@ == l[k],
                out@.len() == nonblank(l.subrange(0, i as int)).len(),
                forall|k: int| 0 <= k < out@.len() ==> #[trigger] out@[k]@ == nonblank(l.subrange(0, i as int))[k],
            decreases ls.len() - i,
        {
            proof {
                assert(l.subrange(0, i + 1).drop_last() =~= l.subrange(0, i as int));
                assert(ls@[i as int]@ == l[i as int]);
            }
            let t = trim_chars(&ls[i]);
            if t.len() > 0 {
                out.push(string_from_chars(&ls[i]));
            }
            i = i + 1;
        }
        proof {
            assert(l.subrange(0, l.len() as int) =~= l);
        }
        out
    }

    /// Reads the lints from the output: each line that is not blank is read
    /// as JSON, and the lints among those messages are counted and listed.
    pub fn parse_json_output(&self, stdout: &str) -> (r: (u32, Vec<ClippyLint>))
        ensures
            r.0 == lint_messages(read_messages(stdout@)).len() as u32,
            r.1@.len() == lint_messages(read_messages(stdout@)).len(),
            forall|i: int| 0 <= i < r.1@.len() ==> lint_of(#[trigger] r.1@[i], lint_messages(read_messages(stdout@))[i]),
    {
        let ls = Self::message_lines(stdout);
        let ghost nb = nonblank(lines(stdout@));
        let mut messages: Vec<Option<Json>> = Vec::new();
        let mut i: usize = 0;
        while i < ls.len()
            invariant
                i <= ls@.len(),
                ls@.len() == nb.len(),
                forall|k: int| 0 <= k < ls@.len() ==> #[trigger] ls@[k]@ == nb[k],
                messages@.len() == i,
                forall|k: int| 0 <= k < i ==> #[trigger] messages@[k] == json_value(nb[k]),
            decreases ls.len() - i,
        {
            messages.push(parse_json(ls[i].as_str()));
            i = i + 1;
        }
        proof {
            assert(messages@ =~= read_messages(stdout@));
        }
        self.count_lints(&messages)
    }

    /// Counts the lints among the parsed messages (`None` for a line that is
    /// not JSON) and lists them in order.
    pub fn count_lints(&self, messages: &Vec<Option<Json>>) -> (r: (u32, Vec<ClippyLint>))
        ensures
            r.0 == lint_messages(messages@).len() as u32,
            r.1@.len() == lint_messages(messages@).len(),
            forall|i: int| 0 <= i < r.1@.len() ==> lint_of(#[trigger] r.1@[i], lint_messages(messages@)[i]),
    {
        let mut lints: Vec<ClippyLint> = Vec::new();
        let mut i: usize = 0;
        while i < messages.len()
            invariant
                i <= messages@.len(),
                lints@.len() == lint_messages(messages@.subrange(0, i as int)).len(),
                lints@.len() <= i,
                forall|k: int| 0 <= k < lints@.len() ==> lint_of(#[trigger] lints@[k], lint_messages(messages@.subrange(0, i as int))[k]),
            decreases messages.len() - i,
        {
            proof {
                assert(messages@.subrange(0, i + 1).drop_last() =~= messages@.subrange(0, i as int));
            }
            match &messages[i] {
                Some(m) => {
                    if let Some(l) = lint_from(m) {
                        lints.push(l);
                    }
                },
                None => {},
            }
            i = i + 1;
        }
        proof {
            assert(messages@.subrange(0, messages@.len() as int) =~= messages@);
        }
        let count = lints.len() as u32;
        (count, lints)
    }

    /// Pass when clippy succeeded; otherwise fail when it reported lints,
    /// error when it did not.
    pub fn status_for(success: bool, warning_count: u32) -> (r: CollectorStatus)
        ensures
            r == if success {
                CollectorStatus::Pass
            } else if warning_count > 0 {
                CollectorStatus::Fail
            } else {
                CollectorStatus::Error
            },
    {
        if success {
            CollectorStatus::Pass
        } else if warning_count > 0 {
            CollectorStatus::Fail
        } else {
            CollectorStatus::Error
        }
    }
}

/// `j` is the JSON object of lint `l`: its code, file (or null), line (or
/// null) and message.
pub open spec fn lint_json(j: Json, l: ClippyLint) -> bool {
    j matches Json::Object(e) && e@.len() == 4
        && e@[0].0@ == "code"@ && str_is(e@[0].1, l.code@)
        && e@[1].0@ == "file"@ && match l.file {
            Some(f) => str_is(e@[1].1, f@),
            None => e@[1].1 == Json::Null,
        }
        && e@[2].0@ == "line"@ && e@[2].1 == match l.line {
            Some(n) => Json::UInt(n as u64),
            None => Json::Null,
        }
        && e@[3].0@ == "message"@ && str_is(e@[3].1, l.message@)
}

/// `j` is the details object of `warning_count` lints `lints` (members in
/// key order).
pub open spec fn clippy_details_json(j: Json, warning_count: u32, lints: Seq<ClippyLint>) -> bool {
    j matches Json::Object(e) && e@.len() == 2
        && e@[0].0@ == "details"@ && (e@[0].1 matches Json::Array(a) && a@.len() == lints.len()
            && forall|i: int| 0 <= i < a@.len() ==> lint_json(#[trigger] a@[i], lints[i]))
        && e@[1].0@ == "warningCount"@ && e@[1].1 == Json::UInt(warning_count as u64)
}

impl ClippyCollector {
    /// The details object of the collector: the lints and their number.
    pub fn details(warning_count: u32, lints: &Vec<ClippyLint>) -> (r: Json)
        ensures
            clippy_details_json(r, warning_count, lints@),
    {
        let mut items: Vec<Json> = Vec::new();
        let mut i: usize = 0;
        while i < lints.len()
            invariant
                i <= lints@.len(),
                items@.len() == i,
                forall|k: int| 0 <= k < i ==> lint_json(#[trigger] items@[k], lints@[k]),
            decreases lints.len() - i,
        {
            let l = &lints[i];
            let file = match &l.file {
                Some(f) => Json::Str(f.clone()),
                None => Json::Null,
            };
            let line = match l.line {
                Some(n) => Json::UInt(n as u64),
                None => Json::Null,
            };
            items.push(Json::Object(vec![
                ("code".to_string(), Json::Str(l.code.clone())),
                ("file".to_string(), file),
                ("line".to_string(), line),
                ("message".to_string(), Json::Str(l.message.clone())),
            ]));
            i = i + 1;
        }
        Json::Object(vec![
            ("details".to_string(), Json::Array(items)),
            ("warningCount".to_string(), Json::UInt(warning_count as u64)),
        ])
    }
}

impl Default for ClippyCollector {
    fn default() -> Self {
        ClippyCollector
    }
}

} // verus!
