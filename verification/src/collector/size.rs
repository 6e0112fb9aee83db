//! Size collector: lines per file, code lines per file, lines and
//! parameters per function.

use vstd::prelude::*;
use crate::collector::{
    named_message, named_message_text, numbers_message, numbers_message_text, violation_json,
    violation_to_json, violations_json, ViolationSpec,
};
use crate::collector::loc::{classify, classify_exec, LineKind};
use crate::config::SizeConfig;
use crate::json::Json;
use crate::schema::CollectorStatus;
use crate::text::{lines, split_lines, str_chars, trim, trim_chars};

verus! {

/// The code lines among `ls` and whether a block comment is open after
/// them: each line is classified as the line-count collector does, so the
/// interior of a `/* .. */` comment is comment, not code.
pub open spec fn code_scan(ls: Seq<Seq<char>>) -> (nat, bool)
    decreases ls.len(),
{
    if ls.len() == 0 {
        (0, false)
    } else {
        let (count, in_block) = code_scan(ls.drop_last());
        let (kind, open) = classify(trim(ls.last()), in_block);
        (count + if kind == LineKind::Code { 1nat } else { 0nat }, open)
    }
}

/// The number of code lines among `ls`.
pub open spec fn code_line_count(ls: Seq<Seq<char>>) -> nat {
    code_scan(ls).0
}

/// The number of lines of `content` (`str::lines`), cut to 32 bits.
pub fn count_total_lines(content: &str) -> (r: u32)
    ensures
        r == lines(content@).len() as u32,
{
    let chars = str_chars(content);
    let ls = split_lines(&chars);
    ls.len() as u32
}

/// The number of lines of `content` that are code: not blank, not a
/// comment line and not inside a block comment.
pub fn count_code_lines(content: &str) -> (r: u32)
    requires
        lines(content@).len() <= u32::MAX,
    ensures
        r == code_line_count(lines(content@)),
{
    let chars = str_chars(content);
    let ls = split_lines(&chars);
    let ghost all = lines(content@);
    let mut count: u32 = 0;
    let mut in_block = false;
    let mut i: usize = 0;
    proof {
        assert(all.take(0) =~= Seq::<Seq<char>>::empty());
    }
    while i < ls.len()
        invariant
            i <= ls.len(),
            ls@.len() == all.len(),
            all.len() <= u32::MAX,
            forall|k: int| 0 <= k < ls@.len() ==> #[trigger] ls@[k]@ == all[k],
            (count as nat, in_block) == code_scan(all.take(i as int)),
            count <= i,
        decreases ls.len() - i,
    {
        proof {
            assert(all.take(i + 1).drop_last() =~= all.take(i as int));
            assert(ls@[i as int]@ == all[i as int]);
        }
        let t = trim_chars(&ls[i]);
        let (kind, open) = classify_exec(&t, in_block);
        if kind == LineKind::Code {
            count = count + 1;
        }
        in_block = open;
        i = i + 1;
    }
    proof {
        assert(all.take(all.len() as int) =~= all);
    }
    count
}

/// A function of a source file: its name, the file's name, its first and
/// last lines (1-indexed), its length in lines and its number of
/// parameters (`self` included).
#[derive(Debug, Clone)]
pub struct FunctionInfo {
    pub name: String,
    pub file: String,
    pub start_line: u32,
    pub end_line: u32,
    pub total_lines: u32,
    pub param_count: usize,
}

/// The length in lines of a function from `start` to `end`: one when it
/// ends on the line it starts on, or before.
pub open spec fn span_lines(start: u32, end: u32) -> nat {
    (if end > start { (end - start) as nat } else { 0nat }) + 1
}

impl FunctionInfo {
    /// The function `name` of file `file` that spans lines `start_line` to
    /// `end_line` and takes `param_count` parameters.
    pub fn from_span(name: String, file: String, start_line: u32, end_line: u32, param_count: usize) -> (f: FunctionInfo)
        requires
            span_lines(start_line, end_line) <= u32::MAX,
        ensures
            f.name@ == name@,
            f.file@ == file@,
            f.start_line == start_line,
            f.end_line == end_line,
            f.total_lines == span_lines(start_line, end_line),
            f.param_count == param_count,
    {
        let total_lines = end_line.saturating_sub(start_line) + 1;
        FunctionInfo { name, file, start_line, end_line, total_lines, param_count }
    }
}

/// A `.rs` file of the workspace as the size collector reads it: its
/// name, its text (`None` when it could not be read) and its functions.
#[derive(Debug, Clone)]
pub struct SizeFile {
    pub name: String,
    pub content: Option<String>,
    pub functions: Vec<FunctionInfo>,
}

/// The limits the size collector checks; a limit that is `None` is not
/// checked.
#[derive(Debug, Clone, Copy, Default)]
pub struct SizeCollectorConfig {
    pub max_lines_per_file: Option<u32>,
    pub max_code_lines_per_file: Option<u32>,
    pub max_lines_per_function: Option<u32>,
    pub max_parameters_per_function: Option<u32>,
}

/// What the size collector has found so far.
pub ghost struct SizeModel {
    pub files: nat,
    pub max_lines_per_file: nat,
    pub max_code_lines_per_file: nat,
    pub max_lines_per_function: nat,
    pub max_parameters_per_function: nat,
    pub violations: Seq<ViolationSpec>,
}

/// The violations of function `f` under the limits `c`: first its length,
/// then its parameters.
pub open spec fn function_size_violations(f: FunctionInfo, c: SizeCollectorConfig) -> Seq<ViolationSpec> {
    let first = match c.max_lines_per_function {
        Some(max) => if f.total_lines > max {
            seq![ViolationSpec {
                rule_id: "size:max-lines-per-function"@,
                file: f.file@,
                line: f.start_line,
                function: Some(f.name@),
                message: named_message("Function `"@, f.name@, "` has "@, f.total_lines as nat, " lines; maximum allowed is "@, max as nat),
                actual: f.total_lines,
                threshold: max,
            }]
        } else {
            Seq::empty()
        },
        None => Seq::empty(),
    };
    let second = match c.max_parameters_per_function {
        Some(max) => if (f.param_count as u32) > max {
            seq![ViolationSpec {
                rule_id: "size:max-parameters-per-function"@,
                file: f.file@,
                line: f.start_line,
                function: Some(f.name@),
                message: named_message("Function `"@, f.name@, "` has "@, f.param_count as nat, " parameters; maximum allowed is "@, max as nat),
                actual: f.param_count as u32,
                threshold: max,
            }]
        } else {
            Seq::empty()
        },
        None => Seq::empty(),
    };
    first + second
}

/// Taking in the functions `fs`, in order.
pub open spec fn size_functions_step(m: SizeModel, fs: Seq<FunctionInfo>, c: SizeCollectorConfig) -> SizeModel
    decreases fs.len(),
{
    if fs.len() == 0 {
        m
    } else {
        let p = size_functions_step(m, fs.drop_last(), c);
        let f = fs.last();
        SizeModel {
            max_lines_per_function: if f.total_lines > p.max_lines_per_function { f.total_lines as nat } else { p.max_lines_per_function },
            max_parameters_per_function: if (f.param_count as u32) > p.max_parameters_per_function {
                (f.param_count as u32) as nat
            } else {
                p.max_parameters_per_function
            },
            violations: p.violations + function_size_violations(f, c),
            ..p
        }
    }
}

/// The violations of a file with `total` lines, `code` of them code lines,
/// under the limits `c`: first its length, then its code lines.
pub open spec fn file_size_violations(name: Seq<char>, total: u32, code: u32, c: SizeCollectorConfig) -> Seq<ViolationSpec> {
    let first = match c.max_lines_per_file {
        Some(max) => if total > max {
            seq![ViolationSpec {
                rule_id: "size:max-lines-per-file"@,
                file: name,
                line: 1,
                function: None,
                message: numbers_message("File has "@, total as nat, " lines; maximum allowed is "@, max as nat),
                actual: total,
                threshold: max,
            }]
        } else {
            Seq::empty()
        },
        None => Seq::empty(),
    };
    let second = match c.max_code_lines_per_file {
        Some(max) => if code > max {
            seq![ViolationSpec {
                rule_id: "size:max-code-lines-per-file"@,
                file: name,
                line: 1,
                function: None,
                message: numbers_message("File has "@, code as nat, " code lines; maximum allowed is "@, max as nat),
                actual: code,
                threshold: max,
            }]
        } else {
            Seq::empty()
        },
        None => Seq::empty(),
    };
    first + second
}

/// Taking in file `f`: it is counted; when it could be read, its lengths,
/// its violations and its functions are taken in.
pub open spec fn size_file_step(m: SizeModel, f: SizeFile, c: SizeCollectorConfig) -> SizeModel {
    match f.content {
        None => SizeModel { files: m.files + 1, ..m },
        Some(text) => {
            let total = lines(text@).len() as u32;
            let code = code_line_count(lines(text@)) as u32;
            let m2 = SizeModel {
                files: m.files + 1,
                max_lines_per_file: if total > m.max_lines_per_file { total as nat } else { m.max_lines_per_file },
                max_code_lines_per_file: if code > m.max_code_lines_per_file { code as nat } else { m.max_code_lines_per_file },
                violations: m.violations + file_size_violations(f.name@, total, code, c),
                ..m
            };
            size_functions_step(m2, f.functions@, c)
        },
    }
}

/// What the collector finds over the files `fs`, in order.
pub open spec fn size_model(fs: Seq<SizeFile>, c: SizeCollectorConfig) -> SizeModel
    decreases fs.len(),
{
    if fs.len() == 0 {
        SizeModel {
            files: 0,
            max_lines_per_file: 0,
            max_code_lines_per_file: 0,
            max_lines_per_function: 0,
            max_parameters_per_function: 0,
            violations: Seq::empty(),
        }
    } else {
        size_file_step(size_model(fs.drop_last(), c), fs.last(), c)
    }
}

/// The collector's status for what it found: `Pass` when no limit is
/// broken.
pub open spec fn size_status(m: SizeModel) -> CollectorStatus {
    if m.violations.len() == 0 { CollectorStatus::Pass } else { CollectorStatus::Fail }
}

/// `j` is the details object for what the collector found, `m` (members in
/// key order).
pub open spec fn size_details_json(j: Json, m: SizeModel) -> bool {
    j matches Json::Object(e) && e@.len() == 6
        && e@[0].0@ == "files"@ && e@[0].1 == Json::UInt(m.files as u64)
        && e@[1].0@ == "maxCodeLinesPerFile"@ && e@[1].1 == Json::UInt(m.max_code_lines_per_file as u64)
        && e@[2].0@ == "maxLinesPerFile"@ && e@[2].1 == Json::UInt(m.max_lines_per_file as u64)
        && e@[3].0@ == "maxLinesPerFunction"@ && e@[3].1 == Json::UInt(m.max_lines_per_function as u64)
        && e@[4].0@ == "maxParametersPerFunction"@ && e@[4].1 == Json::UInt(m.max_parameters_per_function as u64)
        && e@[5].0@ == "violations"@ && violations_json(e@[5].1, m.violations)
}

/// The counts of `m` fit the integers a summary holds them in.
pub open spec fn size_model_fits(m: SizeModel) -> bool {
    &&& m.files <= u32::MAX
    &&& m.max_lines_per_file <= u32::MAX
    &&& m.max_code_lines_per_file <= u32::MAX
    &&& m.max_lines_per_function <= u32::MAX
    &&& m.max_parameters_per_function <= u32::MAX
}

/// There are few enough files for the file count, and every readable
/// file has few enough lines for the code-line count, to fit a `u32`.
pub open spec fn size_files_fit(fs: Seq<SizeFile>) -> bool {
    &&& fs.len() <= u32::MAX
    &&& forall|i: int| 0 <= i < fs.len() ==> match (#[trigger] fs[i]).content {
        Some(t) => lines(t@).len() <= u32::MAX,
        None => true,
    }
}

/// The counters kept while reading the files.
struct SizeState {
    files: u32,
    max_lines_per_file: u32,
    max_code_lines_per_file: u32,
    max_lines_per_function: u32,
    max_parameters_per_function: u32,
    violations: Vec<Json>,
}

impl SizeState {
    /// The counters agree with `m`, and the violations are its JSON forms.
    spec fn holds(&self, m: SizeModel) -> bool {
        &&& self.files == m.files
        &&& self.max_lines_per_file == m.max_lines_per_file
        &&& self.max_code_lines_per_file == m.max_code_lines_per_file
        &&& self.max_lines_per_function == m.max_lines_per_function
        &&& self.max_parameters_per_function == m.max_parameters_per_function
        &&& self.violations@.len() == m.violations.len()
        &&& forall|k: int| 0 <= k < self.violations@.len() ==> violation_json(#[trigger] self.violations@[k], m.violations[k])
    }
}

proof fn lemma_functions_step_files(m: SizeModel, fs: Seq<FunctionInfo>, c: SizeCollectorConfig)
    ensures
        size_functions_step(m, fs, c).files == m.files,
    decreases fs.len(),
{
    if fs.len() > 0 {
        lemma_functions_step_files(m, fs.drop_last(), c);
    }
}

proof fn lemma_size_model_files(fs: Seq<SizeFile>, c: SizeCollectorConfig)
    ensures
        size_model(fs, c).files == fs.len(),
    decreases fs.len(),
{
    if fs.len() > 0 {
        lemma_size_model_files(fs.drop_last(), c);
        let m = size_model(fs.drop_last(), c);
        let f = fs.last();
        match f.content {
            None => {},
            Some(text) => {
                let total = lines(text@).len() as u32;
                let code = code_line_count(lines(text@)) as u32;
                let m2 = SizeModel {
                    files: m.files + 1,
                    max_lines_per_file: if total > m.max_lines_per_file { total as nat } else { m.max_lines_per_file },
                    max_code_lines_per_file: if code > m.max_code_lines_per_file { code as nat } else { m.max_code_lines_per_file },
                    violations: m.violations + file_size_violations(f.name@, total, code, c),
                    ..m
                };
                lemma_functions_step_files(m2, f.functions@, c);
            },
        }
    }
}

/// Appends `v` to `violations`, which hold the violations `vs`.
fn push_violation(violations: &mut Vec<Json>, v: Json, Ghost(vs): Ghost<Seq<ViolationSpec>>, Ghost(s): Ghost<ViolationSpec>)
    requires
        old(violations)@.len() == vs.len(),
        forall|k: int| 0 <= k < old(violations)@.len() ==> violation_json(#[trigger] old(violations)@[k], vs[k]),
        violation_json(v, s),
    ensures
        final(violations)@.len() == vs.push(s).len(),
        forall|k: int| 0 <= k < final(violations)@.len() ==> violation_json(#[trigger] final(violations)@[k], vs.push(s)[k]),
{
    violations.push(v);
    proof {
        assert forall|k: int| 0 <= k < violations@.len() implies violation_json(#[trigger] violations@[k], vs.push(s)[k]) by {
            if k < vs.len() {
                assert(violations@[k] == old(violations)@[k]);
            }
        }
    }
}

/// Counts the sizes of files and functions and reports the limits they
/// break.
#[derive(Debug, Clone, Copy)]
pub struct SizeCollector {
    pub config: SizeCollectorConfig,
}

impl SizeCollector {
    /// A collector that checks no limit.
    pub fn new() -> (c: SizeCollector)
        ensures
            c.config.max_lines_per_file is None,
            c.config.max_code_lines_per_file is None,
            c.config.max_lines_per_function is None,
            c.config.max_parameters_per_function is None,
    {
        SizeCollector {
            config: SizeCollectorConfig {
                max_lines_per_file: None,
                max_code_lines_per_file: None,
                max_lines_per_function: None,
                max_parameters_per_function: None,
            },
        }
    }

    /// A collector that checks the limits of the `[gate.size]` section.
    pub fn with_config(config: SizeConfig) -> (c: SizeCollector)
        ensures
            c.config.max_lines_per_file == config.max_lines_per_file,
            c.config.max_code_lines_per_file == config.max_code_lines_per_file,
            c.config.max_lines_per_function == config.max_lines_per_function,
            c.config.max_parameters_per_function == config.max_parameters_per_function,
    {
        SizeCollector {
            config: SizeCollectorConfig {
                max_lines_per_file: config.max_lines_per_file,
                max_code_lines_per_file: config.max_code_lines_per_file,
                max_lines_per_function: config.max_lines_per_function,
                max_parameters_per_function: config.max_parameters_per_function,
            },
        }
    }

    pub fn name(&self) -> (r: &'static str)
        ensures
            r@ == "size"@,
    {
        "size"
    }

    /// The collector reads the sources itself, so it is always available.
    pub fn is_available(&self) -> (r: bool)
        ensures
            r,
    {
        true
    }

    fn add_functions(&self, st: &mut SizeState, fs: &Vec<FunctionInfo>, Ghost(m): Ghost<SizeModel>)
        requires
            old(st).holds(m),
        ensures
            final(st).holds(size_functions_step(m, fs@, self.config)),
    {
        let c = self.config;
        let mut i: usize = 0;
        proof {
            assert(fs@.take(0) =~= Seq::<FunctionInfo>::empty());
        }
        while i < fs.len()
            invariant
                i <= fs.len(),
                c == self.config,
                st.holds(size_functions_step(m, fs@.take(i as int), c)),
            decreases fs.len() - i,
        {
            let f = &fs[i];
            let ghost p = size_functions_step(m, fs@.take(i as int), c);
            proof {
                assert(fs@.take(i + 1).drop_last() =~= fs@.take(i as int));
                assert(fs@[i as int] == *f);
            }
            if f.total_lines > st.max_lines_per_function {
                st.max_lines_per_function = f.total_lines;
            }
            let params = f.param_count as u32;
            if params > st.max_parameters_per_function {
                st.max_parameters_per_function = params;
            }
            let ghost vs0 = p.violations;
            let ghost mut vs = vs0;
            match c.max_lines_per_function {
                Some(max) => {
                    if f.total_lines > max {
                        let message = named_message_text(
                            "Function `", f.name.as_str(), "` has ", f.total_lines as u64, " lines; maximum allowed is ", max as u64);
                        let v = violation_to_json("size:max-lines-per-function", &f.file, f.start_line, Some(&f.name), message, f.total_lines, max);
                        let ghost s = ViolationSpec {
                            rule_id: "size:max-lines-per-function"@,
                            file: f.file@,
                            line: f.start_line,
                            function: Some(f.name@),
                            message: named_message("Function `"@, f.name@, "` has "@, f.total_lines as nat, " lines; maximum allowed is "@, max as nat),
                            actual: f.total_lines,
                            threshold: max,
                        };
                        push_violation(&mut st.violations, v, Ghost(vs), Ghost(s));
                        proof { vs = vs.push(s); }
                    }
                },
                None => {},
            }
            match c.max_parameters_per_function {
                Some(max) => {
                    if params > max {
                        let message = named_message_text(
                            "Function `", f.name.as_str(), "` has ", f.param_count as u64, " parameters; maximum allowed is ", max as u64);
                        let v = violation_to_json("size:max-parameters-per-function", &f.file, f.start_line, Some(&f.name), message, params, max);
                        let ghost s = ViolationSpec {
                            rule_id: "size:max-parameters-per-function"@,
                            file: f.file@,
                            line: f.start_line,
                            function: Some(f.name@),
                            message: named_message("Function `"@, f.name@, "` has "@, f.param_count as nat, " parameters; maximum allowed is "@, max as nat),
                            actual: params,
                            threshold: max,
                        };
                        push_violation(&mut st.violations, v, Ghost(vs), Ghost(s));
                        proof { vs = vs.push(s); }
                    }
                },
                None => {},
            }
            proof {
                assert(vs =~= vs0 + function_size_violations(*f, c));
            }
            i = i + 1;
        }
        proof {
            assert(fs@.take(fs@.len() as int) =~= fs@);
        }
    }

    fn add_file(&self, st: &mut SizeState, f: &SizeFile, Ghost(m): Ghost<SizeModel>)
        requires
            old(st).holds(m),
            old(st).files < u32::MAX,
            match f.content {
                Some(t) => lines(t@).len() <= u32::MAX,
                None => true,
            },
        ensures
            final(st).holds(size_file_step(m, *f, self.config)),
    {
        let c = self.config;
        st.files = st.files + 1;
        match &f.content {
            None => {},
            Some(text) => {
                let total = count_total_lines(text.as_str());
                let code = count_code_lines(text.as_str());
                if total > st.max_lines_per_file {
                    st.max_lines_per_file = total;
                }
                if code > st.max_code_lines_per_file {
                    st.max_code_lines_per_file = code;
                }
                let ghost vs0 = m.violations;
                let ghost mut vs = vs0;
                match c.max_lines_per_file {
                    Some(max) => {
                        if total > max {
                            let message = numbers_message_text("File has ", total as u64, " lines; maximum allowed is ", max as u64);
                            let v = violation_to_json("size:max-lines-per-file", &f.name, 1, None, message, total, max);
                            let ghost s = ViolationSpec {
                                rule_id: "size:max-lines-per-file"@,
                                file: f.name@,
                                line: 1,
                                function: None,
                                message: numbers_message("File has "@, total as nat, " lines; maximum allowed is "@, max as nat),
                                actual: total,
                                threshold: max,
                            };
                            push_violation(&mut st.violations, v, Ghost(vs), Ghost(s));
                            proof { vs = vs.push(s); }
                        }
                    },
                    None => {},
                }
                match c.max_code_lines_per_file {
                    Some(max) => {
                        if code > max {
                            let message = numbers_message_text("File has ", code as u64, " code lines; maximum allowed is ", max as u64);
                            let v = violation_to_json("size:max-code-lines-per-file", &f.name, 1, None, message, code, max);
                            let ghost s = ViolationSpec {
                                rule_id: "size:max-code-lines-per-file"@,
                                file: f.name@,
                                line: 1,
                                function: None,
                                message: numbers_message("File has "@, code as nat, " code lines; maximum allowed is "@, max as nat),
                                actual: code,
                                threshold: max,
                            };
                            push_violation(&mut st.violations, v, Ghost(vs), Ghost(s));
                            proof { vs = vs.push(s); }
                        }
                    },
                    None => {},
                }
                let ghost m2 = SizeModel {
                    files: m.files + 1,
                    max_lines_per_file: if total > m.max_lines_per_file { total as nat } else { m.max_lines_per_file },
                    max_code_lines_per_file: if code > m.max_code_lines_per_file { code as nat } else { m.max_code_lines_per_file },
                    violations: m.violations + file_size_violations(f.name@, total, code, c),
                    ..m
                };
                proof {
                    assert(vs =~= m2.violations);
                }
                self.add_functions(st, &f.functions, Ghost(m2));
            },
        }
    }

    /// The status and details object of the collector over the `.rs` files
    /// `files` of the workspace, in the order they were read: `Pass`
    /// when no limit is broken.
    pub fn analyze(&self, files: &Vec<SizeFile>) -> (r: (CollectorStatus, Json))
        requires
            size_files_fit(files@),
        ensures
            r.0 == size_status(size_model(files@, self.config)),
            size_details_json(r.1, size_model(files@, self.config)),
            size_model_fits(size_model(files@, self.config)),
    {
        let mut st = SizeState {
            files: 0,
            max_lines_per_file: 0,
            max_code_lines_per_file: 0,
            max_lines_per_function: 0,
            max_parameters_per_function: 0,
            violations: Vec::new(),
        };
        let mut i: usize = 0;
        proof {
            assert(files@.take(0) =~= Seq::<SizeFile>::empty());
        }
        while i < files.len()
            invariant
                i <= files.len(),
                size_files_fit(files@),
                st.holds(size_model(files@.take(i as int), self.config)),
            decreases files.len() - i,
        {
            proof {
                assert(files@.take(i + 1).drop_last() =~= files@.take(i as int));
                lemma_size_model_files(files@.take(i as int), self.config);
                assert(files@[i as int] == files[i as int]);
            }
            self.add_file(&mut st, &files[i], Ghost(size_model(files@.take(i as int), self.config)));
            i = i + 1;
        }
        proof {
            assert(files@.take(files@.len() as int) =~= files@);
        }
        let status = if st.violations.len() == 0 { CollectorStatus::Pass } else { CollectorStatus::Fail };
        let details = Json::Object(vec![
            ("files".to_string(), Json::UInt(st.files as u64)),
            ("maxCodeLinesPerFile".to_string(), Json::UInt(st.max_code_lines_per_file as u64)),
            ("maxLinesPerFile".to_string(), Json::UInt(st.max_lines_per_file as u64)),
            ("maxLinesPerFunction".to_string(), Json::UInt(st.max_lines_per_function as u64)),
            ("maxParametersPerFunction".to_string(), Json::UInt(st.max_parameters_per_function as u64)),
            ("violations".to_string(), Json::Array(st.violations)),
        ]);
        (status, details)
    }
}

impl Default for SizeCollector {
    fn default() -> (c: SizeCollector)
        ensures
            c.config.max_lines_per_file is None,
            c.config.max_code_lines_per_file is None,
            c.config.max_lines_per_function is None,
            c.config.max_parameters_per_function is None,
    {
        SizeCollector::new()
    }
}

// ------------------------------------------------------------------------------------------------
// Laws
// ------------------------------------------------------------------------------------------------

/// Violation `v` breaks a limit that `c` sets: its value exceeds its
/// threshold, and the threshold is the limit of its rule.
pub open spec fn breaks_size_limit(v: ViolationSpec, c: SizeCollectorConfig) -> bool {
    &&& v.actual > v.threshold
    &&& {
        ||| v.rule_id == "size:max-lines-per-file"@ && c.max_lines_per_file == Some(v.threshold)
        ||| v.rule_id == "size:max-code-lines-per-file"@ && c.max_code_lines_per_file == Some(v.threshold)
        ||| v.rule_id == "size:max-lines-per-function"@ && c.max_lines_per_function == Some(v.threshold)
        ||| v.rule_id == "size:max-parameters-per-function"@
            && c.max_parameters_per_function == Some(v.threshold)
    }
}

pub open spec fn all_break_size_limits(vs: Seq<ViolationSpec>, c: SizeCollectorConfig) -> bool {
    forall|k: int| 0 <= k < vs.len() ==> breaks_size_limit(#[trigger] vs[k], c)
}

/// `c` sets no limit.
pub open spec fn no_size_limits(c: SizeCollectorConfig) -> bool {
    &&& c.max_lines_per_file is None
    &&& c.max_code_lines_per_file is None
    &&& c.max_lines_per_function is None
    &&& c.max_parameters_per_function is None
}

proof fn lemma_append_breaking(a: Seq<ViolationSpec>, b: Seq<ViolationSpec>, c: SizeCollectorConfig)
    requires
        all_break_size_limits(a, c),
        all_break_size_limits(b, c),
    ensures
        all_break_size_limits(a + b, c),
{
    assert forall|k: int| 0 <= k < (a + b).len() implies breaks_size_limit(#[trigger] (a + b)[k], c) by {
        if k < a.len() {
            assert((a + b)[k] == a[k]);
        } else {
            assert((a + b)[k] == b[k - a.len()]);
        }
    }
}

proof fn lemma_functions_step_breaking(m: SizeModel, fs: Seq<FunctionInfo>, c: SizeCollectorConfig)
    requires
        all_break_size_limits(m.violations, c),
    ensures
        all_break_size_limits(size_functions_step(m, fs, c).violations, c),
        no_size_limits(c) ==> size_functions_step(m, fs, c).violations == m.violations,
    decreases fs.len(),
{
    if fs.len() > 0 {
        lemma_functions_step_breaking(m, fs.drop_last(), c);
        let p = size_functions_step(m, fs.drop_last(), c);
        let f = fs.last();
        let vs = function_size_violations(f, c);
        reveal_strlit("size:max-lines-per-function");
        reveal_strlit("size:max-parameters-per-function");
        assert(all_break_size_limits(vs, c));
        lemma_append_breaking(p.violations, vs, c);
        if no_size_limits(c) {
            assert(vs =~= Seq::<ViolationSpec>::empty());
            assert(p.violations + vs =~= p.violations);
        }
    }
}

proof fn lemma_size_model_breaking(fs: Seq<SizeFile>, c: SizeCollectorConfig)
    ensures
        all_break_size_limits(size_model(fs, c).violations, c),
        no_size_limits(c) ==> size_model(fs, c).violations.len() == 0,
    decreases fs.len(),
{
    if fs.len() > 0 {
        lemma_size_model_breaking(fs.drop_last(), c);
        let m = size_model(fs.drop_last(), c);
        let f = fs.last();
        match f.content {
            None => {},
            Some(text) => {
                let total = lines(text@).len() as u32;
                let code = code_line_count(lines(text@)) as u32;
                let vs = file_size_violations(f.name@, total, code, c);
                reveal_strlit("size:max-lines-per-file");
                reveal_strlit("size:max-code-lines-per-file");
                assert(all_break_size_limits(vs, c));
                lemma_append_breaking(m.violations, vs, c);
                let m2 = SizeModel {
                    files: m.files + 1,
                    max_lines_per_file: if total > m.max_lines_per_file { total as nat } else { m.max_lines_per_file },
                    max_code_lines_per_file: if code > m.max_code_lines_per_file { code as nat } else { m.max_code_lines_per_file },
                    violations: m.violations + vs,
                    ..m
                };
                if no_size_limits(c) {
                    assert(vs =~= Seq::<ViolationSpec>::empty());
                    assert(m.violations + vs =~= m.violations);
                }
                lemma_functions_step_breaking(m2, f.functions@, c);
            },
        }
    }
}

/// Every violation the size collector reports breaks a limit that its
/// configuration sets (its value exceeds the limit of its rule), so a
/// collector with no limits, as `SizeCollector::new` makes, reports none
/// and passes; and the collector passes exactly when it reports none.
pub proof fn law_size_violations_break_set_limits(fs: Seq<SizeFile>, c: SizeCollectorConfig)
    ensures
        all_break_size_limits(size_model(fs, c).violations, c),
        no_size_limits(c) ==> size_model(fs, c).violations.len() == 0,
        size_status(size_model(fs, c)) == CollectorStatus::Pass <==> size_model(fs, c).violations.len() == 0,
{
    lemma_size_model_breaking(fs, c);
}

/// The violations of the functions `fs` alone, in order.
spec fn functions_violations(fs: Seq<FunctionInfo>, c: SizeCollectorConfig) -> Seq<ViolationSpec>
    decreases fs.len(),
{
    if fs.len() == 0 {
        Seq::empty()
    } else {
        functions_violations(fs.drop_last(), c) + function_size_violations(fs.last(), c)
    }
}

proof fn lemma_functions_step_appends(m: SizeModel, fs: Seq<FunctionInfo>, c: SizeCollectorConfig)
    ensures
        size_functions_step(m, fs, c).violations == m.violations + functions_violations(fs, c),
    decreases fs.len(),
{
    if fs.len() > 0 {
        lemma_functions_step_appends(m, fs.drop_last(), c);
        assert(m.violations + functions_violations(fs.drop_last(), c) + function_size_violations(fs.last(), c)
            =~= m.violations + functions_violations(fs, c));
    }
}

/// The violations one file gives by itself.
spec fn file_violations(f: SizeFile, c: SizeCollectorConfig) -> Seq<ViolationSpec> {
    match f.content {
        None => Seq::empty(),
        Some(text) => file_size_violations(f.name@, lines(text@).len() as u32, code_line_count(lines(text@)) as u32, c)
            + functions_violations(f.functions@, c),
    }
}

proof fn lemma_file_step_appends(m: SizeModel, f: SizeFile, c: SizeCollectorConfig)
    ensures
        size_file_step(m, f, c).violations == m.violations + file_violations(f, c),
{
    match f.content {
        None => {
            assert(m.violations + Seq::<ViolationSpec>::empty() =~= m.violations);
        },
        Some(text) => {
            let total = lines(text@).len() as u32;
            let code = code_line_count(lines(text@)) as u32;
            let m2 = SizeModel {
                files: m.files + 1,
                max_lines_per_file: if total > m.max_lines_per_file { total as nat } else { m.max_lines_per_file },
                max_code_lines_per_file: if code > m.max_code_lines_per_file { code as nat } else { m.max_code_lines_per_file },
                violations: m.violations + file_size_violations(f.name@, total, code, c),
                ..m
            };
            lemma_functions_step_appends(m2, f.functions@, c);
            assert(m2.violations + functions_violations(f.functions@, c) =~= m.violations + file_violations(f, c));
        },
    }
}

/// What the size collector reports over files is what it reports over
/// each file in turn: reading one more file keeps every violation found
/// so far and adds those of that file, the same ones as when the file is
/// read alone.
pub proof fn law_size_violations_accumulate(fs: Seq<SizeFile>, f: SizeFile, c: SizeCollectorConfig)
    ensures
        size_model(fs.push(f), c).violations == size_model(fs, c).violations + size_model(seq![f], c).violations,
{
    assert(fs.push(f).drop_last() =~= fs);
    assert(seq![f].drop_last() =~= Seq::<SizeFile>::empty());
    lemma_file_step_appends(size_model(fs, c), f, c);
    lemma_file_step_appends(size_model(Seq::<SizeFile>::empty(), c), f, c);
    assert(Seq::<ViolationSpec>::empty() + file_violations(f, c) =~= file_violations(f, c));
}

/// A function that breaks a set limit yields its violation: a file read
/// alone whose function is longer than the function-length limit, or
/// takes more parameters than the parameter limit, reports a violation of
/// that rule for it, whatever the other limits.
pub proof fn law_size_function_limits_reported(f: SizeFile, c: SizeCollectorConfig, text: String, g: FunctionInfo)
    requires
        f.content == Some(text),
        f.functions@ == seq![g],
    ensures
        (c.max_lines_per_function matches Some(max) && g.total_lines > max) ==> exists|k: int|
            0 <= k < size_model(seq![f], c).violations.len() && (#[trigger] size_model(seq![f], c).violations[k]).rule_id
                == "size:max-lines-per-function"@ && size_model(seq![f], c).violations[k].function == Some(g.name@),
        (c.max_parameters_per_function matches Some(max) && (g.param_count as u32) > max) ==> exists|k: int|
            0 <= k < size_model(seq![f], c).violations.len() && (#[trigger] size_model(seq![f], c).violations[k]).rule_id
                == "size:max-parameters-per-function"@ && size_model(seq![f], c).violations[k].function == Some(g.name@),
{
    assert(seq![f].drop_last() =~= Seq::<SizeFile>::empty());
    let m0 = size_model(Seq::<SizeFile>::empty(), c);
    lemma_file_step_appends(m0, f, c);
    assert(f.functions@.drop_last() =~= Seq::<FunctionInfo>::empty());
    let fv = file_size_violations(f.name@, lines(text@).len() as u32, code_line_count(lines(text@)) as u32, c);
    let gv = function_size_violations(g, c);
    assert(f.functions@.last() == g);
    assert(functions_violations(f.functions@.drop_last(), c) =~= Seq::<ViolationSpec>::empty());
    assert(Seq::<ViolationSpec>::empty() + gv =~= gv);
    assert(functions_violations(f.functions@, c) =~= gv);
    let vs = size_model(seq![f], c).violations;
    assert(vs =~= fv + gv);
    if c.max_lines_per_function matches Some(max) && g.total_lines > max {
        assert(vs[fv.len() as int] == gv[0]);
    }
    if c.max_parameters_per_function matches Some(max) && (g.param_count as u32) > max {
        let k = vs.len() - 1;
        assert(vs[k] == gv[gv.len() - 1]);
    }
}

/// A readable file that breaks a set file limit yields its violation,
/// read alone: more lines than the line limit, or more code lines than the
/// code-line limit, each reports a violation of that rule for the file.
pub proof fn law_size_file_limits_reported(f: SizeFile, c: SizeCollectorConfig, text: String)
    requires
        f.content == Some(text),
    ensures
        (c.max_lines_per_file matches Some(max) && (lines(text@).len() as u32) > max) ==> exists|k: int|
            0 <= k < size_model(seq![f], c).violations.len() && (#[trigger] size_model(seq![f], c).violations[k]).rule_id
                == "size:max-lines-per-file"@ && size_model(seq![f], c).violations[k].file == f.name@,
        (c.max_code_lines_per_file matches Some(max) && (code_line_count(lines(text@)) as u32) > max) ==> exists|k: int|
            0 <= k < size_model(seq![f], c).violations.len() && (#[trigger] size_model(seq![f], c).violations[k]).rule_id
                == "size:max-code-lines-per-file"@ && size_model(seq![f], c).violations[k].file == f.name@,
{
    assert(seq![f].drop_last() =~= Seq::<SizeFile>::empty());
    let m0 = size_model(Seq::<SizeFile>::empty(), c);
    lemma_file_step_appends(m0, f, c);
    let total = lines(text@).len() as u32;
    let code = code_line_count(lines(text@)) as u32;
    let fv = file_size_violations(f.name@, total, code, c);
    let vs = size_model(seq![f], c).violations;
    assert(vs =~= fv + functions_violations(f.functions@, c));
    if c.max_lines_per_file matches Some(max) && total > max {
        assert(vs[0] == fv[0]);
    }
    if c.max_code_lines_per_file matches Some(max) && code > max {
        assert(vs[fv.len() - 1] == fv[fv.len() - 1]);
    }
}

} // verus!
