//! Lines-of-code collector: counts code, comment and blank lines and finds
//! the lines longer than the allowed length.

use vstd::prelude::*;
use crate::collector::SourceFile;
use crate::config::LocConfig;
use crate::json::{str_array_is, str_is, Json};
use crate::schema::CollectorStatus;
use crate::text::{ends_with, ends_with_str, lines, lines_fold, split_lines, starts_with, starts_with_str, str_chars, trim, trim_chars};

verus! {

/// The line length allowed when none is configured.
pub const DEFAULT_MAX_LINE_LENGTH: usize = 120;

/// At most this many long lines are reported one by one; the rest are
/// only counted.
pub const LONG_LINE_DETAIL_CAP: usize = 200;

/// The number of bytes `c` takes in UTF-8.
pub open spec fn char_width(c: char) -> nat {
    if (c as u32) < 0x80 { 1 }
    else if (c as u32) < 0x800 { 2 }
    else if (c as u32) < 0x10000 { 3 }
    else { 4 }
}

/// The number of bytes `s` takes in UTF-8 (`str::len`).
pub open spec fn byte_len(s: Seq<char>) -> nat
    decreases s.len(),
{
    if s.len() == 0 { 0 } else { byte_len(s.drop_last()) + char_width(s.last()) }
}

/// What a line of source holds.
#[derive(Debug, Clone, Copy, PartialEq, Eq, Structural)]
pub enum LineKind {
    Blank,
    Comment,
    Code,
}

/// The kind of a line, from its trimmed text and whether a block comment is
/// open before it, and whether one is open after it.  A line inside a block
/// comment is a comment; the comment closes on a line that ends with `*/`.
/// A line that starts a block comment and does not end with `*/` opens one.
pub open spec fn classify(trimmed: Seq<char>, in_block: bool) -> (LineKind, bool) {
    if trimmed.len() == 0 {
        (LineKind::Blank, in_block)
    } else if in_block {
        (LineKind::Comment, !ends_with(trimmed, "*/"@))
    } else if starts_with(trimmed, "//"@) {
        (LineKind::Comment, false)
    } else if starts_with(trimmed, "/*"@) {
        (LineKind::Comment, !ends_with(trimmed, "*/"@))
    } else {
        (LineKind::Code, false)
    }
}

/// The line counts of a scan: what has been counted over the files read so
/// far.  A long line is held as (file, line number, length in bytes).
pub ghost struct LocModel {
    pub total_lines: nat,
    pub code_lines: nat,
    pub comment_lines: nat,
    pub blank_lines: nat,
    pub long_lines: nat,
    pub max_line_length_found: nat,
    pub files: nat,
    pub files_with_long_lines: nat,
    pub long_line_files: Seq<Seq<char>>,
    pub long_line_details: Seq<(Seq<char>, nat, nat)>,
    pub long_line_details_omitted: nat,
}

/// Nothing counted yet.
pub open spec fn empty_model() -> LocModel {
    LocModel {
        total_lines: 0,
        code_lines: 0,
        comment_lines: 0,
        blank_lines: 0,
        long_lines: 0,
        max_line_length_found: 0,
        files: 0,
        files_with_long_lines: 0,
        long_line_files: Seq::empty(),
        long_line_details: Seq::empty(),
        long_line_details_omitted: 0,
    }
}

/// Counting line number `line_no` of file `name`, with a block comment open
/// before it or not and a long line seen in the file before it or not.
pub open spec fn line_step(
    m: LocModel,
    in_block: bool,
    has_long: bool,
    name: Seq<char>,
    line_no: nat,
    line: Seq<char>,
    max: nat,
) -> (LocModel, bool, bool) {
    let len = byte_len(line);
    let long = len > max;
    let (kind, next_block) = classify(trim(line), in_block);
    let m2 = LocModel {
        total_lines: m.total_lines + 1,
        code_lines: if kind == LineKind::Code { m.code_lines + 1 } else { m.code_lines },
        comment_lines: if kind == LineKind::Comment { m.comment_lines + 1 } else { m.comment_lines },
        blank_lines: if kind == LineKind::Blank { m.blank_lines + 1 } else { m.blank_lines },
        long_lines: if long { m.long_lines + 1 } else { m.long_lines },
        max_line_length_found: if len > m.max_line_length_found { len } else { m.max_line_length_found },
        long_line_details: if long && m.long_line_details.len() < LONG_LINE_DETAIL_CAP {
            m.long_line_details.push((name, line_no, len))
        } else {
            m.long_line_details
        },
        long_line_details_omitted: if long && m.long_line_details.len() >= LONG_LINE_DETAIL_CAP {
            m.long_line_details_omitted + 1
        } else {
            m.long_line_details_omitted
        },
        ..m
    };
    (m2, next_block, has_long || long)
}

/// Counting the lines `ls` of file `name`, the first of them line 1.
pub open spec fn scan_lines(m: LocModel, name: Seq<char>, ls: Seq<Seq<char>>, max: nat) -> (LocModel, bool, bool)
    decreases ls.len(),
{
    if ls.len() == 0 {
        (m, false, false)
    } else {
        let (p, in_block, has_long) = scan_lines(m, name, ls.drop_last(), max);
        line_step(p, in_block, has_long, name, ls.len(), ls.last(), max)
    }
}

/// Counting file `name` with text `content`.
pub open spec fn scan_file(m: LocModel, name: Seq<char>, content: Seq<char>, max: nat) -> LocModel {
    let (p, _, has_long) = scan_lines(m, name, lines(content), max);
    LocModel {
        files: p.files + 1,
        files_with_long_lines: if has_long { p.files_with_long_lines + 1 } else { p.files_with_long_lines },
        long_line_files: if has_long { p.long_line_files.push(name) } else { p.long_line_files },
        ..p
    }
}

/// Counting the files `files` in order.
pub open spec fn scan_files(files: Seq<SourceFile>, max: nat) -> LocModel
    decreases files.len(),
{
    if files.len() == 0 {
        empty_model()
    } else {
        scan_file(scan_files(files.drop_last(), max), files.last().name@, files.last().content@, max)
    }
}

/// The number of lines of all of `files`.
pub open spec fn total_line_count(files: Seq<SourceFile>) -> nat
    decreases files.len(),
{
    if files.len() == 0 { 0 } else { total_line_count(files.drop_last()) + lines(files.last().content@).len() }
}

/// The JSON form of a long line of `max` allowed bytes.
pub open spec fn long_line_json(j: Json, d: (Seq<char>, nat, nat), max: nat) -> bool {
    j matches Json::Object(e) && e@.len() == 4
        && e@[0].0@ == "file"@ && str_is(e@[0].1, d.0)
        && e@[1].0@ == "length"@ && e@[1].1 == Json::UInt(d.2 as u64)
        && e@[2].0@ == "line"@ && e@[2].1 == Json::UInt(d.1 as u64)
        && e@[3].0@ == "threshold"@ && e@[3].1 == Json::UInt(max as u64)
}

/// `j` is the details object the collector reports for the counts `m`
/// with `max` allowed bytes per line (members in key order).
pub open spec fn loc_details_json(j: Json, m: LocModel, max: nat) -> bool {
    j matches Json::Object(e) && e@.len() == 12
        && e@[0].0@ == "blankLines"@ && e@[0].1 == Json::UInt(m.blank_lines as u64)
        && e@[1].0@ == "codeLines"@ && e@[1].1 == Json::UInt(m.code_lines as u64)
        && e@[2].0@ == "commentLines"@ && e@[2].1 == Json::UInt(m.comment_lines as u64)
        && e@[3].0@ == "files"@ && e@[3].1 == Json::UInt(m.files as u64)
        && e@[4].0@ == "filesWithLongLines"@ && e@[4].1 == Json::UInt(m.files_with_long_lines as u64)
        && e@[5].0@ == "longLineDetails"@ && (e@[5].1 matches Json::Array(a)
            && a@.len() == m.long_line_details.len()
            && forall|i: int| 0 <= i < a@.len() ==> long_line_json(#[trigger] a@[i], m.long_line_details[i], max))
        && e@[6].0@ == "longLineDetailsOmitted"@ && e@[6].1 == Json::UInt(m.long_line_details_omitted as u64)
        && e@[7].0@ == "longLineFiles"@ && str_array_is(e@[7].1, m.long_line_files)
        && e@[8].0@ == "longLines"@ && e@[8].1 == Json::UInt(m.long_lines as u64)
        && e@[9].0@ == "maxLineLengthAllowed"@ && e@[9].1 == Json::UInt(max as u64)
        && e@[10].0@ == "maxLineLengthFound"@ && e@[10].1 == Json::UInt(m.max_line_length_found as u64)
        && e@[11].0@ == "totalLines"@ && e@[11].1 == Json::UInt(m.total_lines as u64)
}

/// The collector's status for the counts `m`: `Pass` when no line is too long.
pub open spec fn loc_status(m: LocModel) -> CollectorStatus {
    if m.long_lines == 0 { CollectorStatus::Pass } else { CollectorStatus::Fail }
}

/// Every text of `files` fits, in UTF-8, in memory, and all their lines
/// together fit the `u32` counters.
pub open spec fn fits_counters(files: Seq<SourceFile>) -> bool {
    &&& files.len() <= u32::MAX
    &&& total_line_count(files) <= u32::MAX
    &&& forall|i: int| 0 <= i < files.len() ==> byte_len(#[trigger] files[i].content@) <= usize::MAX
}

/// The counts kept while scanning.
struct LocScan {
    total_lines: u32,
    code_lines: u32,
    comment_lines: u32,
    blank_lines: u32,
    long_lines: u32,
    max_line_length_found: usize,
    files: u32,
    files_with_long_lines: u32,
    long_line_files: Vec<String>,
    long_line_details: Vec<(String, u32, usize)>,
    long_line_details_omitted: u32,
}

impl LocScan {
    spec fn model(&self) -> LocModel {
        LocModel {
            total_lines: self.total_lines as nat,
            code_lines: self.code_lines as nat,
            comment_lines: self.comment_lines as nat,
            blank_lines: self.blank_lines as nat,
            long_lines: self.long_lines as nat,
            max_line_length_found: self.max_line_length_found as nat,
            files: self.files as nat,
            files_with_long_lines: self.files_with_long_lines as nat,
            long_line_files: self.long_line_files@.map_values(|s: String| s@),
            long_line_details: self.long_line_details@.map_values(|d: (String, u32, usize)| (d.0@, d.1 as nat, d.2 as nat)),
            long_line_details_omitted: self.long_line_details_omitted as nat,
        }
    }
}

/// The counts of `m` agree with one another: every line has one kind, every
/// long line is either listed or counted as omitted, and every file with a
/// long line is listed.
pub open spec fn model_wf(m: LocModel) -> bool {
    &&& m.code_lines + m.comment_lines + m.blank_lines == m.total_lines
    &&& m.long_lines <= m.total_lines
    &&& m.long_line_details.len() + m.long_line_details_omitted == m.long_lines
    &&& m.long_line_details.len() <= LONG_LINE_DETAIL_CAP
    &&& m.files_with_long_lines <= m.files
    &&& m.long_line_files.len() == m.files_with_long_lines
}

/// The counts of `m`, and the limit `max`, fit the integers a summary
/// holds them in.
pub open spec fn loc_model_fits(m: LocModel, max: nat) -> bool {
    &&& m.total_lines <= u32::MAX
    &&& m.files <= u32::MAX
    &&& m.max_line_length_found <= usize::MAX
    &&& max <= usize::MAX
    &&& forall|i: int| 0 <= i < m.long_line_details.len() ==> {
        let d = #[trigger] m.long_line_details[i];
        d.1 <= u32::MAX && d.2 <= usize::MAX
    }
}

proof fn lemma_byte_len_push(s: Seq<char>, c: char)
    ensures
        byte_len(s.push(c)) == byte_len(s) + char_width(c),
{
    assert(s.push(c).drop_last() =~= s);
}

proof fn lemma_byte_len_prefix(s: Seq<char>, i: int)
    requires
        0 <= i <= s.len(),
    ensures
        byte_len(s.take(i)) <= byte_len(s),
    decreases s.len(),
{
    if i == s.len() {
        assert(s.take(i) =~= s);
    } else {
        assert(s.drop_last().take(i) =~= s.take(i));
        lemma_byte_len_prefix(s.drop_last(), i);
    }
}

proof fn lemma_lines_fold_bytes(s: Seq<char>)
    ensures
        byte_len(lines_fold(s).1) <= byte_len(s),
        forall|k: int| 0 <= k < lines_fold(s).0.len() ==> byte_len(#[trigger] lines_fold(s).0[k]) <= byte_len(s),
    decreases s.len(),
{
    if s.len() > 0 {
        lemma_lines_fold_bytes(s.drop_last());
        let cur = lines_fold(s.drop_last()).1;
        if cur.len() > 0 {
            assert(cur.drop_last().push(cur.last()) =~= cur);
        }
        lemma_byte_len_push(cur, s.last());
    }
}

/// No line of `s` is longer in bytes than `s` itself.
proof fn lemma_line_bytes(s: Seq<char>)
    ensures
        forall|k: int| 0 <= k < lines(s).len() ==> byte_len(#[trigger] lines(s)[k]) <= byte_len(s),
{
    lemma_lines_fold_bytes(s);
}

proof fn lemma_total_line_count_prefix(files: Seq<SourceFile>, i: int)
    requires
        0 <= i <= files.len(),
    ensures
        total_line_count(files.take(i)) <= total_line_count(files),
    decreases files.len(),
{
    if i == files.len() {
        assert(files.take(i) =~= files);
    } else {
        assert(files.drop_last().take(i) =~= files.take(i));
        lemma_total_line_count_prefix(files.drop_last(), i);
    }
}

fn char_width_exec(c: char) -> (w: usize)
    ensures
        w == char_width(c),
{
    let u = c as u32;
    if u < 0x80 { 1 } else if u < 0x800 { 2 } else if u < 0x10000 { 3 } else { 4 }
}

/// The number of bytes `s` takes in UTF-8.
fn byte_length(s: &Vec<char>) -> (n: usize)
    requires
        byte_len(s@) <= usize::MAX,
    ensures
        n == byte_len(s@),
{
    let mut n: usize = 0;
    let mut i: usize = 0;
    while i < s.len()
        invariant
            i <= s.len(),
            byte_len(s@) <= usize::MAX,
            n == byte_len(s@.take(i as int)),
        decreases s.len() - i,
    {
        proof {
            assert(s@.take(i + 1).drop_last() =~= s@.take(i as int));
            lemma_byte_len_prefix(s@, i + 1);
        }
        n = n + char_width_exec(s[i]);
        i = i + 1;
    }
    proof {
        assert(s@.take(s@.len() as int) =~= s@);
    }
    n
}

/// The kind of a trimmed line and whether a block comment is open after it.
pub(crate) fn classify_exec(trimmed: &Vec<char>, in_block: bool) -> (r: (LineKind, bool))
    ensures
        r == classify(trimmed@, in_block),
{
    if trimmed.len() == 0 {
        (LineKind::Blank, in_block)
    } else if in_block {
        (LineKind::Comment, !ends_with_str(trimmed, "*/"))
    } else if starts_with_str(trimmed, "//") {
        (LineKind::Comment, false)
    } else if starts_with_str(trimmed, "/*") {
        (LineKind::Comment, !ends_with_str(trimmed, "*/"))
    } else {
        (LineKind::Code, false)
    }
}

impl LocScan {
    fn new() -> (s: LocScan)
        ensures
            s.model() == empty_model(),
    {
        let s = LocScan {
            total_lines: 0,
            code_lines: 0,
            comment_lines: 0,
            blank_lines: 0,
            long_lines: 0,
            max_line_length_found: 0,
            files: 0,
            files_with_long_lines: 0,
            long_line_files: Vec::new(),
            long_line_details: Vec::new(),
            long_line_details_omitted: 0,
        };
        proof {
            assert(s.model().long_line_files =~= Seq::<Seq<char>>::empty());
            assert(s.model().long_line_details =~= Seq::<(Seq<char>, nat, nat)>::empty());
        }
        s
    }

    fn add_line(
        &mut self,
        in_block: bool,
        has_long: bool,
        name: &String,
        line_no: u32,
        line: &Vec<char>,
        max: usize,
    ) -> (r: (bool, bool))
        requires
            model_wf(old(self).model()),
            old(self).total_lines < u32::MAX,
            byte_len(line@) <= usize::MAX,
        ensures
            model_wf(final(self).model()),
            (final(self).model(), r.0, r.1)
                == line_step(old(self).model(), in_block, has_long, name@, line_no as nat, line@, max as nat),
    {
        let ghost m = self.model();
        let len = byte_length(line);
        let trimmed = trim_chars(line);
        let (kind, next_block) = classify_exec(&trimmed, in_block);
        let long = len > max;
        self.total_lines = self.total_lines + 1;
        match kind {
            LineKind::Code => { self.code_lines = self.code_lines + 1; }
            LineKind::Comment => { self.comment_lines = self.comment_lines + 1; }
            LineKind::Blank => { self.blank_lines = self.blank_lines + 1; }
        }
        if len > self.max_line_length_found {
            self.max_line_length_found = len;
        }
        if long {
            self.long_lines = self.long_lines + 1;
            if self.long_line_details.len() < LONG_LINE_DETAIL_CAP {
                self.long_line_details.push((name.clone(), line_no, len));
            } else {
                self.long_line_details_omitted = self.long_line_details_omitted + 1;
            }
        }
        proof {
            let m2 = line_step(m, in_block, has_long, name@, line_no as nat, line@, max as nat).0;
            assert(self.model().long_line_details =~= m2.long_line_details);
            assert(self.model().long_line_files =~= m2.long_line_files);
        }
        (next_block, has_long || long)
    }

    fn add_file(&mut self, name: &String, content: &String, max: usize)
        requires
            model_wf(old(self).model()),
            old(self).files < u32::MAX,
            old(self).total_lines + lines(content@).len() <= u32::MAX,
            byte_len(content@) <= usize::MAX,
        ensures
            model_wf(final(self).model()),
            final(self).model() == scan_file(old(self).model(), name@, content@, max as nat),
            final(self).total_lines == old(self).total_lines + lines(content@).len(),
            final(self).files == old(self).files + 1,
    {
        let ghost m0 = self.model();
        let ghost ls = lines(content@);
        let chars = str_chars(content.as_str());
        let split = split_lines(&chars);
        proof {
            lemma_line_bytes(content@);
        }
        let mut in_block = false;
        let mut has_long = false;
        let mut k: usize = 0;
        proof {
            assert(ls.take(0) =~= Seq::<Seq<char>>::empty());
        }
        while k < split.len()
            invariant
                k <= split.len(),
                split@.len() == ls.len(),
                forall|i: int| 0 <= i < split@.len() ==> #[trigger] split@[i]@ == ls[i],
                forall|i: int| 0 <= i < ls.len() ==> byte_len(#[trigger] ls[i]) <= byte_len(content@),
                byte_len(content@) <= usize::MAX,
                model_wf(self.model()),
                self.total_lines == m0.total_lines + k,
                m0.total_lines + ls.len() <= u32::MAX,
                self.files == m0.files,
                self.files_with_long_lines == m0.files_with_long_lines,
                self.long_line_files@.map_values(|s: String| s@) == m0.long_line_files,
                (self.model(), in_block, has_long) == scan_lines(m0, name@, ls.take(k as int), max as nat),
            decreases split.len() - k,
        {
            proof {
                assert(ls.take(k + 1).drop_last() =~= ls.take(k as int));
                assert(split@[k as int]@ == ls[k as int]);
            }
            let (b, h) = self.add_line(in_block, has_long, name, (k + 1) as u32, &split[k], max);
            in_block = b;
            has_long = h;
            k = k + 1;
        }
        proof {
            assert(ls.take(ls.len() as int) =~= ls);
        }
        self.files = self.files + 1;
        if has_long {
            self.files_with_long_lines = self.files_with_long_lines + 1;
            self.long_line_files.push(name.clone());
        }
        proof {
            let m2 = scan_file(m0, name@, content@, max as nat);
            assert(self.model().long_line_files =~= m2.long_line_files);
            assert(self.model().long_line_details =~= m2.long_line_details);
        }
    }
}

fn uint_entry(key: &str, n: u64) -> (e: (String, Json))
    ensures
        e.0@ == key@,
        e.1 == Json::UInt(n),
{
    (key.to_string(), Json::UInt(n))
}

impl LocScan {
    /// The details object for these counts with `max` allowed bytes per line.
    fn details(&self, max: usize) -> (j: Json)
        ensures
            loc_details_json(j, self.model(), max as nat),
    {
        let mut detail_items: Vec<Json> = Vec::new();
        let mut i: usize = 0;
        while i < self.long_line_details.len()
            invariant
                i <= self.long_line_details.len(),
                detail_items.len() == i,
                forall|k: int| 0 <= k < i ==> long_line_json(#[trigger] detail_items@[k], self.model().long_line_details[k], max as nat),
            decreases self.long_line_details.len() - i,
        {
            let d = &self.long_line_details[i];
            let item = Json::Object(vec![
                ("file".to_string(), Json::Str(d.0.clone())),
                uint_entry("length", d.2 as u64),
                uint_entry("line", d.1 as u64),
                uint_entry("threshold", max as u64),
            ]);
            detail_items.push(item);
            i = i + 1;
        }
        let mut file_items: Vec<Json> = Vec::new();
        let mut i: usize = 0;
        while i < self.long_line_files.len()
            invariant
                i <= self.long_line_files.len(),
                file_items.len() == i,
                forall|k: int| 0 <= k < i ==> str_is(#[trigger] file_items@[k], self.model().long_line_files[k]),
            decreases self.long_line_files.len() - i,
        {
            file_items.push(Json::Str(self.long_line_files[i].clone()));
            i = i + 1;
        }
        Json::Object(vec![
            uint_entry("blankLines", self.blank_lines as u64),
            uint_entry("codeLines", self.code_lines as u64),
            uint_entry("commentLines", self.comment_lines as u64),
            uint_entry("files", self.files as u64),
            uint_entry("filesWithLongLines", self.files_with_long_lines as u64),
            ("longLineDetails".to_string(), Json::Array(detail_items)),
            uint_entry("longLineDetailsOmitted", self.long_line_details_omitted as u64),
            ("longLineFiles".to_string(), Json::Array(file_items)),
            uint_entry("longLines", self.long_lines as u64),
            uint_entry("maxLineLengthAllowed", max as u64),
            uint_entry("maxLineLengthFound", self.max_line_length_found as u64),
            uint_entry("totalLines", self.total_lines as u64),
        ])
    }
}

/// Counts lines of code, comments and blank lines, and the lines longer
/// than `max_line_length` bytes.
#[derive(Debug, Clone, Copy)]
pub struct LocCollector {
    pub max_line_length: usize,
}

impl LocCollector {
    /// A collector that allows `DEFAULT_MAX_LINE_LENGTH` bytes per line.
    pub fn new() -> (c: LocCollector)
        ensures
            c.max_line_length == DEFAULT_MAX_LINE_LENGTH,
    {
        LocCollector { max_line_length: DEFAULT_MAX_LINE_LENGTH }
    }

    /// A collector that allows the configured length, or the default one.
    pub fn with_config(config: LocConfig) -> (c: LocCollector)
        ensures
            c.max_line_length == match config.max_line_length {
                Some(n) => n,
                None => DEFAULT_MAX_LINE_LENGTH,
            },
    {
        LocCollector {
            max_line_length: match config.max_line_length {
                Some(n) => n,
                None => DEFAULT_MAX_LINE_LENGTH,
            },
        }
    }

    pub fn name(&self) -> (r: &'static str)
        ensures
            r@ == "loc"@,
    {
        "loc"
    }

    /// The collector reads the sources itself, so it is always available.
    pub fn is_available(&self) -> (r: bool)
        ensures
            r,
    {
        true
    }

    /// The status and details object of the collector over `files`, read in
    /// order.
    pub fn analyze(&self, files: &Vec<SourceFile>) -> (r: (CollectorStatus, Json))
        requires
            fits_counters(files@),
        ensures
            r.0 == loc_status(scan_files(files@, self.max_line_length as nat)),
            loc_details_json(r.1, scan_files(files@, self.max_line_length as nat), self.max_line_length as nat),
            model_wf(scan_files(files@, self.max_line_length as nat)),
            loc_model_fits(scan_files(files@, self.max_line_length as nat), self.max_line_length as nat),
    {
        let max = self.max_line_length;
        let mut scan = LocScan::new();
        let mut i: usize = 0;
        proof {
            assert(files@.take(0) =~= Seq::<SourceFile>::empty());
        }
        while i < files.len()
            invariant
                i <= files.len(),
                fits_counters(files@),
                model_wf(scan.model()),
                scan.files == i,
                scan.total_lines == total_line_count(files@.take(i as int)),
                scan.model() == scan_files(files@.take(i as int), max as nat),
            decreases files.len() - i,
        {
            proof {
                assert(files@.take(i + 1).drop_last() =~= files@.take(i as int));
                lemma_total_line_count_prefix(files@, i + 1);
            }
            scan.add_file(&files[i].name, &files[i].content, max);
            i = i + 1;
        }
        proof {
            assert(files@.take(files@.len() as int) =~= files@);
            let m = scan.model();
            assert forall|k: int| 0 <= k < m.long_line_details.len() implies {
                let d = #[trigger] m.long_line_details[k];
                d.1 <= u32::MAX && d.2 <= usize::MAX
            } by {
                let e = scan.long_line_details@[k];
                assert(m.long_line_details[k] == (e.0@, e.1 as nat, e.2 as nat));
            }
        }
        let status = if scan.long_lines == 0 { CollectorStatus::Pass } else { CollectorStatus::Fail };
        (status, scan.details(max))
    }
}

impl Default for LocCollector {
    fn default() -> (c: LocCollector)
        ensures
            c.max_line_length == DEFAULT_MAX_LINE_LENGTH,
    {
        LocCollector::new()
    }
}

// ------------------------------------------------------------------------------------------------
// Laws
// ------------------------------------------------------------------------------------------------

/// The long-line details of `m` are what the cap lets through: each is a
/// line longer than `max`, every long line is listed or counted as
/// omitted, and lines are counted as omitted only once the cap is reached.
pub open spec fn details_capped(m: LocModel, max: nat) -> bool {
    &&& m.long_line_details.len() <= LONG_LINE_DETAIL_CAP
    &&& m.long_line_details.len() + m.long_line_details_omitted == m.long_lines
    &&& m.long_line_details_omitted > 0 ==> m.long_line_details.len() == LONG_LINE_DETAIL_CAP
    &&& forall|i: int| 0 <= i < m.long_line_details.len() ==> (#[trigger] m.long_line_details[i]).2 > max
}

/// Every line counted has one kind, and the files with long lines are
/// listed, no more of them than files.
pub open spec fn loc_counts_agree(m: LocModel) -> bool {
    &&& m.code_lines + m.comment_lines + m.blank_lines == m.total_lines
    &&& m.files_with_long_lines == m.long_line_files.len()
    &&& m.files_with_long_lines <= m.files
}

proof fn lemma_scan_lines_capped(m: LocModel, name: Seq<char>, ls: Seq<Seq<char>>, max: nat)
    requires
        details_capped(m, max),
        loc_counts_agree(m),
    ensures
        details_capped(scan_lines(m, name, ls, max).0, max),
        loc_counts_agree(scan_lines(m, name, ls, max).0),
        scan_lines(m, name, ls, max).0.files == m.files,
    decreases ls.len(),
{
    if ls.len() > 0 {
        lemma_scan_lines_capped(m, name, ls.drop_last(), max);
        let (p, in_block, has_long) = scan_lines(m, name, ls.drop_last(), max);
        let q = line_step(p, in_block, has_long, name, ls.len(), ls.last(), max).0;
        assert forall|i: int| 0 <= i < q.long_line_details.len() implies (#[trigger] q.long_line_details[i]).2 > max by {
            if i < p.long_line_details.len() {
                assert(q.long_line_details[i] == p.long_line_details[i]);
            }
        }
    }
}

proof fn lemma_scan_files_capped(files: Seq<SourceFile>, max: nat)
    ensures
        details_capped(scan_files(files, max), max),
        loc_counts_agree(scan_files(files, max)),
    decreases files.len(),
{
    if files.len() > 0 {
        lemma_scan_files_capped(files.drop_last(), max);
        let m = scan_files(files.drop_last(), max);
        lemma_scan_lines_capped(m, files.last().name@, lines(files.last().content@), max);
    }
}

/// Of the lines longer than the limit, the first 200 are listed with their
/// file, line and length, each longer than the limit, and the rest are
/// counted as omitted; the collector passes exactly when no line is too
/// long; every line is code, comment or blank; and the files with long
/// lines are listed, no more of them than files.
pub proof fn law_long_lines_listed_up_to_cap(files: Seq<SourceFile>, max: nat)
    ensures
        scan_files(files, max).long_line_details.len() == if scan_files(files, max).long_lines
            <= LONG_LINE_DETAIL_CAP {
            scan_files(files, max).long_lines
        } else {
            LONG_LINE_DETAIL_CAP as nat
        },
        scan_files(files, max).long_line_details.len() + scan_files(files, max).long_line_details_omitted
            == scan_files(files, max).long_lines,
        forall|i: int| 0 <= i < scan_files(files, max).long_line_details.len()
            ==> (#[trigger] scan_files(files, max).long_line_details[i]).2 > max,
        loc_status(scan_files(files, max)) == CollectorStatus::Pass <==> scan_files(files, max).long_lines == 0,
        loc_counts_agree(scan_files(files, max)),
{
    lemma_scan_files_capped(files, max);
}

/// The number of lines of `ls` longer than `max` bytes.
pub open spec fn lines_over(ls: Seq<Seq<char>>, max: nat) -> nat
    decreases ls.len(),
{
    if ls.len() == 0 { 0 } else { lines_over(ls.drop_last(), max) + if byte_len(ls.last()) > max { 1nat } else { 0nat } }
}

/// The number of lines of the files `files` longer than `max` bytes.
pub open spec fn files_lines_over(files: Seq<SourceFile>, max: nat) -> nat
    decreases files.len(),
{
    if files.len() == 0 {
        0
    } else {
        files_lines_over(files.drop_last(), max) + lines_over(lines(files.last().content@), max)
    }
}

proof fn lemma_scan_lines_long(m: LocModel, name: Seq<char>, ls: Seq<Seq<char>>, max: nat)
    ensures
        scan_lines(m, name, ls, max).0.long_lines == m.long_lines + lines_over(ls, max),
    decreases ls.len(),
{
    if ls.len() > 0 {
        lemma_scan_lines_long(m, name, ls.drop_last(), max);
    }
}

/// The line-count collector counts as long exactly the lines longer than
/// its limit (`LocCollector::with_config` sets the limit to the configured
/// length, or the default), over every line of every file.
pub proof fn law_long_lines_are_those_over_the_limit(files: Seq<SourceFile>, max: nat)
    ensures
        scan_files(files, max).long_lines == files_lines_over(files, max),
    decreases files.len(),
{
    if files.len() > 0 {
        law_long_lines_are_those_over_the_limit(files.drop_last(), max);
        let m = scan_files(files.drop_last(), max);
        lemma_scan_lines_long(m, files.last().name@, lines(files.last().content@), max);
    }
}

} // verus!
