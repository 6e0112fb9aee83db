//! Test collector — reads the summary lines of `cargo test` / `cargo nextest`.

use vstd::prelude::*;
use crate::json::{str_is, Json};
use crate::schema::CollectorStatus;
use crate::text::{
    contains, contains_str, first_u32_word, first_u32_word_exec, lines, push_str, split,
    split_at_char, split_lines, str_chars, string_from_chars, trim, trim_chars,
};

verus! {

#[derive(Debug, Clone, Copy)]
pub struct TestCollector;

/// Counts (passed, failed, ignored).
pub type TestCounts = (u32, u32, u32);

/// One `;`-separated part of a `test result:` line: its first number sets
/// the count that the part names first among passed, failed and ignored.
pub open spec fn apply_part(st: TestCounts, part: Seq<char>) -> TestCounts {
    let p = trim(part);
    match first_u32_word(p) {
        None => st,
        Some(n) => if contains(p, "passed"@) {
            (n, st.1, st.2)
        } else if contains(p, "failed"@) {
            (st.0, n, st.2)
        } else if contains(p, "ignored"@) {
            (st.0, st.1, n)
        } else {
            st
        },
    }
}

pub open spec fn apply_parts(st: TestCounts, parts: Seq<Seq<char>>) -> TestCounts
    decreases parts.len(),
{
    if parts.len() == 0 {
        st
    } else {
        apply_part(apply_parts(st, parts.drop_last()), parts.last())
    }
}

/// A line counts only when it holds `test result:`.
pub open spec fn apply_line(st: TestCounts, line: Seq<char>) -> TestCounts {
    if contains(line, "test result:"@) {
        apply_parts(st, split(line, ';'))
    } else {
        st
    }
}

pub open spec fn apply_lines(st: TestCounts, ls: Seq<Seq<char>>) -> TestCounts
    decreases ls.len(),
{
    if ls.len() == 0 {
        st
    } else {
        apply_line(apply_lines(st, ls.drop_last()), ls.last())
    }
}

/// The counts read from the output text: the last value seen for each.
pub open spec fn spec_test_counts(text: Seq<char>) -> TestCounts {
    apply_lines((0, 0, 0), lines(text))
}

/// What one `;`-part of a `test result:` line does to the counts: a part
/// with no number, or naming none of passed, failed and ignored (such as
/// `0 measured` or `0 filtered out`), leaves them as they are; otherwise
/// its first number becomes the count it names first, in the order
/// passed, failed, ignored, and the other two are kept.  A line without
/// `test result:` leaves the counts as they are.
pub proof fn law_test_result_parts(st: TestCounts, part: Seq<char>, line: Seq<char>)
    ensures
        first_u32_word(trim(part)) is None ==> apply_part(st, part) == st,
        (!contains(trim(part), "passed"@) && !contains(trim(part), "failed"@) && !contains(trim(part), "ignored"@))
            ==> apply_part(st, part) == st,
        forall|n: u32| #[trigger] first_u32_word(trim(part)) == Some(n) && contains(trim(part), "passed"@)
            ==> apply_part(st, part) == (n, st.1, st.2),
        forall|n: u32| #[trigger] first_u32_word(trim(part)) == Some(n) && !contains(trim(part), "passed"@)
            && contains(trim(part), "failed"@) ==> apply_part(st, part) == (st.0, n, st.2),
        forall|n: u32| #[trigger] first_u32_word(trim(part)) == Some(n) && !contains(trim(part), "passed"@)
            && !contains(trim(part), "failed"@) && contains(trim(part), "ignored"@)
            ==> apply_part(st, part) == (st.0, st.1, n),
        !contains(line, "test result:"@) ==> apply_line(st, line) == st,
{
}

/// stdout and stderr joined by a newline, as they are read.
pub open spec fn combined_output(stdout: Seq<char>, stderr: Seq<char>) -> Seq<char> {
    stdout + seq!['\n'] + stderr
}

/// `j` is the details object of the counts read by `runner` (members in
/// key order).
pub open spec fn test_details_json(j: Json, counts: TestCounts, runner: Seq<char>) -> bool {
    j matches Json::Object(e) && e@.len() == 4
        && e@[0].0@ == "failed"@ && e@[0].1 == Json::UInt(counts.1 as u64)
        && e@[1].0@ == "ignored"@ && e@[1].1 == Json::UInt(counts.2 as u64)
        && e@[2].0@ == "passed"@ && e@[2].1 == Json::UInt(counts.0 as u64)
        && e@[3].0@ == "runner"@ && str_is(e@[3].1, runner)
}

impl TestCollector {
    pub fn new() -> Self {
        TestCollector
    }

    pub fn name(&self) -> (r: &'static str)
        ensures
            r@ == "tests"@,
    {
        "tests"
    }

    /// Parses "test result: ok. X passed; Y failed; Z ignored" lines.
    pub fn parse_test_output(&self, stdout: &str, stderr: &str) -> (r: TestCounts)
        ensures
            r == spec_test_counts(combined_output(stdout@, stderr@)),
    {
        let mut text = str_chars(stdout);
        text.push('\n');
        push_str(&mut text, stderr);
        proof {
            assert(text@ =~= combined_output(stdout@, stderr@));
        }
        let ls = split_lines(&text);
        let ghost l = lines(text@);
        let mut st: TestCounts = (0, 0, 0);
        let mut i: usize = 0;
        while i < ls.len()
            invariant
                i <= ls@.len(),
                l == lines(text@),
                ls@.len() == l.len(),
                forall|k: int| 0 <= k < ls@.len() ==> #[trigger] ls@[k]@ == l[k],
                st == apply_lines((0, 0, 0), l.subrange(0, i as int)),
            decreases ls.len() - i,
        {
            proof {
                assert(l.subrange(0, i + 1).drop_last() =~= l.subrange(0, i as int));
                assert(ls@[i as int]@ == l[i as int]);
            }
            st = apply_line_exec(st, &ls[i]);
            i = i + 1;
        }
        proof {
            assert(l.subrange(0, l.len() as int) =~= l);
        }
        st
    }

    /// Fail when some test failed, pass otherwise.
    pub fn status_for(failed: u32) -> (r: CollectorStatus)
        ensures
            r == if failed > 0 { CollectorStatus::Fail } else { CollectorStatus::Pass },
    {
        if failed > 0 { CollectorStatus::Fail } else { CollectorStatus::Pass }
    }

    /// The stderr that is reported: marked with the runner when it is nextest.
    pub fn reported_stderr(nextest: bool, stderr: &str) -> (r: String)
        ensures
            nextest ==> r@ == "[runner: nextest] "@ + stderr@,
            !nextest ==> r@ == stderr@,
    {
        let mut out: Vec<char> = Vec::new();
        if nextest {
            push_str(&mut out, "[runner: nextest] ");
        }
        push_str(&mut out, stderr);
        proof {
            if nextest {
                assert(out@ =~= "[runner: nextest] "@ + stderr@);
            } else {
                assert(out@ =~= stderr@);
            }
        }
        string_from_chars(&out)
    }

    /// The details reported: `{"failed": f, "ignored": i, "passed": p,
    /// "runner": runner}`.
    pub fn details(counts: TestCounts, runner: &str) -> (r: Json)
        ensures
            test_details_json(r, counts, runner@),
    {
        let (passed, failed, ignored) = counts;
        Json::Object(vec![
            ("failed".to_owned(), Json::UInt(failed as u64)),
            ("ignored".to_owned(), Json::UInt(ignored as u64)),
            ("passed".to_owned(), Json::UInt(passed as u64)),
            ("runner".to_owned(), Json::Str(runner.to_owned())),
        ])
    }
}

fn apply_part_exec(st: TestCounts, part: &Vec<char>) -> (r: TestCounts)
    ensures
        r == apply_part(st, part@),
{
    let p = trim_chars(part);
    match first_u32_word_exec(&p) {
        None => st,
        Some(n) => if contains_str(&p, "passed") {
            (n, st.1, st.2)
        } else if contains_str(&p, "failed") {
            (st.0, n, st.2)
        } else if contains_str(&p, "ignored") {
            (st.0, st.1, n)
        } else {
            st
        },
    }
}

fn apply_line_exec(st: TestCounts, line: &Vec<char>) -> (r: TestCounts)
    ensures
        r == apply_line(st, line@),
{
    if !contains_str(line, "test result:") {
        return st;
    }
    let parts = split_at_char(line, ';');
    let ghost p = split(line@, ';');
    let mut cur = st;
    let mut i: usize = 0;
    while i < parts.len()
        invariant
            i <= parts@.len(),
            p == split(line@, ';'),
            parts@.len() == p.len(),
            forall|k: int| 0 <= k < parts@.len() ==> #[trigger] parts@[k]@ == p[k],
            cur == apply_parts(st, p.subrange(0, i as int)),
        decreases parts.len() - i,
    {
        proof {
            assert(p.subrange(0, i + 1).drop_last() =~= p.subrange(0, i as int));
            assert(parts@[i as int]@ == p[i as int]);
        }
        cur = apply_part_exec(cur, &parts[i]);
        i = i + 1;
    }
    proof {
        assert(p.subrange(0, p.len() as int) =~= p);
    }
    cur
}

impl Default for TestCollector {
    fn default() -> Self {
        TestCollector
    }
}

} // verus!
