//! Hack collector — reads how many feature combinations `cargo hack` checked.

use vstd::prelude::*;
use crate::json::Json;
use crate::schema::CollectorStatus;
use crate::text::{contains, contains_str, first_u32_word, first_u32_word_exec, lines, split_lines, str_chars};

verus! {

#[derive(Debug, Clone, Copy)]
pub struct HackCollector;

/// The first number on the first line of `ls` that holds one.
pub open spec fn first_line_number(ls: Seq<Seq<char>>) -> Option<u32>
    decreases ls.len(),
{
    if ls.len() == 0 {
        None
    } else if first_u32_word(ls[0]) is Some {
        first_u32_word(ls[0])
    } else {
        first_line_number(ls.drop_first())
    }
}

/// The number of combinations that stderr reports: when it mentions
/// "combination", the first number on the first line holding a number;
/// otherwise 0.
pub open spec fn spec_feature_count(stderr: Seq<char>) -> u32 {
    if contains(stderr, "combination"@) {
        match first_line_number(lines(stderr)) {
            Some(n) => n,
            None => 0,
        }
    } else {
        0
    }
}

/// The details a hack run reports: `{"featureCombinationsTested": n}`.
pub open spec fn spec_hack_details(j: Json, n: u32) -> bool {
    j matches Json::Object(e) && e@.len() == 1 && e@[0].0@ == "featureCombinationsTested"@
        && e@[0].1 == Json::UInt(n as u64)
}

impl HackCollector {
    pub fn new() -> Self {
        HackCollector
    }

    pub fn name(&self) -> (r: &'static str)
        ensures
            r@ == "hack"@,
    {
        "hack"
    }

    /// Reads the number of feature combinations checked from stderr.
    pub fn parse_feature_count(&self, stderr: &str) -> (r: u32)
        ensures
            r == spec_feature_count(stderr@),
    {
        let text = str_chars(stderr);
        let mentions = contains_str(&text, "combination");
        let ls = split_lines(&text);
        let ghost l = lines(stderr@);
        let mut i: usize = 0;
        proof {
            assert(l.skip(0) =~= l);
        }
        while i < ls.len()
            invariant
                i <= ls@.len(),
                text@ == stderr@,
                l == lines(stderr@),
                mentions == contains(stderr@, "combination"@),
                ls@.len() == l.len(),
                forall|k: int| 0 <= k < ls@.len() ==> #[trigger] ls@[k]@ == l[k],
                first_line_number(l) == first_line_number(l.skip(i as int)),
            decreases ls.len() - i,
        {
            proof {
                assert(l.skip(i as int).drop_first() =~= l.skip(i + 1));
                assert(l.skip(i as int)[0] == l[i as int]);
                assert(ls@[i as int]@ == l[i as int]);
            }
            if let Some(n) = first_u32_word_exec(&ls[i]) {
                if mentions {
                    return n;
                }
                return 0;
            }
            i = i + 1;
        }
        0
    }

    /// Pass when the run succeeded, fail otherwise.
    pub fn status_for(success: bool) -> (r: CollectorStatus)
        ensures
            r == if success { CollectorStatus::Pass } else { CollectorStatus::Fail },
    {
        if success { CollectorStatus::Pass } else { CollectorStatus::Fail }
    }

    /// The details reported for `n` feature combinations.
    pub fn details(n: u32) -> (r: Json)
        ensures
            spec_hack_details(r, n),
    {
        Json::Object(vec![("featureCombinationsTested".to_owned(), Json::UInt(n as u64))])
    }
}

impl Default for HackCollector {
    fn default() -> Self {
        HackCollector
    }
}

} // verus!
