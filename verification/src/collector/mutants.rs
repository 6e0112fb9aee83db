//! Mutants collector — reads the outcomes of `cargo mutants`.

use vstd::prelude::*;
use crate::collector::CollectorError;
use crate::json::{json_read, read_json, spec_as_u64, spec_get, Decimal, Json};
use crate::schema::CollectorStatus;
use crate::text::{decimal, fixed_text, push_decimal, push_fixed, push_str, string_from_chars};

verus! {

#[derive(Debug, Clone, Copy)]
pub struct MutantsCollector;

/// `j.get(key).and_then(as_u64).unwrap_or(0) as u32`.
pub open spec fn count_at(j: Json, key: Seq<char>) -> u32 {
    match spec_get(j, key) {
        Some(v) => match spec_as_u64(v) {
            Some(n) => n as u32,
            None => 0,
        },
        None => 0,
    }
}

/// The share of caught mutants, in millionths rounded half up; 0 when there
/// are none.
pub open spec fn spec_score(caught: nat, missed: nat) -> int {
    let total = caught + missed;
    if total > 0 { ((2 * caught * 1000000 + total) / (2 * total)) as int } else { 0 }
}

/// (score, caught, missed) of an outcomes file.
pub open spec fn spec_outcomes(j: Json) -> (Decimal, u32, u32) {
    let caught = count_at(j, "caught"@);
    let missed = count_at(j, "missed"@);
    (Decimal { micros: spec_score(caught as nat, missed as nat) as i128 }, caught, missed)
}

/// The mutation score read from an outcomes file is the share of caught
/// mutants among those caught or missed, in millionths, rounded to the
/// nearest (halves up): `score * total` is within half a total of
/// `caught * 1000000`; so every mutant caught gives 1.0 and none caught
/// gives 0.  With no mutant the score is 0.
pub proof fn law_mutation_score(j: Json)
    ensures
        ({
            let (score, caught, missed) = spec_outcomes(j);
            let total = caught + missed;
            &&& total > 0 ==> 2 * score.micros * total <= 2 * caught * 1000000 + total
            &&& total > 0 ==> 2 * caught * 1000000 + total < 2 * score.micros * total + 2 * total
            &&& (total > 0 && missed == 0) ==> score.micros == 1000000
            &&& (total > 0 && caught == 0) ==> score.micros == 0
            &&& total == 0 ==> score.micros == 0
        }),
{
    let (score, caught, missed) = spec_outcomes(j);
    let c = caught as int;
    let t = caught as int + missed as int;
    if t > 0 {
        let a = 2 * c * 1000000 + t;
        let q = a / (2 * t);
        vstd::arithmetic::div_mod::lemma_fundamental_div_mod(a, 2 * t);
        assert(0 <= a % (2 * t) < 2 * t);
        assert(q * (2 * t) + a % (2 * t) == a);
        assert(q <= 1000000) by (nonlinear_arith)
            requires q * (2 * t) <= a, a == 2 * c * 1000000 + t, c <= t, t > 0;
        assert(q >= 0) by (nonlinear_arith)
            requires q * (2 * t) + a % (2 * t) == a, a > 0, a % (2 * t) < 2 * t, t > 0;
        assert(score.micros == q);
        assert(2 * q * t == q * (2 * t)) by (nonlinear_arith);
        if missed == 0 {
            assert(q == 1000000) by (nonlinear_arith)
                requires q * (2 * t) <= a, a < q * (2 * t) + 2 * t, a == 2 * c * 1000000 + t, c == t, t > 0;
        }
        if caught == 0 {
            assert(q == 0) by (nonlinear_arith)
                requires q * (2 * t) <= a, a < q * (2 * t) + 2 * t, a == t, t > 0, q >= 0;
        }
    }
}

/// `mutation_score=S caught=C missed=M`, the score with three decimals.
pub open spec fn spec_summary_line(score: Decimal, caught: u32, missed: u32) -> Seq<char> {
    "mutation_score="@ + fixed_text(score.micros as int, 3) + " caught="@ + decimal(caught as nat)
        + " missed="@ + decimal(missed as nat)
}

fn count_at_exec(j: &Json, key: &str) -> (r: u32)
    ensures
        r == count_at(*j, key@),
{
    match j.get(key) {
        Some(v) => match v.as_u64() {
            Some(n) => n as u32,
            None => 0,
        },
        None => 0,
    }
}

impl MutantsCollector {
    pub fn new() -> Self {
        MutantsCollector
    }

    pub fn name(&self) -> (r: &'static str)
        ensures
            r@ == "mutants"@,
    {
        "mutants"
    }

    /// Reads (score, caught, missed) from the text of an outcomes file; a
    /// text that is not JSON is a parse error with the reader's message.
    pub fn parse_outcomes(&self, content: &str) -> (r: Result<(Decimal, u32, u32), CollectorError>)
        ensures
            match json_read(content@) {
                Ok(j) => r matches Ok(x) && x == spec_outcomes(j),
                Err(e) => r matches Err(CollectorError::ParseError(m)) && m@ == e,
            },
    {
        match read_json(content) {
            Ok(j) => Ok(self.outcomes_of(&j)),
            Err(e) => Err(CollectorError::ParseError(e)),
        }
    }

    /// Reads (score, caught, missed) from a parsed outcomes file.
    pub fn outcomes_of(&self, json: &Json) -> (r: (Decimal, u32, u32))
        ensures
            r == spec_outcomes(*json),
    {
        let caught = count_at_exec(json, "caught");
        let missed = count_at_exec(json, "missed");
        let total: u64 = caught as u64 + missed as u64;
        let micros: u64 = if total > 0 {
            proof {
                assert(2 * caught * 1000000 + total <= u64::MAX) by (nonlinear_arith)
                    requires caught <= u32::MAX, total <= 2 * (u32::MAX as int);
            }
            (2 * (caught as u64) * 1000000 + total) / (2 * total)
        } else {
            0
        };
        proof {
            if total > 0 {
                assert(micros <= 1000000) by (nonlinear_arith)
                    requires micros == (2 * caught * 1000000 + total) / (2 * total), caught <= total, total > 0;
            }
        }
        (Decimal { micros: micros as i128 }, caught, missed)
    }

    /// Pass when the run succeeded, fail otherwise.
    pub fn status_for(success: bool) -> (r: CollectorStatus)
        ensures
            r == if success { CollectorStatus::Pass } else { CollectorStatus::Fail },
    {
        if success { CollectorStatus::Pass } else { CollectorStatus::Fail }
    }

    /// The line the collector reports on stdout.
    pub fn summary_line(score: Decimal, caught: u32, missed: u32) -> (r: String)
        ensures
            r@ == spec_summary_line(score, caught, missed),
    {
        let mut out: Vec<char> = Vec::new();
        push_str(&mut out, "mutation_score=");
        push_fixed(&mut out, score.micros, 3);
        push_str(&mut out, " caught=");
        push_decimal(&mut out, caught as u128);
        push_str(&mut out, " missed=");
        push_decimal(&mut out, missed as u128);
        proof {
            assert(out@ =~= spec_summary_line(score, caught, missed));
        }
        string_from_chars(&out)
    }
}

impl Default for MutantsCollector {
    fn default() -> Self {
        MutantsCollector
    }
}

} // verus!
