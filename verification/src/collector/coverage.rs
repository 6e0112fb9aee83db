//! Coverage collector — reads the line coverage that `cargo llvm-cov --json` reports.

use vstd::prelude::*;
use crate::json::{json_value, parse_json, object_is, spec_as_decimal, spec_get2, spec_get3, Decimal, Json};
use crate::schema::CollectorStatus;

verus! {

#[derive(Debug, Clone, Copy)]
pub struct CoverageCollector;

/// The line coverage percent of the parsed report: `lines.percent`, else
/// `totals.lines.percent`, when that is a number.
pub open spec fn spec_line_percent(json: Option<Json>) -> Option<Decimal> {
    match json {
        None => None,
        Some(j) => {
            let direct = match spec_get2(j, "lines"@, "percent"@) {
                Some(v) => spec_as_decimal(v),
                None => None,
            };
            match direct {
                Some(d) => Some(d),
                None => match spec_get3(j, "totals"@, "lines"@, "percent"@) {
                    Some(v) => spec_as_decimal(v),
                    None => None,
                },
            }
        },
    }
}

/// `j` is the details object of the line percent read, 0 when none was.
pub open spec fn coverage_details_json(j: Json, line_percent: Option<Decimal>) -> bool {
    object_is(j, seq!["linePercent"@], seq![Json::Float(match line_percent { Some(d) => d, None => Decimal { micros: 0 } })])
}

impl CoverageCollector {
    pub fn new() -> Self {
        CoverageCollector
    }

    pub fn name(&self) -> (r: &'static str)
        ensures
            r@ == "coverage"@,
    {
        "coverage"
    }

    /// Reads the line coverage percent from the output: read as JSON, `None` when it is not.
    pub fn parse_json_output(&self, stdout: &str) -> (r: Option<Decimal>)
        ensures
            r == spec_line_percent(json_value(stdout@)),
    {
        match parse_json(stdout) {
            Some(j) => self.read_parsed(Some(&j)),
            None => self.read_parsed(None),
        }
    }

    /// Reads the line coverage percent from the parsed output (`None` when
    /// it is not JSON).
    pub fn read_parsed(&self, json: Option<&Json>) -> (r: Option<Decimal>)
        ensures
            r == spec_line_percent(match json { Some(j) => Some(*j), None => None }),
    {
        match json {
            None => None,
            Some(j) => {
                let direct = match j.get2("lines", "percent") {
                    Some(v) => v.as_decimal(),
                    None => None,
                };
                match direct {
                    Some(d) => Some(d),
                    None => match j.get3("totals", "lines", "percent") {
                        Some(v) => v.as_decimal(),
                        None => None,
                    },
                }
            },
        }
    }

    /// Pass when the run succeeded, error otherwise.
    pub fn status_for(success: bool) -> (r: CollectorStatus)
        ensures
            r == if success { CollectorStatus::Pass } else { CollectorStatus::Error },
    {
        if success { CollectorStatus::Pass } else { CollectorStatus::Error }
    }

    /// The details reported: `{"linePercent": p}`, with 0 when no percent was read.
    pub fn details(line_percent: Option<Decimal>) -> (r: Json)
        ensures
            coverage_details_json(r, line_percent),
    {
        let p = match line_percent {
            Some(d) => d,
            None => Decimal::zero(),
        };
        Json::Object(vec![("linePercent".to_owned(), Json::Float(p))])
    }
}

impl Default for CoverageCollector {
    fn default() -> Self {
        CoverageCollector
    }
}

} // verus!
