//! Deny collector — reads banned crates and license violations from `cargo deny`.

use vstd::prelude::*;
use crate::json::{json_value, parse_json, object_is, spec_as_array, spec_get2, Json};
use crate::schema::CollectorStatus;

verus! {

#[derive(Debug, Clone, Copy)]
pub struct DenyCollector;

/// The length of the array at `j.k1.k2`, 0 when there is none.
pub open spec fn array_len_at(j: Json, k1: Seq<char>, k2: Seq<char>) -> u32 {
    match spec_get2(j, k1, k2) {
        Some(v) => match spec_as_array(v) {
            Some(items) => items.len() as u32,
            None => 0,
        },
        None => 0,
    }
}

/// (banned crates, license violations) of the parsed report, (0, 0) when
/// the output is not JSON.
pub open spec fn spec_deny_counts(json: Option<Json>) -> (u32, u32) {
    match json {
        None => (0, 0),
        Some(j) => (array_len_at(j, "ban"@, "list"@), array_len_at(j, "license"@, "violations"@)),
    }
}

fn array_len_at_exec(j: &Json, k1: &str, k2: &str) -> (r: u32)
    ensures
        r == array_len_at(*j, k1@, k2@),
{
    match j.get2(k1, k2) {
        Some(v) => match v.as_array() {
            Some(items) => items.len() as u32,
            None => 0,
        },
        None => 0,
    }
}

/// `j` is the details object of `banned` banned crates and `license`
/// license violations.
pub open spec fn deny_details_json(j: Json, banned: u32, license: u32) -> bool {
    object_is(j, seq!["bannedCount"@, "licenseViolations"@], seq![Json::UInt(banned as u64), Json::UInt(license as u64)])
}

impl DenyCollector {
    pub fn new() -> Self {
        DenyCollector
    }

    pub fn name(&self) -> (r: &'static str)
        ensures
            r@ == "deny"@,
    {
        "deny"
    }

    /// Reads (banned crates, license violations) from the output: read as JSON, `None` when it is not.
    pub fn parse_json_output(&self, stdout: &str) -> (r: (u32, u32))
        ensures
            r == spec_deny_counts(json_value(stdout@)),
    {
        match parse_json(stdout) {
            Some(j) => self.read_parsed(Some(&j)),
            None => self.read_parsed(None),
        }
    }

    /// Reads (banned crates, license violations) from the parsed output
    /// (`None` when it is not JSON).
    pub fn read_parsed(&self, json: Option<&Json>) -> (r: (u32, u32))
        ensures
            r == spec_deny_counts(match json { Some(j) => Some(*j), None => None }),
    {
        match json {
            None => (0, 0),
            Some(j) => (array_len_at_exec(j, "ban", "list"), array_len_at_exec(j, "license", "violations")),
        }
    }

    /// Pass when the check succeeded, fail otherwise.
    pub fn status_for(success: bool) -> (r: CollectorStatus)
        ensures
            r == if success { CollectorStatus::Pass } else { CollectorStatus::Fail },
    {
        if success { CollectorStatus::Pass } else { CollectorStatus::Fail }
    }

    /// The details reported: `{"bannedCount": b, "licenseViolations": l}`.
    pub fn details(banned_count: u32, license_violations: u32) -> (r: Json)
        ensures
            deny_details_json(r, banned_count, license_violations),
    {
        Json::Object(vec![
            ("bannedCount".to_owned(), Json::UInt(banned_count as u64)),
            ("licenseViolations".to_owned(), Json::UInt(license_violations as u64)),
        ])
    }
}

impl Default for DenyCollector {
    fn default() -> Self {
        DenyCollector
    }
}

} // verus!
