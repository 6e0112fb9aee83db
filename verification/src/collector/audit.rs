//! Audit collector — reads the vulnerabilities that `cargo audit --json` reports.

use vstd::prelude::*;
use crate::json::{json_value, parse_json, object_is, spec_as_array, spec_as_str, spec_get, spec_get2, spec_u32_or_zero, Json};
use crate::schema::CollectorStatus;
use crate::text::{str_chars};

verus! {

#[derive(Debug, Clone, Copy)]
pub struct AuditCollector;

/// ASCII lower case of `c`.
pub open spec fn ascii_lower(c: char) -> char {
    if 'A' <= c && c <= 'Z' { ((c as u8) + 32) as char } else { c }
}

/// `str::eq_ignore_ascii_case`.
pub open spec fn eq_ignore_ascii_case(a: Seq<char>, b: Seq<char>) -> bool {
    a.len() == b.len() && forall|i: int| 0 <= i < a.len() ==> ascii_lower(#[trigger] a[i]) == ascii_lower(b[i])
}

/// A vulnerability whose severity is "critical", in any ASCII case.
pub open spec fn is_critical(item: Json) -> bool {
    match spec_get(item, "severity"@) {
        Some(s) => match spec_as_str(s) {
            Some(t) => eq_ignore_ascii_case(t, "critical"@),
            None => false,
        },
        None => false,
    }
}

pub open spec fn count_critical(items: Seq<Json>) -> nat
    decreases items.len(),
{
    if items.len() == 0 {
        0
    } else {
        count_critical(items.drop_last()) + if is_critical(items.last()) { 1nat } else { 0nat }
    }
}

/// Whether the text `t` spells `critical` in any mix of ASCII cases.
pub open spec fn spells_critical(t: Seq<char>) -> bool {
    t.len() == 8 && forall|i: int| 0 <= i < 8 ==> #[trigger] t[i] == "critical"@[i] || t[i] == "CRITICAL"@[i]
}

proof fn lemma_lower_matches(c: char, l: char, u: char)
    requires
        'a' <= l <= 'z',
        u as int == l as int - 32,
    ensures
        ascii_lower(c) == ascii_lower(l) <==> (c == l || c == u),
{
}

/// A vulnerability counts as critical exactly when its `severity` member
/// is a string that spells `critical` in any mix of ASCII cases; an item
/// without a severity string is not critical; and the critical count of a
/// list grows by one for each critical item and by nothing for the others.
pub proof fn law_critical_vulnerabilities(item: Json, items: Seq<Json>)
    ensures
        is_critical(item) <==> (spec_get(item, "severity"@) matches Some(s)
            && spec_as_str(s) matches Some(t) && spells_critical(t)),
        count_critical(items.push(item)) == count_critical(items) + if is_critical(item) { 1nat } else { 0nat },
        count_critical(Seq::<Json>::empty()) == 0,
{
    reveal_strlit("critical");
    reveal_strlit("CRITICAL");
    assert(items.push(item).drop_last() =~= items);
    if let Some(s) = spec_get(item, "severity"@) {
        if let Some(t) = spec_as_str(s) {
            let k = "critical"@;
            let u = "CRITICAL"@;
            assert forall|i: int| 0 <= i < 8 implies (ascii_lower(#[trigger] t[i]) == ascii_lower(k[i])
                <==> (t[i] == k[i] || t[i] == u[i])) by {
                lemma_lower_matches(t[i], k[i], u[i]);
            }
            if t.len() == 8 {
                if eq_ignore_ascii_case(t, k) {
                    assert forall|i: int| 0 <= i < 8 implies #[trigger] t[i] == k[i] || t[i] == u[i] by {
                        assert(ascii_lower(t[i]) == ascii_lower(k[i]));
                    }
                }
                if spells_critical(t) {
                    assert forall|i: int| 0 <= i < t.len() implies ascii_lower(#[trigger] t[i]) == ascii_lower(k[i]) by {
                        assert(t[i] == k[i] || t[i] == u[i]);
                    }
                }
            }
        }
    }
}

/// (vulnerabilities, critical ones) reported by the parsed output, or
/// (0, 0) when the output is not JSON.
pub open spec fn spec_audit_counts(json: Option<Json>) -> (u32, u32) {
    match json {
        None => (0, 0),
        Some(j) => (
            match spec_get2(j, "vulnerabilities"@, "found"@) {
                Some(f) => spec_u32_or_zero(f),
                None => 0,
            },
            match spec_get2(j, "vulnerabilities"@, "list"@) {
                Some(l) => match spec_as_array(l) {
                    Some(items) => count_critical(items) as u32,
                    None => 0,
                },
                None => 0,
            },
        ),
    }
}

fn ascii_lower_exec(c: char) -> (r: char)
    ensures
        r == ascii_lower(c),
{
    if 'A' <= c && c <= 'Z' { ((c as u8) + 32) as char } else { c }
}

fn eq_ignore_ascii_case_exec(a: &Vec<char>, b: &str) -> (r: bool)
    ensures
        r == eq_ignore_ascii_case(a@, b@),
{
    let t = str_chars(b);
    if a.len() != t.len() {
        return false;
    }
    let mut i: usize = 0;
    while i < a.len()
        invariant
            a.len() == t.len(),
            t@ == b@,
            i <= a.len(),
            forall|j: int| 0 <= j < i ==> ascii_lower(#[trigger] a@[j]) == ascii_lower(t@[j]),
        decreases a.len() - i,
    {
        if ascii_lower_exec(a[i]) != ascii_lower_exec(t[i]) {
            return false;
        }
        i = i + 1;
    }
    true
}

fn is_critical_exec(item: &Json) -> (r: bool)
    ensures
        r == is_critical(*item),
{
    match item.get("severity") {
        Some(s) => match s.as_str() {
            Some(t) => eq_ignore_ascii_case_exec(&str_chars(t.as_str()), "critical"),
            None => false,
        },
        None => false,
    }
}

/// `j` is the details object of `vulnerabilities` vulnerabilities, of
/// which `critical` are critical.
pub open spec fn audit_details_json(j: Json, vulnerabilities: u32, critical: u32) -> bool {
    object_is(
        j,
        seq!["criticalCount"@, "vulnerabilityCount"@],
        seq![Json::UInt(critical as u64), Json::UInt(vulnerabilities as u64)],
    )
}

impl AuditCollector {
    pub fn new() -> Self {
        AuditCollector
    }

    pub fn name(&self) -> (r: &'static str)
        ensures
            r@ == "audit"@,
    {
        "audit"
    }

    /// Reads (vulnerabilities found, critical ones listed) from the output: read as JSON, `None` when it is not.
    pub fn parse_json_output(&self, stdout: &str) -> (r: (u32, u32))
        ensures
            r == spec_audit_counts(json_value(stdout@)),
    {
        match parse_json(stdout) {
            Some(j) => self.read_parsed(Some(&j)),
            None => self.read_parsed(None),
        }
    }

    /// Reads (vulnerabilities found, critical ones listed) from the parsed
    /// output (`None` when it is not JSON).
    pub fn read_parsed(&self, json: Option<&Json>) -> (r: (u32, u32))
        ensures
            r == spec_audit_counts(match json { Some(j) => Some(*j), None => None }),
    {
        let mut vulnerability_count: u32 = 0;
        let mut critical_count: u64 = 0;
        if let Some(j) = json {
            if let Some(found) = j.get2("vulnerabilities", "found") {
                vulnerability_count = found.u32_or_zero();
            }
            if let Some(list) = j.get2("vulnerabilities", "list") {
                if let Some(items) = list.as_array() {
                    let mut i: usize = 0;
                    while i < items.len()
                        invariant
                            i <= items@.len(),
                            critical_count == count_critical(items@.subrange(0, i as int)),
                            critical_count <= i,
                        decreases items.len() - i,
                    {
                        proof {
                            assert(items@.subrange(0, i + 1).drop_last() =~= items@.subrange(0, i as int));
                        }
                        if is_critical_exec(&items[i]) {
                            critical_count = critical_count + 1;
                        }
                        i = i + 1;
                    }
                    proof {
                        assert(items@.subrange(0, items@.len() as int) =~= items@);
                    }
                }
            }
        }
        (vulnerability_count, critical_count as u32)
    }

    /// Pass when no vulnerability was found, fail otherwise.
    pub fn status_for(vulnerability_count: u32) -> (r: CollectorStatus)
        ensures
            r == if vulnerability_count == 0 { CollectorStatus::Pass } else { CollectorStatus::Fail },
    {
        if vulnerability_count == 0 { CollectorStatus::Pass } else { CollectorStatus::Fail }
    }

    /// The details reported: `{"criticalCount": c, "vulnerabilityCount": v}`.
    pub fn details(vulnerability_count: u32, critical_count: u32) -> (r: Json)
        ensures
            audit_details_json(r, vulnerability_count, critical_count),
    {
        Json::Object(vec![
            ("criticalCount".to_owned(), Json::UInt(critical_count as u64)),
            ("vulnerabilityCount".to_owned(), Json::UInt(vulnerability_count as u64)),
        ])
    }
}

impl Default for AuditCollector {
    fn default() -> Self {
        AuditCollector
    }
}

} // verus!
