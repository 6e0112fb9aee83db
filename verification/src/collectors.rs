//! The registry of all collectors, in the order a scan runs them.

use vstd::prelude::*;
use crate::collector::audit::AuditCollector;
use crate::collector::clippy::ClippyCollector;
use crate::collector::complexity::ComplexityCollector;
use crate::collector::coverage::CoverageCollector;
use crate::collector::deny::DenyCollector;
use crate::collector::duplicates::DuplicatesCollector;
use crate::collector::fmt::FmtCollector;
use crate::collector::hack::HackCollector;
use crate::collector::loc::{LocCollector, DEFAULT_MAX_LINE_LENGTH};
use crate::collector::mutants::MutantsCollector;
use crate::collector::size::SizeCollector;
use crate::collector::tests::TestCollector;
use crate::config::{ComplexityConfig, LocConfig, SizeConfig};

verus! {

/// One of the collectors.
#[derive(Debug, Clone, Copy)]
pub enum AnyCollector {
    Fmt(FmtCollector),
    Clippy(ClippyCollector),
    Tests(TestCollector),
    Coverage(CoverageCollector),
    Deny(DenyCollector),
    Audit(AuditCollector),
    Hack(HackCollector),
    Mutants(MutantsCollector),
    Duplicates(DuplicatesCollector),
    Loc(LocCollector),
    Size(SizeCollector),
    Complexity(ComplexityCollector),
}

/// The name a collector reports.
pub open spec fn collector_name(c: AnyCollector) -> Seq<char> {
    match c {
        AnyCollector::Fmt(_) => "fmt"@,
        AnyCollector::Clippy(_) => "clippy"@,
        AnyCollector::Tests(_) => "tests"@,
        AnyCollector::Coverage(_) => "coverage"@,
        AnyCollector::Deny(_) => "deny"@,
        AnyCollector::Audit(_) => "audit"@,
        AnyCollector::Hack(_) => "hack"@,
        AnyCollector::Mutants(_) => "mutants"@,
        AnyCollector::Duplicates(_) => "duplicates"@,
        AnyCollector::Loc(_) => "loc"@,
        AnyCollector::Size(_) => "size"@,
        AnyCollector::Complexity(_) => "complexity"@,
    }
}

impl AnyCollector {
    pub fn name(&self) -> (r: &'static str)
        ensures
            r@ == collector_name(*self),
    {
        match self {
            AnyCollector::Fmt(c) => c.name(),
            AnyCollector::Clippy(c) => c.name(),
            AnyCollector::Tests(c) => c.name(),
            AnyCollector::Coverage(c) => c.name(),
            AnyCollector::Deny(c) => c.name(),
            AnyCollector::Audit(c) => c.name(),
            AnyCollector::Hack(c) => c.name(),
            AnyCollector::Mutants(c) => c.name(),
            AnyCollector::Duplicates(c) => c.name(),
            AnyCollector::Loc(c) => c.name(),
            AnyCollector::Size(c) => c.name(),
            AnyCollector::Complexity(c) => c.name(),
        }
    }
}

/// All twelve collectors, in the order a scan runs them: the LOC, size and
/// complexity collectors with their configured limits, if any.
pub fn all_collectors(
    size_config: Option<SizeConfig>,
    complexity_config: Option<ComplexityConfig>,
    loc_config: Option<LocConfig>,
) -> (r: Vec<AnyCollector>)
    ensures
        r@.len() == 12,
        collector_name(r@[0]) == "fmt"@,
        collector_name(r@[1]) == "clippy"@,
        collector_name(r@[2]) == "tests"@,
        collector_name(r@[3]) == "coverage"@,
        collector_name(r@[4]) == "deny"@,
        collector_name(r@[5]) == "audit"@,
        collector_name(r@[6]) == "hack"@,
        collector_name(r@[7]) == "mutants"@,
        collector_name(r@[8]) == "duplicates"@,
        r@[9] matches AnyCollector::Loc(c) && c.max_line_length == match loc_config {
            Some(cfg) => match cfg.max_line_length {
                Some(n) => n,
                None => DEFAULT_MAX_LINE_LENGTH,
            },
            None => DEFAULT_MAX_LINE_LENGTH,
        },
        r@[10] matches AnyCollector::Size(c) && match size_config {
            Some(cfg) => c.config.max_lines_per_file == cfg.max_lines_per_file
                && c.config.max_code_lines_per_file == cfg.max_code_lines_per_file
                && c.config.max_lines_per_function == cfg.max_lines_per_function
                && c.config.max_parameters_per_function == cfg.max_parameters_per_function,
            None => c.config.max_lines_per_file is None && c.config.max_code_lines_per_file is None
                && c.config.max_lines_per_function is None && c.config.max_parameters_per_function is None,
        },
        r@[11] matches AnyCollector::Complexity(c) && match complexity_config {
            Some(cfg) => c.config.max_cyclomatic_per_function == cfg.max_cyclomatic_per_function
                && c.config.max_nesting_depth == cfg.max_nesting_depth,
            None => c.config.max_cyclomatic_per_function is None && c.config.max_nesting_depth is None,
        },
{
    let loc = match loc_config {
        Some(cfg) => LocCollector::with_config(cfg),
        None => LocCollector::new(),
    };
    let size = match size_config {
        Some(cfg) => SizeCollector::with_config(cfg),
        None => SizeCollector::new(),
    };
    let complexity = match complexity_config {
        Some(cfg) => ComplexityCollector::with_config(cfg),
        None => ComplexityCollector::new(),
    };
    vec![
        AnyCollector::Fmt(FmtCollector::new()),
        AnyCollector::Clippy(ClippyCollector::new()),
        AnyCollector::Tests(TestCollector::new()),
        AnyCollector::Coverage(CoverageCollector::new()),
        AnyCollector::Deny(DenyCollector::new()),
        AnyCollector::Audit(AuditCollector::new()),
        AnyCollector::Hack(HackCollector::new()),
        AnyCollector::Mutants(MutantsCollector::new()),
        AnyCollector::Duplicates(DuplicatesCollector::new()),
        AnyCollector::Loc(loc),
        AnyCollector::Size(size),
        AnyCollector::Complexity(complexity),
    ]
}

} // verus!
