//! Configuration read from `rustquty.toml`.

use vstd::prelude::*;
use crate::context::CollectorName;
use crate::json::Decimal;

verus! {

/// The contents of `rustquty.toml`; every section may be left out.
#[derive(Debug, Clone, Default)]
pub struct Config {
    pub profile: ConfigProfile,
    pub collectors: ConfigCollectors,
    pub gate: ConfigGate,
    pub output: ConfigOutput,
}

/// The `[profile]` section: the profile a scan uses when the command line
/// names none that is known.
#[derive(Debug, Clone)]
pub struct ConfigProfile {
    pub default: String,
}

impl Default for ConfigProfile {
    /// The full profile.
    fn default() -> (r: ConfigProfile)
        ensures
            r.default@ == "full"@,
    {
        ConfigProfile { default: "full".to_string() }
    }
}

/// The `[collectors]` section: collectors switched on or off.
#[derive(Debug, Clone, Copy, PartialEq, Eq, Structural, Default)]
pub struct ConfigCollectors {
    pub mutants: Option<bool>,
    pub hack: Option<bool>,
    pub coverage: Option<bool>,
    pub deny: Option<bool>,
    pub audit: Option<bool>,
}

/// The collectors the `[collectors]` section switches off, in the order
/// mutants, hack, coverage, deny, audit.
pub open spec fn switched_off(c: ConfigCollectors) -> Seq<CollectorName> {
    (if c.mutants == Some(false) { seq![CollectorName::Mutants] } else { seq![] })
        + (if c.hack == Some(false) { seq![CollectorName::Hack] } else { seq![] })
        + (if c.coverage == Some(false) { seq![CollectorName::Coverage] } else { seq![] })
        + (if c.deny == Some(false) { seq![CollectorName::Deny] } else { seq![] })
        + (if c.audit == Some(false) { seq![CollectorName::Audit] } else { seq![] })
}

impl ConfigCollectors {
    /// The collectors this section sets to `false`.
    pub fn switched_off(&self) -> (r: Vec<CollectorName>)
        ensures
            r@ == switched_off(*self),
    {
        let mut r: Vec<CollectorName> = Vec::new();
        if self.mutants == Some(false) {
            r.push(CollectorName::Mutants);
        }
        if self.hack == Some(false) {
            r.push(CollectorName::Hack);
        }
        if self.coverage == Some(false) {
            r.push(CollectorName::Coverage);
        }
        if self.deny == Some(false) {
            r.push(CollectorName::Deny);
        }
        if self.audit == Some(false) {
            r.push(CollectorName::Audit);
        }
        proof {
            assert(r@ =~= switched_off(*self));
        }
        r
    }
}

/// The `[gate]` section.
#[derive(Debug, Clone, Copy, Default)]
pub struct ConfigGate {
    pub coverage: Option<ConfigGateCoverage>,
    pub size: Option<SizeConfig>,
    pub complexity: Option<ComplexityConfig>,
    pub defaults: Option<ConfigGateDefaults>,
}

/// The `[gate.coverage]` section.
#[derive(Debug, Clone, Copy, PartialEq, Eq, Structural)]
pub struct ConfigGateCoverage {
    pub min_line_percent: Option<Decimal>,
}

/// Absolute thresholds based on industry standards (SonarQube, ESLint,
/// DeepSource).  When present, these override the ratchet model for the
/// specified metrics.
#[derive(Debug, Clone, Copy, PartialEq, Eq, Structural, Default)]
pub struct ConfigGateDefaults {
    /// Maximum cyclomatic complexity per function (SonarQube default: 15, DeepSource: 10).
    pub max_cyclomatic_per_function: Option<u32>,
    /// Maximum nesting depth per function (ESLint default: 4, Detekt/ReSharper: 5).
    pub max_nesting_depth: Option<u32>,
    /// Maximum lines per function (SonarQube default: 80, ESLint: 50, Detekt: 60).
    pub max_lines_per_function: Option<u32>,
    /// Maximum lines per file (SonarQube default: 1000).
    pub max_lines_per_file: Option<u32>,
    /// Maximum code lines per file (non-comment, non-blank).
    pub max_code_lines_per_file: Option<u32>,
    /// Maximum parameters per function (SonarQube default: 7, Detekt: 6, ESLint: 3).
    pub max_parameters_per_function: Option<u32>,
    /// Minimum line coverage percent (SonarQube default: 80.0).
    pub min_coverage_percent: Option<Decimal>,
    /// Maximum duplicate lines (SonarQube default: 3% of new code).
    pub max_duplicate_lines: Option<u32>,
    /// Maximum clippy warnings.
    pub max_clippy_warnings: Option<u32>,
    /// Maximum line length in characters (ESLint default: 80, rustfmt default: 120).
    pub max_line_length: Option<usize>,
}

/// The `[output]` section: where the quality files go.
#[derive(Debug, Clone, Default)]
pub struct ConfigOutput {
    pub dir: Option<String>,
}

/// The `[gate.size]` section: limits for the size collector.
#[derive(Debug, Clone, Copy, PartialEq, Eq, Structural, Default)]
pub struct SizeConfig {
    /// Maximum total lines per file.
    pub max_lines_per_file: Option<u32>,
    /// Maximum code lines per file (non-comment, non-blank).
    pub max_code_lines_per_file: Option<u32>,
    /// Maximum lines per function.
    pub max_lines_per_function: Option<u32>,
    /// Maximum parameters per function.
    pub max_parameters_per_function: Option<u32>,
}

/// The `[gate.complexity]` section: limits for the complexity collector.
#[derive(Debug, Clone, Copy, PartialEq, Eq, Structural, Default)]
pub struct ComplexityConfig {
    /// Maximum cyclomatic complexity per function.
    pub max_cyclomatic_per_function: Option<u32>,
    /// Maximum nesting depth per function.
    pub max_nesting_depth: Option<u32>,
}

/// The line-length limit of the LOC collector.
#[derive(Debug, Clone, Copy, PartialEq, Eq, Structural, Default)]
pub struct LocConfig {
    /// Maximum line length in bytes.
    pub max_line_length: Option<usize>,
}


/// The line length the LOC collector checks under a configuration: the
/// `max-line-length` of its `[gate.defaults]`, when set.
pub open spec fn spec_loc_config_of(config: Option<Config>) -> Option<LocConfig> {
    match config {
        Some(c) => match c.gate.defaults {
            Some(d) => match d.max_line_length {
                Some(n) => Some(LocConfig { max_line_length: Some(n) }),
                None => None,
            },
            None => None,
        },
        None => None,
    }
}

/// The LOC collector's settings under the configuration file, if one was
/// read: the maximum line length of its `[gate.defaults]`, so that the
/// collector and the verdict check the same length.
pub fn loc_config_of(config: Option<&Config>) -> (r: Option<LocConfig>)
    ensures
        r == spec_loc_config_of(match config { Some(c) => Some(*c), None => None }),
{
    match config {
        Some(c) => match c.gate.defaults {
            Some(d) => match d.max_line_length {
                Some(n) => Some(LocConfig { max_line_length: Some(n) }),
                None => None,
            },
            None => None,
        },
        None => None,
    }
}

/// The directory, under the project, where the quality files go when no
/// flag names one: the configuration's `[output] dir`, else `quality`.
pub fn output_dir_name(config: Option<&Config>) -> (r: String)
    ensures
        r@ == match config {
            Some(c) => match c.output.dir {
                Some(d) => d@,
                None => "quality"@,
            },
            None => "quality"@,
        },
{
    match config {
        Some(c) => match &c.output.dir {
            Some(d) => d.clone(),
            None => "quality".to_string(),
        },
        None => "quality".to_string(),
    }
}

} // verus!
