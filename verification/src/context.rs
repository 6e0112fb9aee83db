//! Runtime context passed to collectors.

use std::path::PathBuf;
use vstd::prelude::*;
use crate::text::{concat_str, lower_char, lowercase_eq, lowercase_matches, str_chars};

verus! {

#[verifier::external_type_specification]
#[verifier::external_body]
pub struct ExPathBuf(std::path::PathBuf);

/// The path that `PathBuf::from` makes of a text.
pub uninterp spec fn path_from_str(s: Seq<char>) -> PathBuf;

/// `PathBuf::from(s)`: the path is named by the text it was made from.
#[verifier::external_body]
pub(crate) fn path_buf_from(s: &str) -> (r: PathBuf)
    ensures
        r == path_from_str(s@),
{
    PathBuf::from(s)
}

/// Active quality scan profile.
#[derive(Debug, Clone, Copy, PartialEq, Eq, Structural)]
pub enum Profile {
    /// Fast scan: fmt + clippy only.
    Fast,
    /// Full scan: all collectors except slow ones like mutants.
    Full,
    /// Deep scan: all collectors including mutation testing.
    Deep,
}

impl Default for Profile {
    fn default() -> (r: Profile)
        ensures
            r == Profile::Full,
    {
        Profile::Full
    }
}

/// The profile a text names, ignoring case.
pub open spec fn spec_profile_named(s: Seq<char>) -> Option<Profile> {
    if lowercase_matches(s, "fast"@) {
        Some(Profile::Fast)
    } else if lowercase_matches(s, "full"@) {
        Some(Profile::Full)
    } else if lowercase_matches(s, "deep"@) {
        Some(Profile::Deep)
    } else {
        None
    }
}

impl Profile {
    /// Parses a profile name case-insensitively; unknown names give
    /// `unknown profile: <name>`.
    pub fn parse(s: &str) -> (r: Result<Profile, String>)
        ensures
            match spec_profile_named(s@) {
                Some(p) => r == Ok::<Profile, String>(p),
                None => r matches Err(e) && e@ == "unknown profile: "@ + s@,
            },
    {
        let chars = str_chars(s);
        if lowercase_eq(&chars, "fast") {
            Ok(Profile::Fast)
        } else if lowercase_eq(&chars, "full") {
            Ok(Profile::Full)
        } else if lowercase_eq(&chars, "deep") {
            Ok(Profile::Deep)
        } else {
            Err(concat_str("unknown profile: ", s))
        }
    }
}

impl std::str::FromStr for Profile {
    type Err = String;

    fn from_str(s: &str) -> (r: Result<Self, Self::Err>)
        ensures
            match spec_profile_named(s@) {
                Some(p) => r == Ok::<Profile, String>(p),
                None => r matches Err(e) && e@ == "unknown profile: "@ + s@,
            },
    {
        Profile::parse(s)
    }
}

/// Collector names that can be skipped via CLI.
#[derive(Debug, Clone, Copy, PartialEq, Eq, Structural)]
pub enum CollectorName {
    Fmt,
    Clippy,
    Tests,
    Coverage,
    Deny,
    Audit,
    Hack,
    Mutants,
}

/// The text by which a collector is named.
pub open spec fn spec_collector_text(n: CollectorName) -> Seq<char> {
    match n {
        CollectorName::Fmt => "fmt"@,
        CollectorName::Clippy => "clippy"@,
        CollectorName::Tests => "tests"@,
        CollectorName::Coverage => "coverage"@,
        CollectorName::Deny => "deny"@,
        CollectorName::Audit => "audit"@,
        CollectorName::Hack => "hack"@,
        CollectorName::Mutants => "mutants"@,
    }
}

/// The collector a text names, ignoring case.
pub open spec fn spec_collector_named(s: Seq<char>) -> Option<CollectorName> {
    if lowercase_matches(s, "fmt"@) {
        Some(CollectorName::Fmt)
    } else if lowercase_matches(s, "clippy"@) {
        Some(CollectorName::Clippy)
    } else if lowercase_matches(s, "tests"@) {
        Some(CollectorName::Tests)
    } else if lowercase_matches(s, "coverage"@) {
        Some(CollectorName::Coverage)
    } else if lowercase_matches(s, "deny"@) {
        Some(CollectorName::Deny)
    } else if lowercase_matches(s, "audit"@) {
        Some(CollectorName::Audit)
    } else if lowercase_matches(s, "hack"@) {
        Some(CollectorName::Hack)
    } else if lowercase_matches(s, "mutants"@) {
        Some(CollectorName::Mutants)
    } else {
        None
    }
}

/// Disabling a collector disables it and leaves every other collector as
/// it was: after `disable_collector(n)`, `is_collector_disabled(m)` holds
/// exactly when it held before or `m` is `n`.
pub proof fn law_disabling_touches_only_that_collector(before: Seq<CollectorName>, n: CollectorName, m: CollectorName)
    ensures
        before.push(n).contains(m) <==> (before.contains(m) || m == n),
{
    if before.contains(m) {
        let i = choose|i: int| 0 <= i < before.len() && before[i] == m;
        assert(before.push(n)[i] == m);
    }
    if m == n {
        assert(before.push(n)[before.len() as int] == m);
    }
    if before.push(n).contains(m) && m != n {
        let i = choose|i: int| 0 <= i < before.push(n).len() && before.push(n)[i] == m;
        assert(i < before.len());
        assert(before[i] == m);
    }
}

/// A collector's name reads back as that collector: parsing the text that
/// names it gives it again.
pub proof fn law_collector_name_round_trip(n: CollectorName)
    ensures
        spec_collector_named(spec_collector_text(n)) == Some(n),
{
    reveal_strlit("fmt");
    reveal_strlit("clippy");
    reveal_strlit("tests");
    reveal_strlit("coverage");
    reveal_strlit("deny");
    reveal_strlit("audit");
    reveal_strlit("hack");
    reveal_strlit("mutants");
    let t = spec_collector_text(n);
    assert(forall|i: int| 0 <= i < t.len() ==> lower_char(#[trigger] t[i]) == t[i]);
    match n {
        CollectorName::Tests => {
            assert(lower_char(t[0]) != "audit"@[0]);
        },
        CollectorName::Audit => {
            assert(lower_char(t[0]) != "tests"@[0]);
        },
        CollectorName::Hack => {
            assert(lower_char(t[0]) != "deny"@[0]);
        },
        CollectorName::Deny => {
            assert(lower_char(t[0]) != "hack"@[0]);
        },
        _ => {},
    }
}

impl CollectorName {
    /// The collector's name as text (what `Display` prints).
    pub fn as_str(&self) -> (r: &'static str)
        ensures
            r@ == spec_collector_text(*self),
    {
        match self {
            CollectorName::Fmt => "fmt",
            CollectorName::Clippy => "clippy",
            CollectorName::Tests => "tests",
            CollectorName::Coverage => "coverage",
            CollectorName::Deny => "deny",
            CollectorName::Audit => "audit",
            CollectorName::Hack => "hack",
            CollectorName::Mutants => "mutants",
        }
    }

    /// Parses a collector name case-insensitively; unknown names give
    /// `unknown collector: <name>`.
    pub fn parse(s: &str) -> (r: Result<CollectorName, String>)
        ensures
            match spec_collector_named(s@) {
                Some(n) => r == Ok::<CollectorName, String>(n),
                None => r matches Err(e) && e@ == "unknown collector: "@ + s@,
            },
    {
        let chars = str_chars(s);
        if lowercase_eq(&chars, "fmt") {
            Ok(CollectorName::Fmt)
        } else if lowercase_eq(&chars, "clippy") {
            Ok(CollectorName::Clippy)
        } else if lowercase_eq(&chars, "tests") {
            Ok(CollectorName::Tests)
        } else if lowercase_eq(&chars, "coverage") {
            Ok(CollectorName::Coverage)
        } else if lowercase_eq(&chars, "deny") {
            Ok(CollectorName::Deny)
        } else if lowercase_eq(&chars, "audit") {
            Ok(CollectorName::Audit)
        } else if lowercase_eq(&chars, "hack") {
            Ok(CollectorName::Hack)
        } else if lowercase_eq(&chars, "mutants") {
            Ok(CollectorName::Mutants)
        } else {
            Err(concat_str("unknown collector: ", s))
        }
    }
}

impl std::str::FromStr for CollectorName {
    type Err = String;

    fn from_str(s: &str) -> (r: Result<Self, Self::Err>)
        ensures
            match spec_collector_named(s@) {
                Some(n) => r == Ok::<CollectorName, String>(n),
                None => r matches Err(e) && e@ == "unknown collector: "@ + s@,
            },
    {
        CollectorName::parse(s)
    }
}

/// Runtime context for collector execution.
#[derive(Debug)]
pub struct Context {
    /// Root of the Cargo workspace being scanned.
    pub workspace_root: PathBuf,
    /// Active quality scan profile.
    pub profile: Profile,
    /// Explicitly disabled collectors.
    pub disabled_collectors: Vec<CollectorName>,
    /// Directory where quality JSON files are written.
    pub output_dir: PathBuf,
}

impl Context {
    pub fn new(workspace_root: PathBuf) -> (r: Context)
        ensures
            r.workspace_root == workspace_root,
            r.profile == Profile::Full,
            r.disabled_collectors@ == Seq::<CollectorName>::empty(),
            r.output_dir == path_from_str("quality"@),
    {
        Context {
            workspace_root,
            profile: Profile::Full,
            disabled_collectors: Vec::new(),
            output_dir: path_buf_from("quality"),
        }
    }

    pub fn with_profile(self, profile: Profile) -> (r: Context)
        ensures
            r == (Context { profile, ..self }),
    {
        let mut s = self;
        s.profile = profile;
        s
    }

    pub fn with_output_dir(self, dir: PathBuf) -> (r: Context)
        ensures
            r == (Context { output_dir: dir, ..self }),
    {
        let mut s = self;
        s.output_dir = dir;
        s
    }

    pub fn disable_collector(&mut self, name: CollectorName)
        ensures
            final(self).disabled_collectors@ == old(self).disabled_collectors@.push(name),
            final(self).workspace_root == old(self).workspace_root,
            final(self).profile == old(self).profile,
            final(self).output_dir == old(self).output_dir,
    {
        self.disabled_collectors.push(name);
    }

    pub fn is_collector_disabled(&self, name: CollectorName) -> (r: bool)
        ensures
            r == self.disabled_collectors@.contains(name),
    {
        let mut i: usize = 0;
        while i < self.disabled_collectors.len()
            invariant
                i <= self.disabled_collectors.len(),
                forall|j: int| 0 <= j < i ==> self.disabled_collectors@[j] != name,
            decreases self.disabled_collectors.len() - i,
        {
            if self.disabled_collectors[i] == name {
                return true;
            }
            i = i + 1;
        }
        false
    }

    /// Whether a collector reporting the name `name` has been disabled: some
    /// disabled collector's text equals `name` lower-cased.
    pub fn is_name_disabled(&self, name: &str) -> (r: bool)
        ensures
            r == exists|j: int|
                0 <= j < self.disabled_collectors@.len() && lowercase_matches(
                    name@,
                    spec_collector_text(#[trigger] self.disabled_collectors@[j]),
                ),
    {
        let chars = str_chars(name);
        let mut i: usize = 0;
        while i < self.disabled_collectors.len()
            invariant
                i <= self.disabled_collectors.len(),
                chars@ == name@,
                forall|j: int| 0 <= j < i ==> !lowercase_matches(
                    name@,
                    spec_collector_text(#[trigger] self.disabled_collectors@[j]),
                ),
            decreases self.disabled_collectors.len() - i,
        {
            if lowercase_eq(&chars, self.disabled_collectors[i].as_str()) {
                return true;
            }
            i = i + 1;
        }
        false
    }
}

} // verus!
