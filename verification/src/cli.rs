//! Decisions of the command-line tool: which collectors a scan runs, and
//! which Rust edition a workspace declares.

use vstd::prelude::*;
use crate::config::Config;
use crate::context::{spec_collector_named, spec_profile_named, CollectorName, Context, Profile};
use crate::text::{contains, contains_str, ends_with, ends_with_str, lines, split_lines, starts_with, starts_with_str, str_chars, string_from_chars, str_eq, trim, trim_chars};

verus! {

/// The profile lets a collector of this name run: `Fast` runs fmt and
/// clippy, `Full` all but mutants, `Deep` all.
pub open spec fn profile_allows(p: Profile, name: Seq<char>) -> bool {
    match p {
        Profile::Fast => name == "fmt"@ || name == "clippy"@,
        Profile::Full => name != "mutants"@,
        Profile::Deep => true,
    }
}

/// The profiles nest: what `Fast` runs, `Full` runs, and what `Full` runs,
/// `Deep` runs.
pub proof fn law_profiles_nest(name: Seq<char>)
    ensures
        profile_allows(Profile::Fast, name) ==> profile_allows(Profile::Full, name),
        profile_allows(Profile::Full, name) ==> profile_allows(Profile::Deep, name),
{
    reveal_strlit("fmt");
    reveal_strlit("clippy");
    reveal_strlit("mutants");
    assert("fmt"@.len() != "mutants"@.len());
    assert("clippy"@.len() != "mutants"@.len());
}

/// A collector of this name runs in the context: it is not disabled by
/// name and the profile lets it run.
pub open spec fn spec_collector_enabled(ctx: Context, name: Seq<char>) -> bool {
    let disabled = match spec_collector_named(name) {
        Some(n) => ctx.disabled_collectors@.contains(n),
        None => false,
    };
    !disabled && profile_allows(ctx.profile, name)
}

/// Whether the collector named `name` runs in the context `ctx`.
pub fn is_collector_enabled(ctx: &Context, name: &str) -> (r: bool)
    ensures
        r == spec_collector_enabled(*ctx, name@),
{
    match CollectorName::parse(name) {
        Ok(n) => {
            if ctx.is_collector_disabled(n) {
                return false;
            }
        },
        Err(_) => {},
    }
    match ctx.profile {
        Profile::Fast => str_eq(name, "fmt") || str_eq(name, "clippy"),
        Profile::Full => !str_eq(name, "mutants"),
        Profile::Deep => true,
    }
}

/// The characters trimmed off an edition value.
pub open spec fn edition_edge(c: char) -> bool {
    c == ',' || c == '"' || c == ' ' || c == '\n' || c == '\r'
}

pub open spec fn trim_edges_start(s: Seq<char>) -> Seq<char>
    decreases s.len(),
{
    if s.len() > 0 && edition_edge(s[0]) { trim_edges_start(s.drop_first()) } else { s }
}

pub open spec fn trim_edges_end(s: Seq<char>) -> Seq<char>
    decreases s.len(),
{
    if s.len() > 0 && edition_edge(s.last()) { trim_edges_end(s.drop_last()) } else { s }
}

/// `s` without the edge characters at either end (`str::trim_matches`).
pub open spec fn trim_edges(s: Seq<char>) -> Seq<char> {
    trim_edges_end(trim_edges_start(s))
}

/// The index of the first `c` in `s`, if any.
pub open spec fn first_index(s: Seq<char>, c: char) -> Option<int>
    decreases s.len(),
{
    if s.len() == 0 {
        None
    } else if s[0] == c {
        Some(0)
    } else {
        match first_index(s.drop_first(), c) {
            Some(i) => Some(i + 1),
            None => None,
        }
    }
}

/// The section a trimmed line opens (`[name]`), if it opens one.
pub open spec fn section_header(t: Seq<char>) -> Option<Seq<char>> {
    if starts_with(t, "["@) && ends_with(t, "]"@) {
        Some(t.subrange(1, t.len() - 1))
    } else {
        None
    }
}

/// The edition a trimmed line sets: a line that starts with `edition` and
/// holds `=` sets what follows the first `=`, trimmed of blanks, commas,
/// quotes and line ends, if that is not empty.
pub open spec fn edition_of_line(t: Seq<char>) -> Option<Seq<char>> {
    if starts_with(t, "edition"@) {
        match first_index(t, '=') {
            Some(i) => {
                let e = trim_edges(trim(t.subrange(i + 1, t.len() as int)));
                if e.len() > 0 { Some(e) } else { None }
            },
            None => None,
        }
    } else {
        None
    }
}

/// Reading the lines `ls` of a manifest: whether the current section is
/// `[package]`, whether it is `[workspace.package]`, and the edition found
/// in one of them, the first one.
pub open spec fn edition_fold(ls: Seq<Seq<char>>) -> (bool, bool, Option<Seq<char>>)
    decreases ls.len(),
{
    if ls.len() == 0 {
        (false, false, None)
    } else {
        let (p, w, found) = edition_fold(ls.drop_last());
        if found is Some {
            (p, w, found)
        } else {
            let t = trim(ls.last());
            let (p2, w2) = match section_header(t) {
                Some(sec) => (sec == "package"@, sec == "workspace.package"@),
                None => (p, w),
            };
            (p2, w2, if p2 || w2 { edition_of_line(t) } else { None })
        }
    }
}

/// The edition a manifest sets in `[package]` or `[workspace.package]`.
pub open spec fn manifest_edition(content: Seq<char>) -> Option<Seq<char>> {
    edition_fold(lines(content)).2
}

proof fn lemma_first_index_bounds(s: Seq<char>, c: char)
    ensures
        match first_index(s, c) {
            Some(i) => 0 <= i < s.len() && s[i] == c,
            None => true,
        },
    decreases s.len(),
{
    if s.len() > 0 {
        lemma_first_index_bounds(s.drop_first(), c);
    }
}

proof fn lemma_first_index_found(s: Seq<char>, c: char, i: int)
    requires
        0 <= i < s.len(),
        s[i] == c,
        forall|j: int| 0 <= j < i ==> s[j] != c,
    ensures
        first_index(s, c) == Some(i),
    decreases i,
{
    if i > 0 {
        lemma_first_index_found(s.drop_first(), c, i - 1);
    }
}

proof fn lemma_first_index_none(s: Seq<char>, c: char)
    requires
        forall|j: int| 0 <= j < s.len() ==> s[j] != c,
    ensures
        first_index(s, c) is None,
    decreases s.len(),
{
    if s.len() > 0 {
        lemma_first_index_none(s.drop_first(), c);
    }
}

fn first_index_exec(s: &Vec<char>, c: char) -> (r: Option<usize>)
    ensures
        match first_index(s@, c) {
            Some(i) => r == Some(i as usize),
            None => r is None,
        },
        match r {
            Some(i) => i < s.len(),
            None => true,
        },
{
    let mut i: usize = 0;
    while i < s.len()
        invariant
            i <= s.len(),
            forall|j: int| 0 <= j < i ==> s@[j] != c,
        decreases s.len() - i,
    {
        if s[i] == c {
            proof {
                lemma_first_index_found(s@, c, i as int);
            }
            return Some(i);
        }
        i = i + 1;
    }
    proof {
        lemma_first_index_none(s@, c);
    }
    None
}

/// The characters of `s` from `from` up to `to`.
fn slice_chars(s: &Vec<char>, from: usize, to: usize) -> (r: Vec<char>)
    requires
        from <= to <= s.len(),
    ensures
        r@ == s@.subrange(from as int, to as int),
{
    let mut out: Vec<char> = Vec::new();
    let mut k: usize = from;
    while k < to
        invariant
            from <= k <= to,
            to <= s.len(),
            out@ == s@.subrange(from as int, k as int),
        decreases to - k,
    {
        out.push(s[k]);
        k = k + 1;
        proof {
            assert(out@ =~= s@.subrange(from as int, k as int));
        }
    }
    out
}

fn is_edition_edge(c: char) -> (r: bool)
    ensures
        r == edition_edge(c),
{
    c == ',' || c == '"' || c == ' ' || c == '\n' || c == '\r'
}

/// `s` without the edge characters at either end.
fn trim_edges_exec(s: &Vec<char>) -> (r: Vec<char>)
    ensures
        r@ == trim_edges(s@),
{
    let mut start: usize = 0;
    proof {
        assert(s@.subrange(0, s@.len() as int) =~= s@);
    }
    while start < s.len() && is_edition_edge(s[start])
        invariant
            start <= s.len(),
            trim_edges_start(s@) == trim_edges_start(s@.subrange(start as int, s@.len() as int)),
        decreases s.len() - start,
    {
        proof {
            assert(s@.subrange(start as int, s@.len() as int).drop_first()
                =~= s@.subrange(start + 1, s@.len() as int));
        }
        start = start + 1;
    }
    let mut end: usize = s.len();
    while end > start && is_edition_edge(s[end - 1])
        invariant
            start <= end <= s.len(),
            trim_edges_start(s@) == s@.subrange(start as int, s@.len() as int),
            trim_edges(s@) == trim_edges_end(s@.subrange(start as int, end as int)),
        decreases end,
    {
        proof {
            assert(s@.subrange(start as int, end as int).drop_last()
                =~= s@.subrange(start as int, end - 1));
        }
        end = end - 1;
    }
    slice_chars(s, start, end)
}

/// The edition a trimmed line sets, if it sets one.
fn edition_of_line_exec(t: &Vec<char>) -> (r: Option<Vec<char>>)
    ensures
        match edition_of_line(t@) {
            Some(e) => r matches Some(x) && x@ == e,
            None => r is None,
        },
{
    if !starts_with_str(t, "edition") {
        return None;
    }
    proof {
        lemma_first_index_bounds(t@, '=');
    }
    match first_index_exec(t, '=') {
        Some(i) => {
            let rest = slice_chars(t, i + 1, t.len());
            let value = trim_chars(&rest);
            let e = trim_edges_exec(&value);
            if e.len() > 0 { Some(e) } else { None }
        },
        None => None,
    }
}

/// The edition `content`, a `Cargo.toml`, sets in its `[package]` or
/// `[workspace.package]` section: the first one found.
pub fn parse_edition_from_content(content: &str) -> (r: Option<String>)
    ensures
        match manifest_edition(content@) {
            Some(e) => r matches Some(x) && x@ == e,
            None => r is None,
        },
{
    let chars = str_chars(content);
    let ls = split_lines(&chars);
    let ghost all = lines(content@);
    let mut in_package = false;
    let mut in_workspace_package = false;
    let mut i: usize = 0;
    proof {
        assert(all.take(0) =~= Seq::<Seq<char>>::empty());
    }
    while i < ls.len()
        invariant
            i <= ls.len(),
            all == lines(content@),
            ls@.len() == all.len(),
            forall|k: int| 0 <= k < ls@.len() ==> #[trigger] ls@[k]@ == all[k],
            edition_fold(all.take(i as int)) == (in_package, in_workspace_package, None::<Seq<char>>),
        decreases ls.len() - i,
    {
        proof {
            assert(all.take(i + 1).drop_last() =~= all.take(i as int));
            assert(ls@[i as int]@ == all[i as int]);
        }
        let t = trim_chars(&ls[i]);
        if starts_with_str(&t, "[") && ends_with_str(&t, "]") {
            proof {
                reveal_strlit("[");
                reveal_strlit("]");
                if t@.len() < 2 {
                    assert(t@.subrange(0, 1) == t@.subrange(t@.len() - 1, t@.len() as int));
                    assert("["@[0] == "]"@[0]);
                }
            }
            let section = slice_chars(&t, 1, t.len() - 1);
            let sec = string_from_chars(&section);
            in_package = str_eq(sec.as_str(), "package");
            in_workspace_package = str_eq(sec.as_str(), "workspace.package");
        }
        if in_package || in_workspace_package {
            match edition_of_line_exec(&t) {
                Some(e) => {
                    proof {
                        assert(t@ == trim(all.take(i + 1).last()));
                        assert(edition_fold(all.take(i + 1)).2 == Some(e@));
                        lemma_edition_fold_found(all, i as int);
                    }
                    return Some(string_from_chars(&e));
                },
                None => {},
            }
        }
        i = i + 1;
    }
    proof {
        assert(all.take(all.len() as int) =~= all);
    }
    None
}

/// Once an edition is found, the lines after it change nothing.
proof fn lemma_edition_fold_found(ls: Seq<Seq<char>>, i: int)
    requires
        0 <= i < ls.len(),
        edition_fold(ls.take(i + 1)).2 is Some,
    ensures
        edition_fold(ls).2 == edition_fold(ls.take(i + 1)).2,
    decreases ls.len() - i,
{
    if i + 1 == ls.len() {
        assert(ls.take(i + 1) =~= ls);
    } else {
        let prefix = ls.drop_last();
        assert(prefix.take(i + 1) =~= ls.take(i + 1));
        lemma_edition_fold_found(prefix, i);
    }
}

/// The edition a member crate's manifest sets: only a manifest that
/// mentions both `[package]` and `edition` is read.
pub fn member_manifest_edition(content: &str) -> (r: Option<String>)
    ensures
        (contains(content@, "[package]"@) && contains(content@, "edition"@)) ==> match manifest_edition(content@) {
            Some(e) => r matches Some(x) && x@ == e,
            None => r is None,
        },
        !(contains(content@, "[package]"@) && contains(content@, "edition"@)) ==> r is None,
{
    let chars = str_chars(content);
    if contains_str(&chars, "[package]") && contains_str(&chars, "edition") {
        parse_edition_from_content(content)
    } else {
        None
    }
}

/// The edition of a workspace from its root manifest (if it could be
/// read) and the manifests of its member directories, in the order they
/// are listed: the root's edition, else the first member's, else "2021".
pub fn detect_rust_edition(root_manifest: Option<&str>, member_manifests: &Vec<String>) -> (r: String)
    ensures
        r@ == chosen_edition(
            match root_manifest {
                Some(c) => Some(c@),
                None => None,
            },
            member_manifests@,
        ),
{
    match root_manifest {
        Some(c) => {
            match parse_edition_from_content(c) {
                Some(e) => return e,
                None => {},
            }
        },
        None => {},
    }
    let mut i: usize = 0;
    proof {
        assert(member_manifests@.skip(0) =~= member_manifests@);
    }
    while i < member_manifests.len()
        invariant
            i <= member_manifests.len(),
            match root_manifest {
                Some(c) => manifest_edition(c@) is None,
                None => true,
            },
            first_member_edition(member_manifests@) == first_member_edition(member_manifests@.skip(i as int)),
        decreases member_manifests.len() - i,
    {
        proof {
            assert(member_manifests@.skip(i as int).drop_first() =~= member_manifests@.skip(i + 1));
        }
        proof {
            assert(member_manifests@.skip(i as int)[0] == member_manifests@[i as int]);
        }
        match member_manifest_edition(member_manifests[i].as_str()) {
            Some(e) => return e,
            None => {},
        }
        i = i + 1;
    }
    "2021".to_string()
}

/// The edition of a workspace whose root manifest is `root` (if it could
/// be read) and whose member manifests are `ms`.
pub open spec fn chosen_edition(root: Option<Seq<char>>, ms: Seq<String>) -> Seq<char> {
    let from_members = match first_member_edition(ms) {
        Some(e) => e,
        None => "2021"@,
    };
    match root {
        Some(c) => match manifest_edition(c) {
            Some(e) => e,
            None => from_members,
        },
        None => from_members,
    }
}

/// The edition of the first member manifest of `ms` that sets one.
pub open spec fn first_member_edition(ms: Seq<String>) -> Option<Seq<char>>
    decreases ms.len(),
{
    if ms.len() == 0 {
        None
    } else {
        let c = ms[0]@;
        if contains(c, "[package]"@) && contains(c, "edition"@) && manifest_edition(c) is Some {
            manifest_edition(c)
        } else {
            first_member_edition(ms.drop_first())
        }
    }
}

/// The profile of a scan: the one the command line names, else the
/// configured default, else `Full`.
pub open spec fn chosen_profile(cli_profile: Seq<char>, config_default: Option<Seq<char>>) -> Profile {
    match spec_profile_named(cli_profile) {
        Some(p) => p,
        None => match config_default {
            Some(d) => match spec_profile_named(d) {
                Some(p) => p,
                None => Profile::Full,
            },
            None => Profile::Full,
        },
    }
}

/// The profile of a scan from the `--profile` option and the
/// configuration file, if one was read.
pub fn choose_profile(cli_profile: &str, config: Option<&Config>) -> (r: Profile)
    ensures
        r == chosen_profile(cli_profile@, match config {
            Some(c) => Some(c.profile.default@),
            None => None,
        }),
{
    match Profile::parse(cli_profile) {
        Ok(p) => p,
        Err(_) => match config {
            Some(c) => match Profile::parse(c.profile.default.as_str()) {
                Ok(p) => p,
                Err(_) => Profile::Full,
            },
            None => Profile::Full,
        },
    }
}

} // verus!
