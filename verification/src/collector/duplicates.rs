//! Duplicates collector: finds blocks of code repeated token for token.
//!
//! Every run of `MIN_DUPLICATE_TOKENS` tokens of a file that spans at least
//! `MIN_DUPLICATE_LINES` lines is a window.  Windows with the same tokens
//! that occur twice without overlapping are duplicates; the windows of a
//! file that are duplicates are merged into intervals, whose lines are
//! counted and grouped into blocks.

use vstd::prelude::*;
use crate::collector::grouping::{group_by_key, grouped, groups_view, indices_with_key, key_views, nat_view, first_indices};
use crate::json::{str_array_is, str_is, Json};
use crate::schema::CollectorStatus;
use crate::text::{push_all, str_chars};

verus! {

/// The fewest tokens a duplicate window holds.
pub const MIN_DUPLICATE_TOKENS: usize = 100;

/// The fewest lines a duplicate window or block spans.
pub const MIN_DUPLICATE_LINES: u32 = 6;

/// At most this many duplicate blocks are reported one by one.
pub const DUPLICATE_BLOCK_DETAIL_CAP: usize = 100;

/// A token of a source file: its normalized text and its line.
#[derive(Debug, Clone)]
pub struct TokenInfo {
    pub normalized: String,
    pub line: u32,
}

/// A source file as the duplicates collector reads it: its path, its
/// number of lines and its tokens in source order.
#[derive(Debug, Clone)]
pub struct TokenFile {
    pub path: String,
    pub total_lines: u32,
    pub tokens: Vec<TokenInfo>,
}

/// A window: tokens `start_token` up to `end_token` of file `file_idx`.
#[derive(Debug, Clone, Copy, PartialEq, Eq, Structural)]
pub struct WindowInfo {
    pub file_idx: usize,
    pub start_token: usize,
    pub end_token: usize,
}

/// Tokens `start_token` up to `end_token` of a file.
#[derive(Debug, Clone, Copy, PartialEq, Eq, Structural)]
pub struct TokenInterval {
    pub start_token: usize,
    pub end_token: usize,
}

/// The key of a run of tokens: their normalized texts, each followed by a
/// NUL character.
pub open spec fn tokens_key(ts: Seq<TokenInfo>) -> Seq<char>
    decreases ts.len(),
{
    if ts.len() == 0 {
        Seq::empty()
    } else {
        tokens_key(ts.drop_last()) + ts.last().normalized@ + seq!['\0']
    }
}

/// `a - b`, or 0 when `b` is larger.
pub open spec fn sat_sub(a: u32, b: u32) -> nat {
    if a > b { (a - b) as nat } else { 0 }
}

/// The window of file `f` starting at token `s` spans enough lines.
pub open spec fn window_spans_enough(t: Seq<TokenInfo>, s: int) -> bool {
    sat_sub(t[s + MIN_DUPLICATE_TOKENS - 1].line, t[s].line) + 1 >= MIN_DUPLICATE_LINES
}

/// The windows of file `f` (tokens `t`) starting before `n`, in order.
pub open spec fn file_windows(f: nat, t: Seq<TokenInfo>, n: nat) -> Seq<WindowInfo>
    decreases n,
{
    if n == 0 {
        Seq::empty()
    } else {
        let prev = file_windows(f, t, (n - 1) as nat);
        let s = (n - 1) as int;
        if s + MIN_DUPLICATE_TOKENS <= t.len() && window_spans_enough(t, s) {
            prev.push(WindowInfo { file_idx: f as usize, start_token: s as usize, end_token: (s + MIN_DUPLICATE_TOKENS) as usize })
        } else {
            prev
        }
    }
}

/// The windows of the files `files`, file after file.
pub open spec fn all_windows(files: Seq<TokenFile>) -> Seq<WindowInfo>
    decreases files.len(),
{
    if files.len() == 0 {
        Seq::empty()
    } else {
        let f = (files.len() - 1) as nat;
        let t = files.last().tokens@;
        all_windows(files.drop_last()) + file_windows(f, t, t.len())
    }
}

/// The key of window `w` of `files`.
pub open spec fn window_key(files: Seq<TokenFile>, w: WindowInfo) -> Seq<char> {
    tokens_key(files[w.file_idx as int].tokens@.subrange(w.start_token as int, w.end_token as int))
}

/// The keys of the windows `ws`.
pub open spec fn window_keys(files: Seq<TokenFile>, ws: Seq<WindowInfo>) -> Seq<Seq<char>> {
    ws.map_values(|w: WindowInfo| window_key(files, w))
}

/// Reading the windows `ws` of one key in order, keeping the first window
/// of the first file (replaced by a later one that ends before it): a
/// window of another file, or one that does not overlap the kept one,
/// shows a non-overlapping pair.  The kept window as (file, start, end).
pub open spec fn pair_fold(ws: Seq<WindowInfo>) -> (bool, Option<(usize, usize, usize)>)
    decreases ws.len(),
{
    if ws.len() == 0 {
        (false, None)
    } else {
        let (found, kept) = pair_fold(ws.drop_last());
        let w = ws.last();
        if found {
            (true, kept)
        } else {
            match kept {
                Some((f, s0, e0)) => {
                    if f != w.file_idx {
                        (true, kept)
                    } else if w.start_token >= e0 || w.end_token <= s0 {
                        (true, kept)
                    } else if w.end_token < e0 {
                        (false, Some((f, w.start_token, w.end_token)))
                    } else {
                        (false, kept)
                    }
                },
                None => {
                    if w.start_token >= w.end_token || w.end_token <= w.start_token {
                        (true, Some((w.file_idx, w.start_token, w.end_token)))
                    } else {
                        (false, Some((w.file_idx, w.start_token, w.end_token)))
                    }
                },
            }
        }
    }
}

/// Some two of the windows `ws` do not overlap.
pub open spec fn has_pair(ws: Seq<WindowInfo>) -> bool {
    pair_fold(ws).0
}

/// Window `j` of the windows `ws` of `files` is a duplicate: its key is
/// shared by at least two windows, two of which do not overlap.
pub open spec fn is_duplicate_window(files: Seq<TokenFile>, ws: Seq<WindowInfo>, j: int) -> bool {
    let keys = window_keys(files, ws);
    let same = indices_with_key(keys, ws.len(), keys[j]);
    same.len() >= 2 && has_pair(same.map_values(|i: nat| ws[i as int]))
}

/// Merging the intervals `ivs`, sorted by start: an interval that starts
/// within the last merged one extends it.
pub open spec fn merge_fold(ivs: Seq<TokenInterval>) -> Seq<TokenInterval>
    decreases ivs.len(),
{
    if ivs.len() == 0 {
        Seq::empty()
    } else {
        let m = merge_fold(ivs.drop_last());
        let iv = ivs.last();
        if m.len() > 0 && iv.start_token <= m.last().end_token {
            let last = m.last();
            m.update(m.len() - 1, TokenInterval {
                start_token: last.start_token,
                end_token: if last.end_token >= iv.end_token { last.end_token } else { iv.end_token },
            })
        } else {
            m.push(iv)
        }
    }
}

/// Each interval ends before the next one starts: no two overlap or touch.
pub open spec fn separated(ivs: Seq<TokenInterval>) -> bool {
    forall|k: int| 0 <= k < ivs.len() - 1 ==> (#[trigger] ivs[k]).end_token < ivs[k + 1].start_token
}

/// Merging leaves intervals that neither overlap nor touch.
proof fn lemma_merge_separated(ivs: Seq<TokenInterval>)
    ensures
        separated(merge_fold(ivs)),
    decreases ivs.len(),
{
    if ivs.len() > 0 {
        lemma_merge_separated(ivs.drop_last());
        let m = merge_fold(ivs.drop_last());
        let r = merge_fold(ivs);
        assert forall|k: int| 0 <= k < r.len() - 1 implies (#[trigger] r[k]).end_token < r[k + 1].start_token by {
            if k + 1 < m.len() {
                assert(r[k] == m[k]);
                assert(r[k + 1].start_token == m[k + 1].start_token);
            }
        }
    }
}

/// The duplicate windows of file `f` among the first `n` windows, as
/// intervals, in order.
pub open spec fn duplicate_windows_of(files: Seq<TokenFile>, ws: Seq<WindowInfo>, f: nat, n: nat) -> Seq<TokenInterval>
    decreases n,
{
    if n == 0 {
        Seq::empty()
    } else {
        let prev = duplicate_windows_of(files, ws, f, (n - 1) as nat);
        let w = ws[n - 1];
        if w.file_idx == f && is_duplicate_window(files, ws, n - 1) {
            prev.push(TokenInterval { start_token: w.start_token, end_token: w.end_token })
        } else {
            prev
        }
    }
}

/// `s`, sorted by start, with `x` inserted after every interval that does
/// not start after it.
pub open spec fn insert_by_start(s: Seq<TokenInterval>, x: TokenInterval) -> Seq<TokenInterval>
    decreases s.len(),
{
    if s.len() == 0 {
        seq![x]
    } else if s.last().start_token <= x.start_token {
        s.push(x)
    } else {
        insert_by_start(s.drop_last(), x).push(s.last())
    }
}

/// `s` sorted by start, intervals with equal starts kept in order.
pub open spec fn sort_by_start(s: Seq<TokenInterval>) -> Seq<TokenInterval>
    decreases s.len(),
{
    if s.len() == 0 {
        Seq::empty()
    } else {
        insert_by_start(sort_by_start(s.drop_last()), s.last())
    }
}

/// The merged duplicate intervals of file `f`: its duplicate windows,
/// sorted by start and merged.
pub open spec fn duplicate_intervals(files: Seq<TokenFile>, f: nat) -> Seq<TokenInterval> {
    let ws = all_windows(files);
    merge_fold(sort_by_start(duplicate_windows_of(files, ws, f, ws.len())))
}

/// The key of tokens `start` up to `end` of `tokens`.
fn token_key(tokens: &Vec<TokenInfo>, start: usize, end: usize) -> (r: Vec<char>)
    requires
        start <= end <= tokens@.len(),
    ensures
        r@ == tokens_key(tokens@.subrange(start as int, end as int)),
{
    let mut key: Vec<char> = Vec::new();
    let mut k: usize = start;
    proof {
        assert(tokens@.subrange(start as int, start as int) =~= Seq::<TokenInfo>::empty());
    }
    while k < end
        invariant
            start <= k <= end,
            end <= tokens@.len(),
            key@ == tokens_key(tokens@.subrange(start as int, k as int)),
        decreases end - k,
    {
        proof {
            assert(tokens@.subrange(start as int, k + 1).drop_last() =~= tokens@.subrange(start as int, k as int));
        }
        let text = str_chars(tokens[k].normalized.as_str());
        push_all(&mut key, &text);
        key.push('\0');
        k = k + 1;
        proof {
            assert(key@ =~= tokens_key(tokens@.subrange(start as int, k as int)));
        }
    }
    key
}

/// The windows of `files` and their keys.
fn collect_windows(files: &Vec<TokenFile>) -> (r: (Vec<WindowInfo>, Vec<Vec<char>>))
    ensures
        r.0@ == all_windows(files@),
        key_views(r.1@) == window_keys(files@, r.0@),
        forall|x: int| 0 <= x < r.0@.len() ==> (#[trigger] r.0@[x]).file_idx < files@.len(),
{
    let mut windows: Vec<WindowInfo> = Vec::new();
    let mut keys: Vec<Vec<char>> = Vec::new();
    let mut f: usize = 0;
    proof {
        assert(files@.take(0) =~= Seq::<TokenFile>::empty());
        assert(key_views(keys@) =~= window_keys(files@, windows@));
    }
    while f < files.len()
        invariant
            f <= files.len(),
            windows@ == all_windows(files@.take(f as int)),
            key_views(keys@) == window_keys(files@, windows@),
            forall|x: int| 0 <= x < windows@.len() ==> (#[trigger] windows@[x]).file_idx < f,
        decreases files.len() - f,
    {
        let tokens = &files[f].tokens;
        let ghost before = windows@;
        proof {
            assert(files@.take(f + 1).drop_last() =~= files@.take(f as int));
        }
        let mut n: usize = 0;
        while n < tokens.len()
            invariant
                f < files.len(),
                tokens == &files@[f as int].tokens,
                n <= tokens@.len(),
                windows@ == before + file_windows(f as nat, tokens@, n as nat),
                key_views(keys@) == window_keys(files@, windows@),
                forall|x: int| 0 <= x < windows@.len() ==> (#[trigger] windows@[x]).file_idx <= f,
            decreases tokens.len() - n,
        {
            let s = n;
            if tokens.len() >= MIN_DUPLICATE_TOKENS && s <= tokens.len() - MIN_DUPLICATE_TOKENS {
                let first = tokens[s].line;
                let last = tokens[s + MIN_DUPLICATE_TOKENS - 1].line;
                let span = last.saturating_sub(first);
                if span >= MIN_DUPLICATE_LINES - 1 {
                    let w = WindowInfo { file_idx: f, start_token: s, end_token: s + MIN_DUPLICATE_TOKENS };
                    let key = token_key(tokens, s, s + MIN_DUPLICATE_TOKENS);
                    let ghost old_windows = windows@;
                    let ghost old_keys = keys@;
                    windows.push(w);
                    keys.push(key);
                    proof {
                        assert(key_views(keys@) =~= key_views(old_keys).push(key@));
                        assert(window_keys(files@, windows@) =~= window_keys(files@, old_windows).push(window_key(files@, w)));
                    }
                }
            }
            n = n + 1;
        }
        f = f + 1;
    }
    proof {
        assert(files@.take(files@.len() as int) =~= files@);
    }
    (windows, keys)
}

/// Inserting `x` at `p` in `s`, where every interval from `p` on starts
/// after `x` and the one before `p` does not.
proof fn lemma_insert_at(s: Seq<TokenInterval>, x: TokenInterval, p: int)
    requires
        0 <= p <= s.len(),
        forall|k: int| p <= k < s.len() ==> #[trigger] s[k].start_token > x.start_token,
        p > 0 ==> s[p - 1].start_token <= x.start_token,
    ensures
        insert_by_start(s, x) == s.insert(p, x),
    decreases s.len(),
{
    if s.len() == 0 {
        assert(s.insert(p, x) =~= seq![x]);
    } else if p == s.len() {
        assert(s.insert(p, x) =~= s.push(x));
    } else {
        lemma_insert_at(s.drop_last(), x, p);
        assert(s.drop_last().insert(p, x).push(s.last()) =~= s.insert(p, x));
    }
}

/// Sorts `intervals` by start (equal starts kept in order) and merges the
/// ones that overlap or touch.
pub fn merge_token_intervals(intervals: &mut Vec<TokenInterval>)
    ensures
        final(intervals)@ == merge_fold(sort_by_start(old(intervals)@)),
        separated(final(intervals)@),
{
    proof {
        lemma_merge_separated(sort_by_start(old(intervals)@));
    }
    let mut sorted: Vec<TokenInterval> = Vec::new();
    let mut i: usize = 0;
    proof {
        assert(old(intervals)@.take(0) =~= Seq::<TokenInterval>::empty());
    }
    while i < intervals.len()
        invariant
            i <= intervals.len(),
            intervals@ == old(intervals)@,
            sorted@ == sort_by_start(old(intervals)@.take(i as int)),
        decreases intervals.len() - i,
    {
        let x = intervals[i];
        let mut p: usize = sorted.len();
        while p > 0 && sorted[p - 1].start_token > x.start_token
            invariant
                p <= sorted@.len(),
                forall|k: int| p <= k < sorted@.len() ==> #[trigger] sorted@[k].start_token > x.start_token,
            decreases p,
        {
            p = p - 1;
        }
        proof {
            lemma_insert_at(sorted@, x, p as int);
            assert(old(intervals)@.take(i + 1).drop_last() =~= old(intervals)@.take(i as int));
        }
        sorted.insert(p, x);
        i = i + 1;
    }
    proof {
        assert(old(intervals)@.take(old(intervals)@.len() as int) =~= old(intervals)@);
    }
    let mut merged: Vec<TokenInterval> = Vec::new();
    let mut k: usize = 0;
    proof {
        assert(sorted@.take(0) =~= Seq::<TokenInterval>::empty());
    }
    while k < sorted.len()
        invariant
            k <= sorted.len(),
            merged@ == merge_fold(sorted@.take(k as int)),
        decreases sorted.len() - k,
    {
        let iv = sorted[k];
        proof {
            assert(sorted@.take(k + 1).drop_last() =~= sorted@.take(k as int));
        }
        let n = merged.len();
        if n > 0 && iv.start_token <= merged[n - 1].end_token {
            let last = merged[n - 1];
            let end = if last.end_token >= iv.end_token { last.end_token } else { iv.end_token };
            merged.set(n - 1, TokenInterval { start_token: last.start_token, end_token: end });
        } else {
            merged.push(iv);
        }
        k = k + 1;
    }
    proof {
        assert(sorted@.take(sorted@.len() as int) =~= sorted@);
    }
    *intervals = merged;
}

/// Whether some two of the windows `members` (indices into `windows`) do
/// not overlap.
fn has_non_overlapping_pair(windows: &Vec<WindowInfo>, members: &Vec<usize>) -> (r: bool)
    requires
        forall|k: int| 0 <= k < members@.len() ==> #[trigger] members@[k] < windows@.len(),
    ensures
        r == has_pair(nat_view(members@).map_values(|i: nat| windows@[i as int])),
{
    let ghost ws = nat_view(members@).map_values(|i: nat| windows@[i as int]);
    let mut found = false;
    let mut kept: Option<(usize, usize, usize)> = None;
    let mut k: usize = 0;
    proof {
        assert(ws.take(0) =~= Seq::<WindowInfo>::empty());
    }
    while k < members.len()
        invariant
            k <= members.len(),
            ws == nat_view(members@).map_values(|i: nat| windows@[i as int]),
            forall|x: int| 0 <= x < members@.len() ==> #[trigger] members@[x] < windows@.len(),
            (found, kept) == pair_fold(ws.take(k as int)),
        decreases members.len() - k,
    {
        proof {
            assert(ws.take(k + 1).drop_last() =~= ws.take(k as int));
            assert(ws[k as int] == windows@[members@[k as int] as int]);
        }
        let w = windows[members[k]];
        if !found {
            match kept {
                Some((f, s0, e0)) => {
                    if f != w.file_idx {
                        found = true;
                    } else if w.start_token >= e0 || w.end_token <= s0 {
                        found = true;
                    } else if w.end_token < e0 {
                        kept = Some((f, w.start_token, w.end_token));
                    }
                },
                None => {
                    if w.start_token >= w.end_token || w.end_token <= w.start_token {
                        found = true;
                    }
                    kept = Some((w.file_idx, w.start_token, w.end_token));
                },
            }
        }
        k = k + 1;
    }
    proof {
        assert(ws.take(ws.len() as int) =~= ws);
    }
    found
}

/// The merged duplicate intervals of every file of `files`, file by file.
pub fn find_duplicate_intervals(files: &Vec<TokenFile>) -> (r: Vec<Vec<TokenInterval>>)
    ensures
        r@.len() == files@.len(),
        forall|f: int| 0 <= f < files@.len() ==> (#[trigger] r@[f])@ == duplicate_intervals(files@, f as nat),
{
    let (windows, keys) = collect_windows(files);
    let ghost ws = windows@;
    let ghost kv = key_views(keys@);
    let (groups, owner) = group_by_key(&keys);
    let ghost firsts = first_indices(kv, keys@.len() as nat);
    // Whether each group holds duplicates.
    let mut qualifies: Vec<bool> = Vec::new();
    let mut g: usize = 0;
    while g < groups.len()
        invariant
            g <= groups@.len(),
            ws == windows@,
            kv == key_views(keys@),
            kv == window_keys(files@, ws),
            kv.len() == ws.len(),
            firsts == first_indices(kv, keys@.len() as nat),
            grouped(kv, keys@.len() as nat, groups_view(groups@)),
            qualifies@.len() == g,
            forall|x: int| 0 <= x < g ==> #[trigger] qualifies@[x] == {
                let same = indices_with_key(kv, ws.len(), kv[firsts[x] as int]);
                same.len() >= 2 && has_pair(same.map_values(|i: nat| ws[i as int]))
            },
        decreases groups.len() - g,
    {
        let members = &groups[g];
        proof {
            assert(groups_view(groups@)[g as int] == members@);
            assert(nat_view(members@) == indices_with_key(kv, keys@.len() as nat, kv[firsts[g as int] as int]));
            assert forall|k: int| 0 <= k < members@.len() implies #[trigger] members@[k] < windows@.len() by {
                assert(nat_view(members@)[k] == members@[k] as nat);
                lemma_indices_below(kv, keys@.len() as nat, kv[firsts[g as int] as int]);
            }
        }
        let q = members.len() >= 2 && has_non_overlapping_pair(&windows, members);
        qualifies.push(q);
        g = g + 1;
    }
    // The duplicate windows of each file, in order.
    let mut per_file: Vec<Vec<TokenInterval>> = Vec::new();
    let mut f: usize = 0;
    while f < files.len()
        invariant
            f <= files.len(),
            per_file@.len() == f,
            forall|x: int| 0 <= x < f ==> (#[trigger] per_file@[x])@ == Seq::<TokenInterval>::empty(),
        decreases files.len() - f,
    {
        per_file.push(Vec::new());
        f = f + 1;
    }
    let mut j: usize = 0;
    while j < windows.len()
        invariant
            j <= windows@.len(),
            ws == windows@,
            kv == key_views(keys@),
            kv == window_keys(files@, ws),
            kv.len() == ws.len(),
            firsts == first_indices(kv, keys@.len() as nat),
            qualifies@.len() == groups@.len(),
            forall|x: int| 0 <= x < groups@.len() ==> #[trigger] qualifies@[x] == {
                let same = indices_with_key(kv, ws.len(), kv[firsts[x] as int]);
                same.len() >= 2 && has_pair(same.map_values(|i: nat| ws[i as int]))
            },
            owner@.len() == keys@.len(),
            forall|x: int| 0 <= x < keys@.len() ==> #[trigger] owner@[x] < groups@.len()
                && kv[firsts[owner@[x] as int] as int] == kv[x],
            forall|x: int| 0 <= x < ws.len() ==> (#[trigger] ws[x]).file_idx < files@.len(),
            per_file@.len() == files@.len(),
            forall|x: int| 0 <= x < files@.len() ==> (#[trigger] per_file@[x])@
                == duplicate_windows_of(files@, ws, x as nat, j as nat),
        decreases windows.len() - j,
    {
        let w = windows[j];
        let q = qualifies[owner[j]];
        proof {
            assert(q == is_duplicate_window(files@, ws, j as int));
        }
        if q {
            per_file[w.file_idx].push(TokenInterval { start_token: w.start_token, end_token: w.end_token });
        }
        proof {
            assert forall|x: int| 0 <= x < files@.len() implies (#[trigger] per_file@[x])@
                == duplicate_windows_of(files@, ws, x as nat, (j + 1) as nat) by {
            }
        }
        j = j + 1;
    }
    // Merge each file's windows.
    let mut result: Vec<Vec<TokenInterval>> = Vec::new();
    let mut f: usize = 0;
    while f < per_file.len()
        invariant
            f <= per_file@.len(),
            per_file@.len() == files@.len(),
            ws == all_windows(files@),
            forall|x: int| 0 <= x < files@.len() ==> (#[trigger] per_file@[x])@
                == duplicate_windows_of(files@, ws, x as nat, ws.len()),
            result@.len() == f,
            forall|x: int| 0 <= x < f ==> (#[trigger] result@[x])@ == duplicate_intervals(files@, x as nat),
        decreases per_file.len() - f,
    {
        let mut ivs = per_file[f].clone();
        merge_token_intervals(&mut ivs);
        result.push(ivs);
        f = f + 1;
    }
    result
}

/// The indices listed for a key are below the bound.
proof fn lemma_indices_below(keys: Seq<Seq<char>>, n: nat, k: Seq<char>)
    ensures
        forall|x: int| 0 <= x < indices_with_key(keys, n, k).len() ==> #[trigger] indices_with_key(keys, n, k)[x] < n,
    decreases n,
{
    if n > 0 {
        lemma_indices_below(keys, (n - 1) as nat, k);
        let prev = indices_with_key(keys, (n - 1) as nat, k);
        assert forall|x: int| 0 <= x < indices_with_key(keys, n, k).len()
            implies #[trigger] indices_with_key(keys, n, k)[x] < n by {
            if x < prev.len() {
                assert(prev[x] < n - 1);
            }
        }
    }
}

/// The lines of the first and last token of `iv` in `t`, if `iv` is a
/// non-empty interval of `t`.
pub open spec fn spec_line_interval(t: Seq<TokenInfo>, iv: TokenInterval) -> Option<(u32, u32)> {
    if iv.start_token >= iv.end_token || iv.end_token > t.len() {
        None
    } else {
        Some((t[iv.start_token as int].line, t[iv.end_token - 1].line))
    }
}

/// The line intervals of the intervals `ivs` of `t` that have one.
pub open spec fn line_intervals(t: Seq<TokenInfo>, ivs: Seq<TokenInterval>) -> Seq<(u32, u32)>
    decreases ivs.len(),
{
    if ivs.len() == 0 {
        Seq::empty()
    } else {
        let prev = line_intervals(t, ivs.drop_last());
        match spec_line_interval(t, ivs.last()) {
            Some(li) => prev.push(li),
            None => prev,
        }
    }
}

/// `s`, sorted by first line, with `x` inserted after every interval that
/// does not start after it.
pub open spec fn insert_by_line(s: Seq<(u32, u32)>, x: (u32, u32)) -> Seq<(u32, u32)>
    decreases s.len(),
{
    if s.len() == 0 {
        seq![x]
    } else if s.last().0 <= x.0 {
        s.push(x)
    } else {
        insert_by_line(s.drop_last(), x).push(s.last())
    }
}

/// `s` sorted by first line, equal ones kept in order.
pub open spec fn sort_by_line(s: Seq<(u32, u32)>) -> Seq<(u32, u32)>
    decreases s.len(),
{
    if s.len() == 0 {
        Seq::empty()
    } else {
        insert_by_line(sort_by_line(s.drop_last()), s.last())
    }
}

/// `b - a + 1` on 32 bits, if it neither goes below zero nor overflows.
pub open spec fn span_count(a: u32, b: u32) -> Option<u32> {
    if b < a || b - a + 1 > u32::MAX { None } else { Some((b - a + 1) as u32) }
}

/// `x + y` on 32 bits, if it does not overflow.
pub open spec fn add_u32(x: u32, y: u32) -> Option<u32> {
    if x + y > u32::MAX { None } else { Some((x + y) as u32) }
}

/// Counting the lines covered by the line intervals `ls`, sorted by first
/// line: the lines of the intervals closed so far and the interval under
/// way.  `None` once a count overflows 32 bits.
pub open spec fn count_fold(ls: Seq<(u32, u32)>) -> Option<(u32, Option<(u32, u32)>)>
    decreases ls.len(),
{
    if ls.len() == 0 {
        Some((0, None))
    } else {
        let (s, e) = ls.last();
        match count_fold(ls.drop_last()) {
            None => None,
            Some((total, cur)) => match cur {
                None => Some((total, Some((s, e)))),
                Some((cs, ce)) => {
                    if ce + 1 > u32::MAX {
                        None
                    } else if s <= ce + 1 {
                        Some((total, Some((cs, if ce >= e { ce } else { e }))))
                    } else {
                        match span_count(cs, ce) {
                            None => None,
                            Some(n) => match add_u32(total, n) {
                                None => None,
                                Some(t) => Some((t, Some((s, e)))),
                            },
                        }
                    }
                },
            },
        }
    }
}

/// The number of lines the line intervals `ls` cover, counting lines
/// shared by touching intervals once; `None` when a count overflows.
pub open spec fn covered_lines(ls: Seq<(u32, u32)>) -> Option<u32> {
    match count_fold(sort_by_line(ls)) {
        None => None,
        Some((total, cur)) => match cur {
            None => Some(total),
            Some((s, e)) => match span_count(s, e) {
                None => None,
                Some(n) => add_u32(total, n),
            },
        },
    }
}

/// The duplicate lines of the files `files` whose merged intervals are
/// `ivs`, over the first `n` files; `None` when a count overflows.
pub open spec fn duplicate_line_total(files: Seq<TokenFile>, ivs: Seq<Seq<TokenInterval>>, n: nat) -> Option<u32>
    decreases n,
{
    if n == 0 {
        Some(0)
    } else {
        match duplicate_line_total(files, ivs, (n - 1) as nat) {
            None => None,
            Some(t) => match covered_lines(line_intervals(files[n - 1].tokens@, ivs[n - 1])) {
                None => None,
                Some(c) => add_u32(t, c),
            },
        }
    }
}

/// The lines of the first and last token of `interval`, if it is a
/// non-empty interval of `file`.
fn line_interval(file: &TokenFile, interval: &TokenInterval) -> (r: Option<(u32, u32)>)
    ensures
        r == spec_line_interval(file.tokens@, *interval),
{
    if interval.start_token >= interval.end_token || interval.end_token > file.tokens.len() {
        return None;
    }
    let start = file.tokens[interval.start_token].line;
    let end = file.tokens[interval.end_token - 1].line;
    Some((start, end))
}

proof fn lemma_insert_line_at(s: Seq<(u32, u32)>, x: (u32, u32), p: int)
    requires
        0 <= p <= s.len(),
        forall|k: int| p <= k < s.len() ==> #[trigger] s[k].0 > x.0,
        p > 0 ==> s[p - 1].0 <= x.0,
    ensures
        insert_by_line(s, x) == s.insert(p, x),
    decreases s.len(),
{
    if s.len() == 0 {
        assert(s.insert(p, x) =~= seq![x]);
    } else if p == s.len() {
        assert(s.insert(p, x) =~= s.push(x));
    } else {
        lemma_insert_line_at(s.drop_last(), x, p);
        assert(s.drop_last().insert(p, x).push(s.last()) =~= s.insert(p, x));
    }
}

/// The lines the intervals `intervals` of `file` cover; `None` when a
/// count overflows 32 bits.
fn file_duplicate_lines(file: &TokenFile, intervals: &Vec<TokenInterval>) -> (r: Option<u32>)
    ensures
        r == covered_lines(line_intervals(file.tokens@, intervals@)),
{
    let ghost all = line_intervals(file.tokens@, intervals@);
    // The line intervals, sorted by first line.
    let mut sorted: Vec<(u32, u32)> = Vec::new();
    let mut i: usize = 0;
    proof {
        assert(intervals@.take(0) =~= Seq::<TokenInterval>::empty());
    }
    while i < intervals.len()
        invariant
            i <= intervals.len(),
            all == line_intervals(file.tokens@, intervals@),
            sorted@ == sort_by_line(line_intervals(file.tokens@, intervals@.take(i as int))),
        decreases intervals.len() - i,
    {
        let ghost prev = line_intervals(file.tokens@, intervals@.take(i as int));
        proof {
            assert(intervals@.take(i + 1).drop_last() =~= intervals@.take(i as int));
            assert(intervals@.take(i + 1).last() == intervals@[i as int]);
        }
        match line_interval(file, &intervals[i]) {
            Some(x) => {
                proof {
                    assert(prev.push(x).drop_last() =~= prev);
                }
                let mut p: usize = sorted.len();
                while p > 0 && sorted[p - 1].0 > x.0
                    invariant
                        p <= sorted@.len(),
                        forall|k: int| p <= k < sorted@.len() ==> #[trigger] sorted@[k].0 > x.0,
                    decreases p,
                {
                    p = p - 1;
                }
                proof {
                    lemma_insert_line_at(sorted@, x, p as int);
                }
                sorted.insert(p, x);
            },
            None => {},
        }
        i = i + 1;
    }
    proof {
        assert(intervals@.take(intervals@.len() as int) =~= intervals@);
    }
    let mut total: u32 = 0;
    let mut current: Option<(u32, u32)> = None;
    let mut k: usize = 0;
    proof {
        assert(sorted@.take(0) =~= Seq::<(u32, u32)>::empty());
    }
    while k < sorted.len()
        invariant
            k <= sorted.len(),
            all == line_intervals(file.tokens@, intervals@),
            sorted@ == sort_by_line(all),
            count_fold(sorted@.take(k as int)) == Some((total, current)),
        decreases sorted.len() - k,
    {
        let (start, end) = sorted[k];
        proof {
            assert(sorted@.take(k + 1).drop_last() =~= sorted@.take(k as int));
            assert(sorted@.take(k + 1).last() == (start, end));
            assert(sorted@.take(sorted@.len() as int) =~= sorted@);
        }
        match current {
            None => {
                current = Some((start, end));
            },
            Some((cs, ce)) => {
                if ce == u32::MAX {
                    proof {
                        assert(count_fold(sorted@.take(k + 1)) is None);
                        lemma_count_stays_none(sorted@, k + 1, sorted@.len() as int);
                    }
                    return None;
                }
                if start <= ce + 1 {
                    current = Some((cs, if ce >= end { ce } else { end }));
                } else {
                    if ce < cs || ce - cs == u32::MAX {
                        proof {
                            assert(count_fold(sorted@.take(k + 1)) is None);
                            lemma_count_stays_none(sorted@, k + 1, sorted@.len() as int);
                        }
                        return None;
                    }
                    let n = ce - cs + 1;
                    match total.checked_add(n) {
                        None => {
                            proof {
                                assert(count_fold(sorted@.take(k + 1)) is None);
                                lemma_count_stays_none(sorted@, k + 1, sorted@.len() as int);
                            }
                            return None;
                        },
                        Some(t) => {
                            total = t;
                        },
                    }
                    current = Some((start, end));
                }
            },
        }
        k = k + 1;
    }
    proof {
        assert(sorted@.take(sorted@.len() as int) =~= sorted@);
    }
    match current {
        None => Some(total),
        Some((s, e)) => {
            if e < s || e - s == u32::MAX {
                return None;
            }
            total.checked_add(e - s + 1)
        },
    }
}

/// The lines covered by the duplicate intervals `intervals_by_file` of the
/// files `files` (the intervals of the `i`-th file at index `i`), summed
/// over the interval lists; a file with no list has none.  `None` when a
/// count overflows 32 bits.
pub fn count_duplicate_lines(files: &Vec<TokenFile>, intervals_by_file: &Vec<Vec<TokenInterval>>) -> (r: Option<u32>)
    requires
        intervals_by_file@.len() <= files@.len(),
    ensures
        r == duplicate_line_total(files@, intervals_by_file@.map_values(|v: Vec<TokenInterval>| v@), intervals_by_file@.len()),
{
    let ghost ivs = intervals_by_file@.map_values(|v: Vec<TokenInterval>| v@);
    let mut total: u32 = 0;
    let mut f: usize = 0;
    while f < intervals_by_file.len()
        invariant
            f <= intervals_by_file.len(),
            intervals_by_file@.len() <= files@.len(),
            ivs == intervals_by_file@.map_values(|v: Vec<TokenInterval>| v@),
            duplicate_line_total(files@, ivs, f as nat) == Some(total),
        decreases files.len() - f,
    {
        proof {
            assert(ivs[f as int] == intervals_by_file@[f as int]@);
        }
        match file_duplicate_lines(&files[f], &intervals_by_file[f]) {
            None => {
                proof {
                    lemma_line_total_stays_none(files@, ivs, (f + 1) as nat, intervals_by_file@.len());
                }
                return None;
            },
            Some(c) => match total.checked_add(c) {
                None => {
                    proof {
                        lemma_line_total_stays_none(files@, ivs, (f + 1) as nat, intervals_by_file@.len());
                    }
                    return None;
                },
                Some(t) => {
                    total = t;
                },
            },
        }
        f = f + 1;
    }
    Some(total)
}

/// Once the count overflows, it stays overflowed.
proof fn lemma_count_stays_none(ls: Seq<(u32, u32)>, m: int, n: int)
    requires
        0 <= m <= n <= ls.len(),
        count_fold(ls.take(m)) is None,
    ensures
        count_fold(ls.take(n)) is None,
    decreases n - m,
{
    if m < n {
        lemma_count_stays_none(ls, m, n - 1);
        assert(ls.take(n).drop_last() =~= ls.take(n - 1));
    }
}

/// Once the total overflows, it stays overflowed.
proof fn lemma_line_total_stays_none(files: Seq<TokenFile>, ivs: Seq<Seq<TokenInterval>>, m: nat, n: nat)
    requires
        m <= n,
        duplicate_line_total(files, ivs, m) is None,
    ensures
        duplicate_line_total(files, ivs, n) is None,
    decreases n - m,
{
    if m < n {
        lemma_line_total_stays_none(files, ivs, m, (n - 1) as nat);
    }
}

/// An interval of a file that belongs to a duplicate block: its file, its
/// tokens, its lines and its number of lines.
pub ghost struct BlockItem {
    pub file: nat,
    pub interval: TokenInterval,
    pub start_line: u32,
    pub end_line: u32,
    pub lines: u32,
}

/// The block items among the intervals `ivs` of file `f` (tokens `t`):
/// those with a line interval of at least `MIN_DUPLICATE_LINES` lines, in
/// order.  `None` when a line count overflows 32 bits.
pub open spec fn file_block_items(f: nat, t: Seq<TokenInfo>, ivs: Seq<TokenInterval>) -> Option<Seq<BlockItem>>
    decreases ivs.len(),
{
    if ivs.len() == 0 {
        Some(Seq::empty())
    } else {
        match file_block_items(f, t, ivs.drop_last()) {
            None => None,
            Some(prev) => match spec_line_interval(t, ivs.last()) {
                None => Some(prev),
                Some((s, e)) => {
                    let n = sat_sub(e, s) + 1;
                    if n > u32::MAX {
                        None
                    } else if n < MIN_DUPLICATE_LINES {
                        Some(prev)
                    } else {
                        Some(prev.push(BlockItem { file: f, interval: ivs.last(), start_line: s, end_line: e, lines: n as u32 }))
                    }
                },
            },
        }
    }
}

/// The block items of the first `n` files, file after file.
pub open spec fn block_items(files: Seq<TokenFile>, ivs: Seq<Seq<TokenInterval>>, n: nat) -> Option<Seq<BlockItem>>
    decreases n,
{
    if n == 0 {
        Some(Seq::empty())
    } else {
        match block_items(files, ivs, (n - 1) as nat) {
            None => None,
            Some(prev) => match file_block_items((n - 1) as nat, files[n - 1].tokens@, ivs[n - 1]) {
                None => None,
                Some(more) => Some(prev + more),
            },
        }
    }
}

/// The key of block item `x` of `files`.
pub open spec fn item_key(files: Seq<TokenFile>, x: BlockItem) -> Seq<char> {
    tokens_key(files[x.file as int].tokens@.subrange(x.interval.start_token as int, x.interval.end_token as int))
}

/// A duplicate block: its lines and tokens, and where it occurs (file,
/// first line, last line).
pub ghost struct BlockSpec {
    pub lines: u32,
    pub tokens: u32,
    pub occurrences: Seq<(Seq<char>, u32, u32)>,
}

/// The block of the items `members` (indices into `items`): lines and
/// tokens of the last of them, and where each occurs.
pub open spec fn block_of(files: Seq<TokenFile>, items: Seq<BlockItem>, members: Seq<nat>) -> BlockSpec {
    let last = items[members.last() as int];
    BlockSpec {
        lines: last.lines,
        tokens: (last.interval.end_token - last.interval.start_token) as u32,
        occurrences: members.map_values(|i: nat| {
            let x = items[i as int];
            (files[x.file as int].path@, x.start_line, x.end_line)
        }),
    }
}

/// The blocks of the items, one per key shared by at least two items, in
/// the order the keys first appear, over the first `g` keys.
pub open spec fn blocks_in_order(files: Seq<TokenFile>, items: Seq<BlockItem>, g: nat) -> Seq<BlockSpec>
    decreases g,
{
    if g == 0 {
        Seq::empty()
    } else {
        let keys = items.map_values(|x: BlockItem| item_key(files, x));
        let firsts = first_indices(keys, items.len());
        let prev = blocks_in_order(files, items, (g - 1) as nat);
        let members = indices_with_key(keys, items.len(), keys[firsts[g - 1] as int]);
        if members.len() >= 2 { prev.push(block_of(files, items, members)) } else { prev }
    }
}

/// Block `a` comes no later than block `b`: it has more lines, or as many
/// lines and at least as many occurrences.
pub open spec fn block_not_after(a: BlockSpec, b: BlockSpec) -> bool {
    a.lines > b.lines || (a.lines == b.lines && a.occurrences.len() >= b.occurrences.len())
}

/// `s`, sorted, with `x` inserted after every block that does not come
/// after it.
pub open spec fn insert_block(s: Seq<BlockSpec>, x: BlockSpec) -> Seq<BlockSpec>
    decreases s.len(),
{
    if s.len() == 0 {
        seq![x]
    } else if block_not_after(s.last(), x) {
        s.push(x)
    } else {
        insert_block(s.drop_last(), x).push(s.last())
    }
}

/// `s` sorted by lines, then occurrences, both decreasing; ties kept in
/// order.
pub open spec fn sort_blocks(s: Seq<BlockSpec>) -> Seq<BlockSpec>
    decreases s.len(),
{
    if s.len() == 0 {
        Seq::empty()
    } else {
        insert_block(sort_blocks(s.drop_last()), s.last())
    }
}

/// The duplicate blocks of `files` with merged intervals `ivs`, sorted,
/// and how many blocks beyond the cap were left out; `None` when a line
/// count overflows 32 bits.
pub open spec fn duplicate_blocks(files: Seq<TokenFile>, ivs: Seq<Seq<TokenInterval>>) -> Option<(Seq<BlockSpec>, u32)> {
    match block_items(files, ivs, files.len()) {
        None => None,
        Some(items) => {
            let keys = items.map_values(|x: BlockItem| item_key(files, x));
            let all = sort_blocks(blocks_in_order(files, items, first_indices(keys, items.len()).len()));
            let kept = if all.len() > DUPLICATE_BLOCK_DETAIL_CAP { all.take(DUPLICATE_BLOCK_DETAIL_CAP as int) } else { all };
            let omitted = if all.len() > DUPLICATE_BLOCK_DETAIL_CAP { (all.len() - DUPLICATE_BLOCK_DETAIL_CAP) as u32 } else { 0u32 };
            Some((kept, omitted))
        },
    }
}

/// A block item as the collector holds it.
#[derive(Clone, Copy)]
struct ItemExec {
    file: usize,
    interval: TokenInterval,
    start_line: u32,
    end_line: u32,
    lines: u32,
}

spec fn item_view(x: ItemExec) -> BlockItem {
    BlockItem { file: x.file as nat, interval: x.interval, start_line: x.start_line, end_line: x.end_line, lines: x.lines }
}

spec fn items_view(xs: Seq<ItemExec>) -> Seq<BlockItem> {
    xs.map_values(|x: ItemExec| item_view(x))
}

proof fn lemma_block_items_none(files: Seq<TokenFile>, ivs: Seq<Seq<TokenInterval>>, m: nat, n: nat)
    requires
        m <= n,
        block_items(files, ivs, m) is None,
    ensures
        block_items(files, ivs, n) is None,
    decreases n - m,
{
    if m < n {
        lemma_block_items_none(files, ivs, m, (n - 1) as nat);
    }
}

proof fn lemma_file_items_none(f: nat, t: Seq<TokenInfo>, ivs: Seq<TokenInterval>, m: int, n: int)
    requires
        0 <= m <= n <= ivs.len(),
        file_block_items(f, t, ivs.take(m)) is None,
    ensures
        file_block_items(f, t, ivs.take(n)) is None,
    decreases n - m,
{
    if m < n {
        lemma_file_items_none(f, t, ivs, m, n - 1);
        assert(ivs.take(n).drop_last() =~= ivs.take(n - 1));
    }
}

/// The block items of the files, with their keys; `None` when a line count
/// overflows 32 bits.
fn collect_block_items(files: &Vec<TokenFile>, intervals_by_file: &Vec<Vec<TokenInterval>>) -> (r: Option<(Vec<ItemExec>, Vec<Vec<char>>)>)
    requires
        intervals_by_file@.len() == files@.len(),
    ensures
        match block_items(files@, intervals_by_file@.map_values(|v: Vec<TokenInterval>| v@), files@.len()) {
            None => r is None,
            Some(items) => r matches Some((xs, keys)) && items_view(xs@) == items
                && key_views(keys@) == items.map_values(|x: BlockItem| item_key(files@, x))
                && forall|i: int| 0 <= i < xs@.len() ==> (#[trigger] xs@[i]).file < files@.len()
                    && xs@[i].interval.start_token < xs@[i].interval.end_token,
        },
{
    let ghost ivs = intervals_by_file@.map_values(|v: Vec<TokenInterval>| v@);
    let mut items: Vec<ItemExec> = Vec::new();
    let mut keys: Vec<Vec<char>> = Vec::new();
    let mut f: usize = 0;
    proof {
        assert(items_view(items@) =~= Seq::<BlockItem>::empty());
        assert(key_views(keys@) =~= Seq::<Seq<char>>::empty());
    }
    while f < files.len()
        invariant
            f <= files.len(),
            intervals_by_file@.len() == files@.len(),
            ivs == intervals_by_file@.map_values(|v: Vec<TokenInterval>| v@),
            block_items(files@, ivs, f as nat) == Some(items_view(items@)),
            key_views(keys@) == items_view(items@).map_values(|x: BlockItem| item_key(files@, x)),
            forall|i: int| 0 <= i < items@.len() ==> (#[trigger] items@[i]).file < f
                && items@[i].interval.start_token < items@[i].interval.end_token,
        decreases files.len() - f,
    {
        let file = &files[f];
        let ivs_f = &intervals_by_file[f];
        proof {
            assert(ivs[f as int] == ivs_f@);
        }
        let ghost start_items = items_view(items@);
        let mut k: usize = 0;
        proof {
            assert(ivs_f@.take(0) =~= Seq::<TokenInterval>::empty());
            assert(start_items + Seq::<BlockItem>::empty() =~= start_items);
        }
        while k < ivs_f.len()
            invariant
                f < files.len(),
                file == &files@[f as int],
                k <= ivs_f@.len(),
                intervals_by_file@.len() == files@.len(),
                ivs == intervals_by_file@.map_values(|v: Vec<TokenInterval>| v@),
                ivs[f as int] == ivs_f@,
                block_items(files@, ivs, f as nat) == Some(start_items),
                file_block_items(f as nat, file.tokens@, ivs_f@.take(k as int)) matches Some(more)
                    && items_view(items@) == start_items + more,
                key_views(keys@) == items_view(items@).map_values(|x: BlockItem| item_key(files@, x)),
                forall|i: int| 0 <= i < items@.len() ==> (#[trigger] items@[i]).file <= f
                    && items@[i].interval.start_token < items@[i].interval.end_token,
            decreases ivs_f.len() - k,
        {
            let iv = ivs_f[k];
            let ghost prev_more = file_block_items(f as nat, file.tokens@, ivs_f@.take(k as int))->Some_0;
            proof {
                assert(ivs_f@.take(k + 1).drop_last() =~= ivs_f@.take(k as int));
                assert(ivs_f@.take(k + 1).last() == iv);
            }
            match line_interval(file, &iv) {
                None => {},
                Some((s, e)) => {
                    let span = e.saturating_sub(s);
                    if span == u32::MAX {
                        proof {
                            lemma_file_items_none(f as nat, file.tokens@, ivs_f@, k + 1, ivs_f@.len() as int);
                            assert(ivs_f@.take(ivs_f@.len() as int) =~= ivs_f@);
                            lemma_block_items_none(files@, ivs, (f + 1) as nat, files@.len());
                        }
                        return None;
                    }
                    let n = span + 1;
                    if n >= MIN_DUPLICATE_LINES {
                        let x = ItemExec { file: f, interval: iv, start_line: s, end_line: e, lines: n };
                        let key = token_key(&file.tokens, iv.start_token, iv.end_token);
                        let ghost old_items = items@;
                        let ghost old_keys = keys@;
                        items.push(x);
                        keys.push(key);
                        proof {
                            assert(items_view(items@) =~= items_view(old_items).push(item_view(x)));
                            assert(key_views(keys@) =~= key_views(old_keys).push(key@));
                            assert(items_view(items@).map_values(|y: BlockItem| item_key(files@, y))
                                =~= items_view(old_items).map_values(|y: BlockItem| item_key(files@, y)).push(item_key(files@, item_view(x))));
                            assert(start_items + prev_more.push(item_view(x)) =~= (start_items + prev_more).push(item_view(x)));
                        }
                    }
                },
            }
            k = k + 1;
        }
        proof {
            assert(ivs_f@.take(ivs_f@.len() as int) =~= ivs_f@);
        }
        f = f + 1;
    }
    Some((items, keys))
}

/// A duplicate block as the collector holds it.
struct BlockExec {
    lines: u32,
    tokens: u32,
    occurrences: Vec<(String, u32, u32)>,
}

spec fn block_view(b: BlockExec) -> BlockSpec {
    BlockSpec {
        lines: b.lines,
        tokens: b.tokens,
        occurrences: b.occurrences@.map_values(|o: (String, u32, u32)| (o.0@, o.1, o.2)),
    }
}

spec fn blocks_view(bs: Seq<BlockExec>) -> Seq<BlockSpec> {
    bs.map_values(|b: BlockExec| block_view(b))
}

proof fn lemma_insert_block_at(s: Seq<BlockSpec>, x: BlockSpec, p: int)
    requires
        0 <= p <= s.len(),
        forall|k: int| p <= k < s.len() ==> !block_not_after(#[trigger] s[k], x),
        p > 0 ==> block_not_after(s[p - 1], x),
    ensures
        insert_block(s, x) == s.insert(p, x),
    decreases s.len(),
{
    if s.len() == 0 {
        assert(s.insert(p, x) =~= seq![x]);
    } else if p == s.len() {
        assert(s.insert(p, x) =~= s.push(x));
    } else {
        lemma_insert_block_at(s.drop_last(), x, p);
        assert(s.drop_last().insert(p, x).push(s.last()) =~= s.insert(p, x));
    }
}

/// The duplicate blocks of the files, sorted by lines and occurrences (both
/// decreasing), cut to `DUPLICATE_BLOCK_DETAIL_CAP`, and how many were cut;
/// `None` when a line count overflows 32 bits.
fn build_duplicate_blocks(files: &Vec<TokenFile>, intervals_by_file: &Vec<Vec<TokenInterval>>) -> (r: Option<(Vec<BlockExec>, u32)>)
    requires
        intervals_by_file@.len() == files@.len(),
    ensures
        match duplicate_blocks(files@, intervals_by_file@.map_values(|v: Vec<TokenInterval>| v@)) {
            None => r is None,
            Some((kept, omitted)) => r matches Some((bs, o)) && blocks_view(bs@) == kept && o == omitted,
        },
{
    let ghost ivs = intervals_by_file@.map_values(|v: Vec<TokenInterval>| v@);
    let (items, keys) = match collect_block_items(files, intervals_by_file) {
        None => {
            return None;
        },
        Some(x) => x,
    };
    let ghost iv = items_view(items@);
    let ghost kv = key_views(keys@);
    let (groups, _owner) = group_by_key(&keys);
    let ghost firsts = first_indices(kv, keys@.len() as nat);
    proof {
        assert(kv.len() == iv.len());
    }
    let mut blocks: Vec<BlockExec> = Vec::new();
    let mut g: usize = 0;
    proof {
        assert(blocks_view(blocks@) =~= Seq::<BlockSpec>::empty());
    }
    while g < groups.len()
        invariant
            g <= groups@.len(),
            iv == items_view(items@),
            kv == key_views(keys@),
            kv == iv.map_values(|x: BlockItem| item_key(files@, x)),
            kv.len() == iv.len(),
            firsts == first_indices(kv, keys@.len() as nat),
            grouped(kv, keys@.len() as nat, groups_view(groups@)),
            forall|i: int| 0 <= i < items@.len() ==> (#[trigger] items@[i]).file < files@.len()
                && items@[i].interval.start_token < items@[i].interval.end_token,
            blocks_view(blocks@) == blocks_in_order(files@, iv, g as nat),
        decreases groups.len() - g,
    {
        let members = &groups[g];
        proof {
            assert(groups_view(groups@)[g as int] == members@);
            assert(nat_view(members@) == indices_with_key(kv, keys@.len() as nat, kv[firsts[g as int] as int]));
            lemma_indices_below(kv, keys@.len() as nat, kv[firsts[g as int] as int]);
            assert forall|k: int| 0 <= k < members@.len() implies #[trigger] members@[k] < items@.len() by {
                assert(nat_view(members@)[k] == members@[k] as nat);
            }
        }
        if members.len() >= 2 {
            let last = items[members[members.len() - 1]];
            let mut occurrences: Vec<(String, u32, u32)> = Vec::new();
            let mut k: usize = 0;
            while k < members.len()
                invariant
                    k <= members@.len(),
                    forall|x: int| 0 <= x < members@.len() ==> #[trigger] members@[x] < items@.len(),
                    forall|i: int| 0 <= i < items@.len() ==> (#[trigger] items@[i]).file < files@.len(),
                    occurrences@.len() == k,
                    forall|x: int| 0 <= x < k ==> {
                        let it = items@[members@[x] as int];
                        (#[trigger] occurrences@[x]).0@ == files@[it.file as int].path@
                            && occurrences@[x].1 == it.start_line && occurrences@[x].2 == it.end_line
                    },
                decreases members.len() - k,
            {
                let it = items[members[k]];
                occurrences.push((files[it.file].path.clone(), it.start_line, it.end_line));
                k = k + 1;
            }
            let b = BlockExec {
                lines: last.lines,
                tokens: (last.interval.end_token - last.interval.start_token) as u32,
                occurrences,
            };
            let ghost old_blocks = blocks@;
            blocks.push(b);
            proof {
                let m = nat_view(members@);
                assert(m.last() == members@[members@.len() - 1] as nat);
                assert(block_view(b).occurrences =~= block_of(files@, iv, m).occurrences);
                assert(block_view(b) == block_of(files@, iv, m));
                assert(blocks_view(blocks@) =~= blocks_view(old_blocks).push(block_view(b)));
            }
        }
        g = g + 1;
    }
    // Sort: more lines first, then more occurrences; ties keep their order.
    let ghost unsorted = blocks_view(blocks@);
    let mut sorted: Vec<BlockExec> = Vec::new();
    proof {
        assert(unsorted.take(0) =~= Seq::<BlockSpec>::empty());
        assert(blocks_view(sorted@) =~= Seq::<BlockSpec>::empty());
    }
    let mut rest = blocks;
    let mut taken: usize = 0;
    let total = rest.len();
    proof {
        assert(unsorted.len() == total);
        assert(blocks_view(rest@) =~= unsorted.subrange(0, total as int));
    }
    while rest.len() > 0
        invariant
            taken + rest@.len() == total,
            unsorted.len() == total,
            blocks_view(rest@) == unsorted.subrange(taken as int, total as int),
            blocks_view(sorted@) == sort_blocks(unsorted.take(taken as int)),
        decreases rest.len(),
    {
        let ghost before = rest@;
        let x = rest.remove(0);
        proof {
            assert(blocks_view(before)[0] == block_view(x));
            assert(block_view(x) == unsorted[taken as int]);
            assert forall|k: int| 0 <= k < rest@.len() implies blocks_view(rest@)[k] == unsorted.subrange(taken + 1, total as int)[k] by {
                assert(rest@[k] == before[k + 1]);
                assert(blocks_view(before)[k + 1] == unsorted.subrange(taken as int, total as int)[k + 1]);
            }
            assert(blocks_view(rest@) =~= unsorted.subrange(taken + 1, total as int));
            assert(unsorted.take(taken + 1).drop_last() =~= unsorted.take(taken as int));
        }
        let mut p: usize = sorted.len();
        while p > 0 && !(sorted[p - 1].lines > x.lines
            || (sorted[p - 1].lines == x.lines && sorted[p - 1].occurrences.len() >= x.occurrences.len()))
            invariant
                p <= sorted@.len(),
                forall|k: int| p <= k < sorted@.len() ==> !block_not_after(#[trigger] blocks_view(sorted@)[k], block_view(x)),
            decreases p,
        {
            p = p - 1;
        }
        proof {
            lemma_insert_block_at(blocks_view(sorted@), block_view(x), p as int);
        }
        let ghost old_sorted = sorted@;
        sorted.insert(p, x);
        proof {
            assert(blocks_view(sorted@) =~= blocks_view(old_sorted).insert(p as int, block_view(x)));
        }
        taken = taken + 1;
    }
    proof {
        assert(unsorted.take(total as int) =~= unsorted);
    }
    let n = sorted.len();
    let omitted: u32 = if n > DUPLICATE_BLOCK_DETAIL_CAP { (n - DUPLICATE_BLOCK_DETAIL_CAP) as u32 } else { 0 };
    let ghost full = sorted@;
    sorted.truncate(DUPLICATE_BLOCK_DETAIL_CAP);
    proof {
        if n > DUPLICATE_BLOCK_DETAIL_CAP {
            assert(blocks_view(sorted@) =~= blocks_view(full).take(DUPLICATE_BLOCK_DETAIL_CAP as int));
        } else {
            assert(sorted@ =~= full);
        }
    }
    Some((sorted, omitted))
}

/// The sum of the line counts of the first `n` files; `None` when it
/// overflows 32 bits.
pub open spec fn total_line_sum(files: Seq<TokenFile>, n: nat) -> Option<u32>
    decreases n,
{
    if n == 0 {
        Some(0)
    } else {
        match total_line_sum(files, (n - 1) as nat) {
            None => None,
            Some(t) => add_u32(t, files[n - 1].total_lines),
        }
    }
}

/// The paths of the first `n` files that hold duplicate intervals.
pub open spec fn duplicate_files(files: Seq<TokenFile>, ivs: Seq<Seq<TokenInterval>>, n: nat) -> Seq<Seq<char>>
    decreases n,
{
    if n == 0 {
        Seq::empty()
    } else {
        let prev = duplicate_files(files, ivs, (n - 1) as nat);
        if ivs[n - 1].len() > 0 { prev.push(files[n - 1].path@) } else { prev }
    }
}

/// What the collector reports over the files.
pub ghost struct DuplicatesReport {
    pub total_lines: u32,
    pub duplicate_lines: u32,
    pub duplicate_files: Seq<Seq<char>>,
    pub blocks: Seq<BlockSpec>,
    pub blocks_omitted: u32,
}

/// The merged duplicate intervals of every file.
pub open spec fn all_duplicate_intervals(files: Seq<TokenFile>) -> Seq<Seq<TokenInterval>> {
    Seq::new(files.len(), |f: int| duplicate_intervals(files, f as nat))
}

/// The collector's status: `Fail` when some line is duplicated.
pub open spec fn duplicates_status(r: DuplicatesReport) -> CollectorStatus {
    if r.duplicate_lines > 0 { CollectorStatus::Fail } else { CollectorStatus::Pass }
}

/// What the collector reports over `files`; `None` when a count overflows
/// 32 bits.
pub open spec fn duplicates_report(files: Seq<TokenFile>) -> Option<DuplicatesReport> {
    let ivs = all_duplicate_intervals(files);
    match total_line_sum(files, files.len()) {
        None => None,
        Some(total) => match duplicate_line_total(files, ivs, files.len()) {
            None => None,
            Some(dup) => match duplicate_blocks(files, ivs) {
                None => None,
                Some((blocks, omitted)) => Some(DuplicatesReport {
                    total_lines: total,
                    duplicate_lines: dup,
                    duplicate_files: duplicate_files(files, ivs, files.len()),
                    blocks,
                    blocks_omitted: omitted,
                }),
            },
        },
    }
}

/// `j` is the JSON object of an occurrence.
pub open spec fn occurrence_json(j: Json, o: (Seq<char>, u32, u32)) -> bool {
    j matches Json::Object(e) && e@.len() == 3
        && e@[0].0@ == "endLine"@ && e@[0].1 == Json::UInt(o.2 as u64)
        && e@[1].0@ == "file"@ && str_is(e@[1].1, o.0)
        && e@[2].0@ == "startLine"@ && e@[2].1 == Json::UInt(o.1 as u64)
}

/// `j` is the JSON object of block `b`.
pub open spec fn block_json(j: Json, b: BlockSpec) -> bool {
    j matches Json::Object(e) && e@.len() == 3
        && e@[0].0@ == "lines"@ && e@[0].1 == Json::UInt(b.lines as u64)
        && e@[1].0@ == "occurrences"@ && (e@[1].1 matches Json::Array(a) && a@.len() == b.occurrences.len()
            && forall|i: int| 0 <= i < a@.len() ==> occurrence_json(#[trigger] a@[i], b.occurrences[i]))
        && e@[2].0@ == "tokens"@ && e@[2].1 == Json::UInt(b.tokens as u64)
}

/// `j` is the details object of report `r` (members in key order).
pub open spec fn duplicates_details_json(j: Json, r: DuplicatesReport) -> bool {
    j matches Json::Object(e) && e@.len() == 6
        && e@[0].0@ == "duplicateBlocks"@ && (e@[0].1 matches Json::Array(a) && a@.len() == r.blocks.len()
            && forall|i: int| 0 <= i < a@.len() ==> block_json(#[trigger] a@[i], r.blocks[i]))
        && e@[1].0@ == "duplicateBlocksOmitted"@ && e@[1].1 == Json::UInt(r.blocks_omitted as u64)
        && e@[2].0@ == "duplicateFiles"@ && str_array_is(e@[2].1, r.duplicate_files)
        && e@[3].0@ == "duplicateLines"@ && e@[3].1 == Json::UInt(r.duplicate_lines as u64)
        && e@[4].0@ == "filesWithDuplicates"@ && e@[4].1 == Json::UInt((r.duplicate_files.len() as u32) as u64)
        && e@[5].0@ == "totalLines"@ && e@[5].1 == Json::UInt(r.total_lines as u64)
}

fn block_to_json(b: &BlockExec) -> (j: Json)
    ensures
        block_json(j, block_view(*b)),
{
    let mut occs: Vec<Json> = Vec::new();
    let mut i: usize = 0;
    while i < b.occurrences.len()
        invariant
            i <= b.occurrences@.len(),
            occs@.len() == i,
            forall|k: int| 0 <= k < i ==> occurrence_json(#[trigger] occs@[k], block_view(*b).occurrences[k]),
        decreases b.occurrences.len() - i,
    {
        let o = &b.occurrences[i];
        occs.push(Json::Object(vec![
            ("endLine".to_string(), Json::UInt(o.2 as u64)),
            ("file".to_string(), Json::Str(o.0.clone())),
            ("startLine".to_string(), Json::UInt(o.1 as u64)),
        ]));
        i = i + 1;
    }
    Json::Object(vec![
        ("lines".to_string(), Json::UInt(b.lines as u64)),
        ("occurrences".to_string(), Json::Array(occs)),
        ("tokens".to_string(), Json::UInt(b.tokens as u64)),
    ])
}

// ------------------------------------------------------------------------------------------------
// Duplicate lines never outnumber the lines read
// ------------------------------------------------------------------------------------------------

/// Every line interval of `ls` lies within lines `1..=t`.
pub open spec fn intervals_within(ls: Seq<(u32, u32)>, t: nat) -> bool {
    forall|i: int| 0 <= i < ls.len() ==> 1 <= (#[trigger] ls[i]).0 && ls[i].1 <= t
}

/// Every token of the file lies on one of its lines.
pub open spec fn tokens_within_lines(f: TokenFile) -> bool {
    forall|i: int| 0 <= i < f.tokens@.len() ==> 1 <= (#[trigger] f.tokens@[i]).line <= f.total_lines
}

proof fn lemma_insert_within(s: Seq<(u32, u32)>, x: (u32, u32), t: nat)
    requires
        intervals_within(s, t),
        1 <= x.0 && x.1 <= t,
    ensures
        intervals_within(insert_by_line(s, x), t),
    decreases s.len(),
{
    if s.len() > 0 && s.last().0 > x.0 {
        lemma_insert_within(s.drop_last(), x, t);
        let r = insert_by_line(s.drop_last(), x);
        assert forall|i: int| 0 <= i < r.push(s.last()).len() implies 1 <= (#[trigger] r.push(s.last())[i]).0
            && r.push(s.last())[i].1 <= t by {
            if i < r.len() {
                assert(r.push(s.last())[i] == r[i]);
            }
        }
    }
}

proof fn lemma_sort_within(s: Seq<(u32, u32)>, t: nat)
    requires
        intervals_within(s, t),
    ensures
        intervals_within(sort_by_line(s), t),
    decreases s.len(),
{
    if s.len() > 0 {
        lemma_sort_within(s.drop_last(), t);
        lemma_insert_within(sort_by_line(s.drop_last()), s.last(), t);
    }
}

/// While counting intervals within lines `1..=t`, the lines counted so far
/// lie before the interval under way, which ends by line `t`.
proof fn lemma_count_fold_bound(ls: Seq<(u32, u32)>, t: nat)
    requires
        intervals_within(ls, t),
    ensures
        count_fold(ls) matches Some((total, cur)) ==> match cur {
            None => total == 0,
            Some((cs, ce)) => total + 1 <= cs && ce <= t,
        },
    decreases ls.len(),
{
    if ls.len() > 0 {
        lemma_count_fold_bound(ls.drop_last(), t);
    }
}

/// The lines the intervals cover never outnumber the lines they lie within.
proof fn lemma_covered_within(ls: Seq<(u32, u32)>, t: nat)
    requires
        intervals_within(ls, t),
    ensures
        covered_lines(ls) matches Some(c) ==> c <= t,
{
    lemma_sort_within(ls, t);
    lemma_count_fold_bound(sort_by_line(ls), t);
}

proof fn lemma_line_intervals_within(f: TokenFile, ivs: Seq<TokenInterval>)
    requires
        tokens_within_lines(f),
    ensures
        intervals_within(line_intervals(f.tokens@, ivs), f.total_lines as nat),
    decreases ivs.len(),
{
    if ivs.len() > 0 {
        lemma_line_intervals_within(f, ivs.drop_last());
        let t = f.tokens@;
        let prev = line_intervals(t, ivs.drop_last());
        match spec_line_interval(t, ivs.last()) {
            Some(li) => {
                assert(t[ivs.last().start_token as int].line >= 1);
                assert(t[ivs.last().end_token - 1].line <= f.total_lines);
                assert forall|i: int| 0 <= i < prev.push(li).len() implies 1 <= (#[trigger] prev.push(li)[i]).0
                    && prev.push(li)[i].1 <= f.total_lines by {
                    if i < prev.len() {
                        assert(prev.push(li)[i] == prev[i]);
                    }
                }
            },
            None => {},
        }
    }
}

proof fn lemma_duplicate_total_within(files: Seq<TokenFile>, ivs: Seq<Seq<TokenInterval>>, n: nat)
    requires
        n <= files.len(),
        n <= ivs.len(),
        forall|f: int| 0 <= f < files.len() ==> tokens_within_lines(#[trigger] files[f]),
    ensures
        (duplicate_line_total(files, ivs, n), total_line_sum(files, n)) matches (Some(d), Some(t)) ==> d <= t,
    decreases n,
{
    if n > 0 {
        lemma_duplicate_total_within(files, ivs, (n - 1) as nat);
        lemma_line_intervals_within(files[n - 1], ivs[n - 1]);
        lemma_covered_within(line_intervals(files[n - 1].tokens@, ivs[n - 1]), files[n - 1].total_lines as nat);
    }
}

/// When every token lies on a line of its file, the duplicate lines that
/// the collector reports never outnumber the lines it read.
pub proof fn law_duplicate_lines_within_total(files: Seq<TokenFile>)
    requires
        forall|f: int| 0 <= f < files.len() ==> tokens_within_lines(#[trigger] files[f]),
    ensures
        duplicates_report(files) matches Some(r) ==> r.duplicate_lines <= r.total_lines,
{
    lemma_duplicate_total_within(files, all_duplicate_intervals(files), files.len());
}

/// A reported block occurs at least twice and spans at least
/// `MIN_DUPLICATE_LINES` lines.
pub open spec fn block_is_duplicate(b: BlockSpec) -> bool {
    b.occurrences.len() >= 2 && b.lines >= MIN_DUPLICATE_LINES
}

pub open spec fn all_blocks_duplicate(bs: Seq<BlockSpec>) -> bool {
    forall|i: int| 0 <= i < bs.len() ==> block_is_duplicate(#[trigger] bs[i])
}

pub open spec fn items_long_enough(items: Seq<BlockItem>) -> bool {
    forall|i: int| 0 <= i < items.len() ==> (#[trigger] items[i]).lines >= MIN_DUPLICATE_LINES
}

proof fn lemma_file_items_long(f: nat, t: Seq<TokenInfo>, ivs: Seq<TokenInterval>)
    ensures
        file_block_items(f, t, ivs) matches Some(items) ==> items_long_enough(items),
    decreases ivs.len(),
{
    if ivs.len() > 0 {
        lemma_file_items_long(f, t, ivs.drop_last());
    }
}

proof fn lemma_block_items_long(files: Seq<TokenFile>, ivs: Seq<Seq<TokenInterval>>, n: nat)
    requires
        n <= files.len(),
        n <= ivs.len(),
    ensures
        block_items(files, ivs, n) matches Some(items) ==> items_long_enough(items),
    decreases n,
{
    if n > 0 {
        lemma_block_items_long(files, ivs, (n - 1) as nat);
        lemma_file_items_long((n - 1) as nat, files[n - 1].tokens@, ivs[n - 1]);
        if let Some(prev) = block_items(files, ivs, (n - 1) as nat) {
            if let Some(more) = file_block_items((n - 1) as nat, files[n - 1].tokens@, ivs[n - 1]) {
                let all = prev + more;
                assert forall|i: int| 0 <= i < all.len() implies (#[trigger] all[i]).lines >= MIN_DUPLICATE_LINES by {
                    if i < prev.len() {
                        assert(all[i] == prev[i]);
                    } else {
                        assert(all[i] == more[i - prev.len()]);
                    }
                }
            }
        }
    }
}

proof fn lemma_blocks_in_order_duplicate(files: Seq<TokenFile>, items: Seq<BlockItem>, g: nat)
    requires
        items_long_enough(items),
    ensures
        all_blocks_duplicate(blocks_in_order(files, items, g)),
    decreases g,
{
    if g > 0 {
        lemma_blocks_in_order_duplicate(files, items, (g - 1) as nat);
        let keys = items.map_values(|x: BlockItem| item_key(files, x));
        let firsts = first_indices(keys, items.len());
        let prev = blocks_in_order(files, items, (g - 1) as nat);
        let members = indices_with_key(keys, items.len(), keys[firsts[g - 1] as int]);
        if members.len() >= 2 {
            lemma_indices_below(keys, items.len(), keys[firsts[g - 1] as int]);
            let last = members[members.len() - 1];
            assert(last < items.len());
            let b = block_of(files, items, members);
            assert(b.occurrences.len() == members.len());
            assert(items[last as int].lines >= MIN_DUPLICATE_LINES);
            let now = prev.push(b);
            assert forall|i: int| 0 <= i < now.len() implies block_is_duplicate(#[trigger] now[i]) by {
                if i < prev.len() {
                    assert(now[i] == prev[i]);
                }
            }
        }
    }
}

proof fn lemma_insert_block_duplicate(s: Seq<BlockSpec>, x: BlockSpec)
    requires
        all_blocks_duplicate(s),
        block_is_duplicate(x),
    ensures
        all_blocks_duplicate(insert_block(s, x)),
        insert_block(s, x).len() == s.len() + 1,
    decreases s.len(),
{
    if s.len() > 0 && !block_not_after(s.last(), x) {
        let init = s.drop_last();
        assert forall|i: int| 0 <= i < init.len() implies block_is_duplicate(#[trigger] init[i]) by {
            assert(init[i] == s[i]);
        }
        lemma_insert_block_duplicate(init, x);
        let r = insert_block(init, x).push(s.last());
        assert forall|i: int| 0 <= i < r.len() implies block_is_duplicate(#[trigger] r[i]) by {
            if i < r.len() - 1 {
                assert(r[i] == insert_block(init, x)[i]);
            } else {
                assert(block_is_duplicate(s[s.len() - 1]));
            }
        }
    } else if s.len() > 0 {
        let r = s.push(x);
        assert forall|i: int| 0 <= i < r.len() implies block_is_duplicate(#[trigger] r[i]) by {
            if i < s.len() {
                assert(r[i] == s[i]);
            }
        }
    }
}

proof fn lemma_sort_blocks_duplicate(s: Seq<BlockSpec>)
    requires
        all_blocks_duplicate(s),
    ensures
        all_blocks_duplicate(sort_blocks(s)),
        sort_blocks(s).len() == s.len(),
    decreases s.len(),
{
    if s.len() > 0 {
        let init = s.drop_last();
        assert forall|i: int| 0 <= i < init.len() implies block_is_duplicate(#[trigger] init[i]) by {
            assert(init[i] == s[i]);
        }
        lemma_sort_blocks_duplicate(init);
        assert(block_is_duplicate(s[s.len() - 1]));
        lemma_insert_block_duplicate(sort_blocks(init), s.last());
    }
}

proof fn lemma_duplicate_files_bound(files: Seq<TokenFile>, ivs: Seq<Seq<TokenInterval>>, n: nat)
    ensures
        duplicate_files(files, ivs, n).len() <= n,
    decreases n,
{
    if n > 0 {
        lemma_duplicate_files_bound(files, ivs, (n - 1) as nat);
    }
}

/// No block of `s` comes after a later one: by lines, then occurrences,
/// both decreasing.
pub open spec fn blocks_sorted(s: Seq<BlockSpec>) -> bool {
    forall|i: int, j: int| 0 <= i < j < s.len() ==> block_not_after(#[trigger] s[i], #[trigger] s[j])
}

proof fn lemma_insert_block_all(s: Seq<BlockSpec>, x: BlockSpec, p: spec_fn(BlockSpec) -> bool)
    requires
        forall|i: int| 0 <= i < s.len() ==> p(#[trigger] s[i]),
        p(x),
    ensures
        forall|i: int| 0 <= i < insert_block(s, x).len() ==> p(#[trigger] insert_block(s, x)[i]),
        insert_block(s, x).len() == s.len() + 1,
    decreases s.len(),
{
    if s.len() > 0 && !block_not_after(s.last(), x) {
        let init = s.drop_last();
        assert forall|i: int| 0 <= i < init.len() implies p(#[trigger] init[i]) by {
            assert(init[i] == s[i]);
        }
        lemma_insert_block_all(init, x, p);
        let q = insert_block(init, x);
        let r = q.push(s.last());
        assert forall|i: int| 0 <= i < r.len() implies p(#[trigger] r[i]) by {
            if i < q.len() {
                assert(r[i] == q[i]);
            } else {
                assert(p(s[s.len() - 1]));
            }
        }
    } else if s.len() > 0 {
        let r = s.push(x);
        assert forall|i: int| 0 <= i < r.len() implies p(#[trigger] r[i]) by {
            if i < s.len() {
                assert(r[i] == s[i]);
            }
        }
    }
}

proof fn lemma_insert_block_sorted(s: Seq<BlockSpec>, x: BlockSpec)
    requires
        blocks_sorted(s),
    ensures
        blocks_sorted(insert_block(s, x)),
    decreases s.len(),
{
    if s.len() > 0 {
        let last = s.last();
        if block_not_after(last, x) {
            let r = s.push(x);
            assert forall|i: int, j: int| 0 <= i < j < r.len() implies block_not_after(#[trigger] r[i], #[trigger] r[j]) by {
                assert(r[i] == s[i]);
                if j < s.len() {
                    assert(r[j] == s[j]);
                } else if i < s.len() - 1 {
                    assert(block_not_after(s[i], s[s.len() - 1]));
                }
            }
        } else {
            let init = s.drop_last();
            assert forall|i: int, j: int| 0 <= i < j < init.len() implies block_not_after(#[trigger] init[i], #[trigger] init[j]) by {
                assert(init[i] == s[i] && init[j] == s[j]);
            }
            lemma_insert_block_sorted(init, x);
            let p = |y: BlockSpec| block_not_after(y, last);
            assert forall|i: int| 0 <= i < init.len() implies p(#[trigger] init[i]) by {
                assert(init[i] == s[i]);
                assert(block_not_after(s[i], s[s.len() - 1]));
            }
            lemma_insert_block_all(init, x, p);
            let q = insert_block(init, x);
            let r = q.push(last);
            assert forall|i: int, j: int| 0 <= i < j < r.len() implies block_not_after(#[trigger] r[i], #[trigger] r[j]) by {
                assert(r[i] == q[i]);
                if j < q.len() {
                    assert(r[j] == q[j]);
                } else {
                    assert(p(q[i]));
                }
            }
        }
    }
}

proof fn lemma_sort_blocks_sorted(s: Seq<BlockSpec>)
    ensures
        blocks_sorted(sort_blocks(s)),
    decreases s.len(),
{
    if s.len() > 0 {
        lemma_sort_blocks_sorted(s.drop_last());
        lemma_insert_block_sorted(sort_blocks(s.drop_last()), s.last());
    }
}

/// The duplicates collector lists its blocks by lines, then occurrences,
/// both decreasing.
pub proof fn law_duplicate_blocks_in_order(files: Seq<TokenFile>)
    ensures
        duplicates_report(files) matches Some(r) ==> blocks_sorted(r.blocks),
{
    let ivs = all_duplicate_intervals(files);
    if let Some(items) = block_items(files, ivs, files.len()) {
        let keys = items.map_values(|x: BlockItem| item_key(files, x));
        let all = sort_blocks(blocks_in_order(files, items, first_indices(keys, items.len()).len()));
        lemma_sort_blocks_sorted(blocks_in_order(files, items, first_indices(keys, items.len()).len()));
        if all.len() > DUPLICATE_BLOCK_DETAIL_CAP {
            let kept = all.take(DUPLICATE_BLOCK_DETAIL_CAP as int);
            assert forall|i: int, j: int| 0 <= i < j < kept.len() implies block_not_after(#[trigger] kept[i], #[trigger] kept[j]) by {
                assert(kept[i] == all[i] && kept[j] == all[j]);
            }
        }
    }
}

/// Bounds on what the duplicates collector reports: it fails exactly when
/// some line is duplicated; no more files with
/// duplicates than files, at most `DUPLICATE_BLOCK_DETAIL_CAP` blocks
/// listed (blocks are left out only once the cap is reached), and every
/// listed block occurs at least twice and spans at least
/// `MIN_DUPLICATE_LINES` lines.
pub proof fn law_duplicate_report_bounds(files: Seq<TokenFile>)
    ensures
        duplicates_report(files) matches Some(r) ==> {
            &&& duplicates_status(r) == CollectorStatus::Fail <==> r.duplicate_lines > 0
            &&& r.duplicate_files.len() <= files.len()
            &&& r.blocks.len() <= DUPLICATE_BLOCK_DETAIL_CAP
            &&& r.blocks_omitted > 0 ==> r.blocks.len() == DUPLICATE_BLOCK_DETAIL_CAP
            &&& all_blocks_duplicate(r.blocks)
        },
{
    let ivs = all_duplicate_intervals(files);
    lemma_duplicate_files_bound(files, ivs, files.len());
    lemma_block_items_long(files, ivs, files.len());
    if let Some(items) = block_items(files, ivs, files.len()) {
        let keys = items.map_values(|x: BlockItem| item_key(files, x));
        let unsorted = blocks_in_order(files, items, first_indices(keys, items.len()).len());
        lemma_blocks_in_order_duplicate(files, items, first_indices(keys, items.len()).len());
        lemma_sort_blocks_duplicate(unsorted);
        let all = sort_blocks(unsorted);
        if all.len() > DUPLICATE_BLOCK_DETAIL_CAP {
            let kept = all.take(DUPLICATE_BLOCK_DETAIL_CAP as int);
            assert forall|i: int| 0 <= i < kept.len() implies block_is_duplicate(#[trigger] kept[i]) by {
                assert(kept[i] == all[i]);
            }
        }
    }
}

/// Finds repeated blocks of code.
#[derive(Debug, Clone, Copy)]
pub struct DuplicatesCollector;

impl DuplicatesCollector {
    pub fn new() -> Self {
        DuplicatesCollector
    }

    pub fn name(&self) -> (r: &'static str)
        ensures
            r@ == "duplicates"@,
    {
        "duplicates"
    }

    /// The collector reads the sources itself, so it is always available.
    pub fn is_available(&self) -> (r: bool)
        ensures
            r,
    {
        true
    }

    /// The status and details object of the collector over the source files
    /// `files` (in the order they were read): `Fail` when some line is
    /// duplicated.  `None` when a line count overflows 32 bits.
    pub fn analyze(&self, files: &Vec<TokenFile>) -> (r: Option<(CollectorStatus, Json)>)
        ensures
            match duplicates_report(files@) {
                None => r is None,
                Some(rep) => r matches Some((status, details))
                    && status == duplicates_status(rep)
                    && duplicates_details_json(details, rep),
            },
    {
        let ghost ivs_spec = all_duplicate_intervals(files@);
        let mut total_lines: u32 = 0;
        let mut f: usize = 0;
        while f < files.len()
            invariant
                f <= files.len(),
                total_line_sum(files@, f as nat) == Some(total_lines),
            decreases files.len() - f,
        {
            match total_lines.checked_add(files[f].total_lines) {
                None => {
                    proof {
                        lemma_total_sum_none(files@, (f + 1) as nat, files@.len());
                    }
                    return None;
                },
                Some(t) => {
                    total_lines = t;
                },
            }
            f = f + 1;
        }
        let intervals = find_duplicate_intervals(files);
        proof {
            assert(intervals@.map_values(|v: Vec<TokenInterval>| v@) =~= ivs_spec);
        }
        let duplicate_lines = match count_duplicate_lines(files, &intervals) {
            None => {
                return None;
            },
            Some(n) => n,
        };
        let mut dup_files: Vec<Json> = Vec::new();
        let mut f: usize = 0;
        while f < files.len()
            invariant
                f <= files.len(),
                intervals@.len() == files@.len(),
                ivs_spec == intervals@.map_values(|v: Vec<TokenInterval>| v@),
                str_array_is(Json::Array(dup_files), duplicate_files(files@, ivs_spec, f as nat)),
            decreases files.len() - f,
        {
            let ghost before = dup_files@;
            if intervals[f].len() > 0 {
                dup_files.push(Json::Str(files[f].path.clone()));
                proof {
                    assert(ivs_spec[f as int] == intervals@[f as int]@);
                    assert forall|i: int| 0 <= i < dup_files@.len() implies str_is(#[trigger] dup_files@[i],
                        duplicate_files(files@, ivs_spec, (f + 1) as nat)[i]) by {
                        if i < before.len() {
                            assert(dup_files@[i] == before[i]);
                        }
                    }
                }
            } else {
                proof {
                    assert(ivs_spec[f as int] == intervals@[f as int]@);
                }
            }
            f = f + 1;
        }
        let (blocks, omitted) = match build_duplicate_blocks(files, &intervals) {
            None => {
                return None;
            },
            Some(x) => x,
        };
        let mut block_items: Vec<Json> = Vec::new();
        let mut i: usize = 0;
        while i < blocks.len()
            invariant
                i <= blocks@.len(),
                block_items@.len() == i,
                forall|k: int| 0 <= k < i ==> block_json(#[trigger] block_items@[k], blocks_view(blocks@)[k]),
            decreases blocks.len() - i,
        {
            block_items.push(block_to_json(&blocks[i]));
            i = i + 1;
        }
        let n_files = dup_files.len() as u32;
        let status = if duplicate_lines > 0 { CollectorStatus::Fail } else { CollectorStatus::Pass };
        let details = Json::Object(vec![
            ("duplicateBlocks".to_string(), Json::Array(block_items)),
            ("duplicateBlocksOmitted".to_string(), Json::UInt(omitted as u64)),
            ("duplicateFiles".to_string(), Json::Array(dup_files)),
            ("duplicateLines".to_string(), Json::UInt(duplicate_lines as u64)),
            ("filesWithDuplicates".to_string(), Json::UInt(n_files as u64)),
            ("totalLines".to_string(), Json::UInt(total_lines as u64)),
        ]);
        Some((status, details))
    }
}

impl Default for DuplicatesCollector {
    fn default() -> Self {
        DuplicatesCollector
    }
}


proof fn lemma_total_sum_none(files: Seq<TokenFile>, m: nat, n: nat)
    requires
        m <= n,
        total_line_sum(files, m) is None,
    ensures
        total_line_sum(files, n) is None,
    decreases n - m,
{
    if m < n {
        lemma_total_sum_none(files, m, (n - 1) as nat);
    }
}

} // verus!
