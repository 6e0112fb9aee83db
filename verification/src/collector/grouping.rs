//! Grouping items by equal keys, in the order the keys first appear.

use std::collections::HashMap;
use vstd::prelude::*;
use crate::text::chars_eq;

verus! {

broadcast use vstd::std_specs::hash::group_hash_axioms;

/// The hash of a key: a polynomial over its characters, wrapping at 64
/// bits.
pub open spec fn key_hash(s: Seq<char>) -> u64
    decreases s.len(),
{
    if s.len() == 0 {
        0
    } else {
        key_hash(s.drop_last()).wrapping_mul(1099511628211).wrapping_add(s.last() as u64)
    }
}

fn key_hash_exec(s: &Vec<char>) -> (h: u64)
    ensures
        h == key_hash(s@),
{
    let mut h: u64 = 0;
    let mut i: usize = 0;
    while i < s.len()
        invariant
            i <= s.len(),
            h == key_hash(s@.take(i as int)),
        decreases s.len() - i,
    {
        proof {
            assert(s@.take(i + 1).drop_last() =~= s@.take(i as int));
        }
        h = h.wrapping_mul(1099511628211).wrapping_add(s[i] as u64);
        i = i + 1;
    }
    proof {
        assert(s@.take(s@.len() as int) =~= s@);
    }
    h
}

/// The keys as character sequences.
pub open spec fn key_views(keys: Seq<Vec<char>>) -> Seq<Seq<char>> {
    keys.map_values(|k: Vec<char>| k@)
}

/// The indices below `n` whose key is `k`, in increasing order.
pub open spec fn indices_with_key(keys: Seq<Seq<char>>, n: nat, k: Seq<char>) -> Seq<nat>
    decreases n,
{
    if n == 0 {
        Seq::empty()
    } else {
        let prev = indices_with_key(keys, (n - 1) as nat, k);
        if keys[n - 1] == k { prev.push((n - 1) as nat) } else { prev }
    }
}

/// The indices below `n` whose key appears there for the first time, in
/// increasing order.
pub open spec fn first_indices(keys: Seq<Seq<char>>, n: nat) -> Seq<nat>
    decreases n,
{
    if n == 0 {
        Seq::empty()
    } else {
        let prev = first_indices(keys, (n - 1) as nat);
        if indices_with_key(keys, (n - 1) as nat, keys[n - 1]).len() == 0 {
            prev.push((n - 1) as nat)
        } else {
            prev
        }
    }
}

/// `groups` holds, for each key among the first `n` in order of first
/// appearance, the indices that carry it.
pub open spec fn grouped(keys: Seq<Seq<char>>, n: nat, groups: Seq<Seq<usize>>) -> bool {
    let firsts = first_indices(keys, n);
    &&& groups.len() == firsts.len()
    &&& forall|g: int| 0 <= g < groups.len() ==> nat_view(#[trigger] groups[g])
        == indices_with_key(keys, n, keys[firsts[g] as int])
}

/// No index below `n` carries key `k` exactly when none is listed.
proof fn lemma_no_index_with_key(keys: Seq<Seq<char>>, n: nat, k: Seq<char>)
    requires
        n <= keys.len(),
    ensures
        (indices_with_key(keys, n, k).len() == 0) <==> (forall|j: int| 0 <= j < n ==> keys[j] != k),
    decreases n,
{
    if n > 0 {
        lemma_no_index_with_key(keys, (n - 1) as nat, k);
        if indices_with_key(keys, n, k).len() == 0 {
            assert forall|j: int| 0 <= j < n implies keys[j] != k by {
                if j < n - 1 {
                } else {
                    assert(keys[n - 1] != k);
                }
            }
        }
    }
}

/// The indices `v` as natural numbers.
pub open spec fn nat_view(v: Seq<usize>) -> Seq<nat> {
    v.map_values(|i: usize| i as nat)
}

/// The groups as index sequences.
pub open spec fn groups_view(groups: Seq<Vec<usize>>) -> Seq<Seq<usize>> {
    groups.map_values(|g: Vec<usize>| g@)
}

/// Groups the indices of `keys` by equal keys: one group per distinct key,
/// in the order the keys first appear, each listing its indices in
/// increasing order.
pub fn group_by_key(keys: &Vec<Vec<char>>) -> (r: (Vec<Vec<usize>>, Vec<usize>))
    ensures
        grouped(key_views(keys@), keys@.len(), groups_view(r.0@)),
        r.1@.len() == keys@.len(),
        forall|j: int| 0 <= j < keys@.len() ==> #[trigger] r.1@[j] < r.0@.len()
            && key_views(keys@)[first_indices(key_views(keys@), keys@.len() as nat)[r.1@[j] as int] as int]
                == key_views(keys@)[j],
{
    let ghost kv = key_views(keys@);
    let mut groups: Vec<Vec<usize>> = Vec::new();
    let mut reps: Vec<usize> = Vec::new();
    let mut by_hash: HashMap<u64, usize> = HashMap::new();
    let mut owner: Vec<usize> = Vec::new();
    let mut i: usize = 0;
    while i < keys.len()
        invariant
            i <= keys.len(),
            kv == key_views(keys@),
            kv.len() == keys@.len(),
            groups@.len() == reps@.len(),
            nat_view(reps@) == first_indices(kv, i as nat),
            forall|g: int| 0 <= g < reps@.len() ==> #[trigger] reps@[g] < i,
            forall|g: int| 0 <= g < groups@.len() ==> nat_view((#[trigger] groups@[g])@)
                == indices_with_key(kv, i as nat, kv[reps@[g] as int]),
            forall|g1: int, g2: int| 0 <= g1 < reps@.len() && 0 <= g2 < reps@.len() && g1 != g2
                ==> kv[#[trigger] reps@[g1] as int] != kv[#[trigger] reps@[g2] as int],
            owner@.len() == i,
            forall|j: int| 0 <= j < i ==> #[trigger] owner@[j] < reps@.len() && kv[reps@[owner@[j] as int] as int] == kv[j],
            forall|g: int| 0 <= g < reps@.len() ==> by_hash@.contains_key(key_hash(kv[#[trigger] reps@[g] as int])),
            forall|h: u64| #[trigger] by_hash@.contains_key(h) ==> by_hash@[h] < reps@.len()
                && key_hash(kv[reps@[by_hash@[h] as int] as int]) == h,
        decreases keys.len() - i,
    {
        let k = &keys[i];
        let h = key_hash_exec(k);
        assert(kv[i as int] == k@);
        // Look for the group of key `k`.
        let mut found: Option<usize> = None;
        match by_hash.get(&h) {
            Some(g0) => {
                let g0 = *g0;
                if chars_eq(&keys[reps[g0]], k) {
                    found = Some(g0);
                } else {
                    let mut g: usize = 0;
                    while g < reps.len()
                        invariant
                            g <= reps@.len(),
                            kv == key_views(keys@),
                            kv[i as int] == k@,
                            i < keys.len(),
                            forall|x: int| 0 <= x < reps@.len() ==> #[trigger] reps@[x] < i,
                            found is None ==> forall|x: int| 0 <= x < g ==> kv[#[trigger] reps@[x] as int] != k@,
                            found matches Some(f) ==> f < reps@.len() && kv[reps@[f as int] as int] == k@,
                        decreases reps.len() - g,
                    {
                        if chars_eq(&keys[reps[g]], k) {
                            found = Some(g);
                            g = reps.len();
                        } else {
                            g = g + 1;
                        }
                    }
                }
            },
            None => {
                proof {
                    assert forall|x: int| 0 <= x < reps@.len() implies kv[#[trigger] reps@[x] as int] != k@ by {
                        if kv[reps@[x] as int] == k@ {
                            assert(by_hash@.contains_key(key_hash(kv[reps@[x] as int])));
                        }
                    }
                }
            },
        }
        match found {
            Some(g) => {
                proof {
                    lemma_no_index_with_key(kv, i as nat, k@);
                    assert(kv[reps@[g as int] as int] == k@);
                    assert(indices_with_key(kv, i as nat, k@).len() != 0) by {
                        assert(kv[reps@[g as int] as int] == k@);
                    }
                }
                groups[g].push(i);
                owner.push(g);
            },
            None => {
                proof {
                    lemma_no_index_with_key(kv, i as nat, k@);
                    assert forall|j: int| 0 <= j < i implies kv[j] != k@ by {
                        assert(kv[reps@[owner@[j] as int] as int] == kv[j]);
                        assert(kv[reps@[owner@[j] as int] as int] != k@);
                    }
                }
                let g = groups.len();
                let mut fresh: Vec<usize> = Vec::new();
                fresh.push(i);
                groups.push(fresh);
                reps.push(i);
                if !by_hash.contains_key(&h) {
                    by_hash.insert(h, g);
                }
                owner.push(g);
            },
        }
        i = i + 1;
    }
    proof {
        assert(kv.len() == keys@.len());
        assert forall|j: int| 0 <= j < keys@.len() implies #[trigger] owner@[j] < groups@.len()
            && kv[first_indices(kv, keys@.len() as nat)[owner@[j] as int] as int] == kv[j] by {
            assert(nat_view(reps@)[owner@[j] as int] == reps@[owner@[j] as int] as nat);
        }
    }
    (groups, owner)
}

} // verus!
