//! Token accounting: directory subtotals and the grand total, recomputed
//! from whatever part of the sparse cache is resolved at the moment.
//!
//! Counts are added with saturation at `u64::MAX`; every total is
//! specified as the mathematical sum clamped at that bound, so partial
//! totals are exact until the (practically unreachable) overflow point.

use vstd::prelude::*;
use vstd::pervasive::VecAdditionalExecFns;
use crate::tree::FileTree;
use crate::types::TokenCacheEntry;
use crate::selection::has_selected_descendant;
use crate::selection::lemma_mark_step;
use crate::selection::build_directories_with_descendants_map;

verus! {

/// The count held by a resolved entry; pending and absent entries count
/// as zero.
pub open spec fn entry_count(e: TokenCacheEntry) -> int {
    match e {
        TokenCacheEntry::Resolved(c) => c as int,
        _ => 0,
    }
}

/// A path is relevant when its token count should be cached: a selected
/// file, or a directory that is selected or has a selected descendant.
pub open spec fn is_relevant(t: FileTree, k: int) -> bool {
    if t.node(k).is_directory {
        t.node(k).is_selected || has_selected_descendant(t, k)
    } else {
        t.node(k).is_selected
    }
}

/// What file `f` contributes to directory `d`: its resolved count if it
/// is a selected file with a resolved entry lying strictly below `d`.
pub open spec fn file_contrib(
    t: FileTree,
    cache: Seq<TokenCacheEntry>,
    f: int,
    d: int,
) -> int {
    if t.node(f).is_selected && !t.node(f).is_directory && cache[f] is Resolved
        && t.has_ancestor(f, d) {
        entry_count(cache[f])
    } else {
        0
    }
}

/// Sum of the contributions of files `0..k` to directory `d`.
pub open spec fn dir_sum_upto(t: FileTree, cache: Seq<TokenCacheEntry>, d: int, k: int) -> int
    decreases k,
{
    if k <= 0 {
        0
    } else {
        dir_sum_upto(t, cache, d, k - 1) + file_contrib(t, cache, k - 1, d)
    }
}

/// The exact (unclamped) sum of resolved counts of selected files below
/// directory `d`.
pub open spec fn dir_sum(t: FileTree, cache: Seq<TokenCacheEntry>, d: int) -> int {
    dir_sum_upto(t, cache, d, t.len() as int)
}

/// What file `f` contributes to the grand total: its resolved count if
/// it is a selected file with a resolved entry.
pub open spec fn total_contrib(t: FileTree, cache: Seq<TokenCacheEntry>, f: int) -> int {
    if t.node(f).is_selected && !t.node(f).is_directory && cache[f] is Resolved {
        entry_count(cache[f])
    } else {
        0
    }
}

/// Sum of the grand-total contributions of files `0..k`.
pub open spec fn total_upto(t: FileTree, cache: Seq<TokenCacheEntry>, k: int) -> int
    decreases k,
{
    if k <= 0 {
        0
    } else {
        total_upto(t, cache, k - 1) + total_contrib(t, cache, k - 1)
    }
}

/// The exact (unclamped) grand total over all selected files with
/// resolved entries.
pub open spec fn spec_total(t: FileTree, cache: Seq<TokenCacheEntry>) -> int {
    total_upto(t, cache, t.len() as int)
}

/// Clamp at the largest representable count.
pub open spec fn clamp64(x: int) -> int {
    if x > u64::MAX as int {
        u64::MAX as int
    } else {
        x
    }
}

/// Saturating addition of two counts.
pub fn sat_add_u64(a: u64, b: u64) -> (r: u64)
    ensures
        r as int == clamp64(a as int + b as int),
{
    if a > u64::MAX - b {
        u64::MAX
    } else {
        a + b
    }
}

/// All partial directory sums are non-negative.
pub proof fn lemma_dir_sum_nonneg(t: FileTree, cache: Seq<TokenCacheEntry>, d: int, k: int)
    ensures
        dir_sum_upto(t, cache, d, k) >= 0,
    decreases k,
{
    if k > 0 {
        lemma_dir_sum_nonneg(t, cache, d, k - 1);
    }
}

/// All partial grand totals are non-negative.
pub proof fn lemma_total_nonneg(t: FileTree, cache: Seq<TokenCacheEntry>, k: int)
    ensures
        total_upto(t, cache, k) >= 0,
    decreases k,
{
    if k > 0 {
        lemma_total_nonneg(t, cache, k - 1);
    }
}

/// Directory sums read only the file entries of the cache: two caches
/// that agree on every non-directory index give the same sums.
pub proof fn lemma_dir_sum_files_only(
    t: FileTree,
    c1: Seq<TokenCacheEntry>,
    c2: Seq<TokenCacheEntry>,
    d: int,
    k: int,
)
    requires
        forall|f: int| 0 <= f < k && !t.node(f).is_directory ==> c1[f] == c2[f],
    ensures
        dir_sum_upto(t, c1, d, k) == dir_sum_upto(t, c2, d, k),
    decreases k,
{
    if k > 0 {
        lemma_dir_sum_files_only(t, c1, c2, d, k - 1);
    }
}

/// Directory sums read only the entries of selected files: caches that
/// agree on every selected file give the same sums.
pub proof fn lemma_dir_sum_selected_only(
    t: FileTree,
    c1: Seq<TokenCacheEntry>,
    c2: Seq<TokenCacheEntry>,
    d: int,
    k: int,
)
    requires
        forall|f: int|
            0 <= f < k && t.node(f).is_selected && !t.node(f).is_directory ==> c1[f] == c2[f],
    ensures
        dir_sum_upto(t, c1, d, k) == dir_sum_upto(t, c2, d, k),
    decreases k,
{
    if k > 0 {
        lemma_dir_sum_selected_only(t, c1, c2, d, k - 1);
    }
}

/// The grand total reads only the entries of selected files.
pub proof fn lemma_total_selected_only(
    t: FileTree,
    c1: Seq<TokenCacheEntry>,
    c2: Seq<TokenCacheEntry>,
    k: int,
)
    requires
        forall|f: int|
            0 <= f < k && t.node(f).is_selected && !t.node(f).is_directory ==> c1[f] == c2[f],
    ensures
        total_upto(t, c1, k) == total_upto(t, c2, k),
    decreases k,
{
    if k > 0 {
        lemma_total_selected_only(t, c1, c2, k - 1);
    }
}

/// How many cache entries among the first `k` are resolved.
pub open spec fn count_resolved(cache: Seq<TokenCacheEntry>, k: int) -> int
    decreases k,
{
    if k <= 0 {
        0
    } else {
        count_resolved(cache, k - 1) + if cache[k - 1] is Resolved {
            1int
        } else {
            0int
        }
    }
}

/// Counts the resolved entries of the cache.
pub fn count_resolved_entries(cache: &Vec<TokenCacheEntry>) -> (r: usize)
    ensures
        r as int == count_resolved(cache@, cache@.len() as int),
{
    let n = cache.len();
    let mut r: usize = 0;
    let mut k: usize = 0;
    while k < n
        invariant
            n == cache@.len(),
            k <= n,
            r <= k,
            r as int == count_resolved(cache@, k as int),
        decreases n - k,
    {
        match cache[k] {
            TokenCacheEntry::Resolved(_) => {
                r = r + 1;
            },
            _ => {},
        }
        k = k + 1;
    }
    r
}

/// A cache with no resolved entries contributes nothing to any
/// directory sum.
pub proof fn lemma_dir_sum_no_resolved(
    t: FileTree,
    cache: Seq<TokenCacheEntry>,
    d: int,
    k: int,
)
    requires
        forall|f: int| 0 <= f < k ==> !(cache[f] is Resolved),
    ensures
        dir_sum_upto(t, cache, d, k) == 0,
    decreases k,
{
    if k > 0 {
        lemma_dir_sum_no_resolved(t, cache, d, k - 1);
    }
}

/// A cache with no resolved entries has a zero grand total.
pub proof fn lemma_total_no_resolved(t: FileTree, cache: Seq<TokenCacheEntry>, k: int)
    requires
        forall|f: int| 0 <= f < k ==> !(cache[f] is Resolved),
    ensures
        total_upto(t, cache, k) == 0,
    decreases k,
{
    if k > 0 {
        lemma_total_no_resolved(t, cache, k - 1);
    }
}

/// The relation between a cache before and after one recomputation pass:
/// file entries are untouched, every relevant directory holds the
/// clamped sum of its selected resolved descendants, and irrelevant
/// directories are untouched.
pub open spec fn aggregated(
    t: FileTree,
    c_old: Seq<TokenCacheEntry>,
    c_new: Seq<TokenCacheEntry>,
) -> bool {
    &&& c_old.len() == t.len()
    &&& c_new.len() == t.len()
    &&& forall|f: int| 0 <= f < t.len() && !t.node(f).is_directory ==> c_new[f] == c_old[f]
    &&& forall|d: int|
        0 <= d < t.len() && t.node(d).is_directory && is_relevant(t, d) ==> c_new[d]
            == TokenCacheEntry::Resolved(clamp64(dir_sum(t, c_old, d)) as u64)
    &&& forall|d: int|
        0 <= d < t.len() && t.node(d).is_directory && !is_relevant(t, d) ==> c_new[d] == c_old[d]
}

/// Recomputing the directory sums is idempotent: a second pass with no
/// intervening mutation reproduces exactly the same cache.
pub proof fn lemma_idempotent_aggregation(
    t: FileTree,
    c1: Seq<TokenCacheEntry>,
    c2: Seq<TokenCacheEntry>,
    c3: Seq<TokenCacheEntry>,
)
    requires
        aggregated(t, c1, c2),
        aggregated(t, c2, c3),
    ensures
        c3 == c2,
{
    assert forall|k: int| 0 <= k < t.len() implies c3[k] == c2[k] by {
        if t.node(k).is_directory {
            if is_relevant(t, k) {
                lemma_dir_sum_files_only(t, c1, c2, k, t.len() as int);
            }
        }
    }
    assert(c3 =~= c2);
}

/// As pending entries resolve (and nothing resolved changes), the grand
/// total can only grow.
pub proof fn lemma_partial_total_monotone(
    t: FileTree,
    c1: Seq<TokenCacheEntry>,
    c2: Seq<TokenCacheEntry>,
    k: int,
)
    requires
        c1.len() == c2.len(),
        forall|f: int| 0 <= f < c1.len() ==> (c1[f] is Resolved ==> c2[f] == c1[f]),
        k <= c1.len(),
    ensures
        total_upto(t, c1, k) <= total_upto(t, c2, k),
    decreases k,
{
    if k > 0 {
        lemma_partial_total_monotone(t, c1, c2, k - 1);
    }
}

/// Once every selected file's entry is resolved, further arrivals
/// cannot change the grand total: the partial total has reached the
/// full sum.
pub proof fn lemma_total_complete(
    t: FileTree,
    c1: Seq<TokenCacheEntry>,
    c2: Seq<TokenCacheEntry>,
    k: int,
)
    requires
        c1.len() == c2.len(),
        forall|f: int| 0 <= f < c1.len() ==> (c1[f] is Resolved ==> c2[f] == c1[f]),
        forall|f: int|
            0 <= f < c1.len() && t.node(f).is_selected && !t.node(f).is_directory
                ==> c1[f] is Resolved,
        k <= c1.len(),
    ensures
        total_upto(t, c1, k) == total_upto(t, c2, k),
    decreases k,
{
    if k > 0 {
        lemma_total_complete(t, c1, c2, k - 1);
    }
}

/// Computes the grand total of all selected files whose entries are
/// resolved, saturating at `u64::MAX`.
pub fn compute_selected_total(tree: &FileTree, cache: &Vec<TokenCacheEntry>) -> (r: u64)
    requires
        cache@.len() == tree.len(),
    ensures
        r as int == clamp64(spec_total(*tree, cache@)),
{
    let n = tree.nodes.len();
    let mut total: u64 = 0;
    let mut f: usize = 0;
    while f < n
        invariant
            n == tree.len(),
            cache@.len() == n,
            f <= n,
            total as int == clamp64(total_upto(*tree, cache@, f as int)),
        decreases n - f,
    {
        proof {
            lemma_total_nonneg(*tree, cache@, f as int);
        }
        if tree.nodes[f].is_selected && !tree.nodes[f].is_directory {
            match cache[f] {
                TokenCacheEntry::Resolved(c) => {
                    total = sat_add_u64(total, c);
                },
                _ => {},
            }
        }
        f = f + 1;
    }
    total
}

/// The guard under which the recomputation pass writes a directory: a
/// directory that is selected or has a selected descendant.
pub open spec fn dir_guard(t: FileTree, d: int) -> bool {
    t.node(d).is_directory && (t.node(d).is_selected || has_selected_descendant(t, d))
}

/// Adds one file's resolved count to every relevant directory on its
/// ancestor chain, reading missing entries as zero.
fn add_file_tokens_to_directories_with_selections(
    tree: &FileTree,
    cache: &mut Vec<TokenCacheEntry>,
    dir_map: &Vec<bool>,
    f: usize,
    c: u64,
)
    requires
        tree.wf(),
        f < tree.len(),
        old(cache)@.len() == tree.len(),
        dir_map@.len() == tree.len(),
        forall|d: int|
            0 <= d < tree.len() ==> dir_map@[d] == has_selected_descendant(*tree, d),
    ensures
        final(cache)@.len() == tree.len(),
        forall|d: int|
            0 <= d < tree.len() ==> #[trigger] final(cache)@[d] == (if tree.has_ancestor(
                f as int,
                d,
            ) && dir_guard(*tree, d) {
                TokenCacheEntry::Resolved(
                    clamp64(entry_count(old(cache)@[d]) + c as int) as u64,
                )
            } else {
                old(cache)@[d]
            }),
{
    let ghost n = tree.len() as int;
    let ghost c0 = cache@;
    let t = tree;
    let mut cur_opt = t.nodes[f].parent;
    proof {
        assert(t.wf_at(f as int));
        if cur_opt is Some {
            assert(t.has_ancestor(f as int, cur_opt.unwrap() as int));
        }
        assert forall|d: int|
            0 <= d < n && t.has_ancestor(f as int, d) && (cur_opt matches Some(cc)
                ==> t.has_ancestor(d, cc as int)) implies false by {
            let cc = cur_opt.unwrap() as int;
            t.lemma_ancestor_bounds(f as int, d);
            if d == cc {
                t.lemma_ancestor_bounds(d, d);
            } else {
                assert(t.has_ancestor(d, cc));
                assert(t.has_ancestor(f as int, d) == (d == cc || t.has_ancestor(cc, d)));
                if t.has_ancestor(cc, d) {
                    t.lemma_ancestor_bounds(d, cc);
                    t.lemma_ancestor_bounds(cc, d);
                }
            }
        }
    }
    loop
        invariant_except_break
            t.wf(),
            n == t.len(),
            f < n,
            cache@.len() == n,
            c0.len() == n,
            dir_map@.len() == n,
            forall|d: int|
                0 <= d < n ==> dir_map@[d] == has_selected_descendant(*t, d),
            cur_opt matches Some(cc) ==> (cc as int) < n && t.has_ancestor(f as int, cc as int),
            forall|d: int|
                0 <= d < n ==> #[trigger] cache@[d] == (if t.has_ancestor(f as int, d) && (
                cur_opt matches Some(cc) ==> t.has_ancestor(d, cc as int)) && dir_guard(*t, d) {
                    TokenCacheEntry::Resolved(clamp64(entry_count(c0[d]) + c as int) as u64)
                } else {
                    c0[d]
                }),
        ensures
            cache@.len() == n,
            forall|d: int|
                0 <= d < n ==> #[trigger] cache@[d] == (if t.has_ancestor(f as int, d)
                    && dir_guard(*t, d) {
                    TokenCacheEntry::Resolved(clamp64(entry_count(c0[d]) + c as int) as u64)
                } else {
                    c0[d]
                }),
        decreases (match cur_opt {
            Some(cc) => cc as int + 1,
            None => 0int,
        }),
    {
        match cur_opt {
            Some(p) => {
                proof {
                    assert(t.wf_at(p as int));
                    if t.has_ancestor(f as int, p as int) {
                        t.lemma_ancestor_bounds(f as int, p as int);
                        assert(!t.has_ancestor(p as int, p as int)) by {
                            if t.has_ancestor(p as int, p as int) {
                                t.lemma_ancestor_bounds(p as int, p as int);
                            }
                        }
                    }
                }
                let ghost cache_before = cache@;
                if t.nodes[p].is_directory && (t.nodes[p].is_selected || dir_map[p]) {
                    let prior: u64;
                    match cache[p] {
                        TokenCacheEntry::Resolved(v) => {
                            prior = v;
                        },
                        _ => {
                            prior = 0;
                        },
                    }
                    proof {
                        assert(cache@[p as int] == c0[p as int]);
                        assert(prior as int == entry_count(c0[p as int]));
                    }
                    let updated = sat_add_u64(prior, c);
                    cache.set(p, TokenCacheEntry::Resolved(updated));
                }
                let next_opt = t.nodes[p].parent;
                proof {
                    assert forall|d: int|
                        0 <= d < n implies #[trigger] cache@[d] == (if t.has_ancestor(
                        f as int,
                        d,
                    ) && (next_opt matches Some(cc) ==> t.has_ancestor(d, cc as int))
                        && dir_guard(*t, d) {
                        TokenCacheEntry::Resolved(
                            clamp64(entry_count(c0[d]) + c as int) as u64,
                        )
                    } else {
                        c0[d]
                    }) by {
                        lemma_mark_step(*t, f as int, p as int, next_opt, d);
                        if d == p as int {
                            assert(t.has_ancestor(f as int, d));
                            assert(cache_before[d] == c0[d]);
                        } else {
                            assert(cache@[d] == cache_before[d]);
                        }
                    }
                    if next_opt is Some {
                        let cc = next_opt.unwrap() as int;
                        assert(p != 0);
                        assert(t.has_ancestor(p as int, cc));
                        t.lemma_ancestor_trans(f as int, p as int, cc);
                        t.lemma_ancestor_bounds(p as int, cc);
                    }
                }
                cur_opt = next_opt;
                proof {
                    assert(forall|d: int|
                        0 <= d < n ==> #[trigger] cache@[d] == (if t.has_ancestor(f as int, d)
                            && (cur_opt matches Some(cc) ==> t.has_ancestor(d, cc as int))
                            && dir_guard(*t, d) {
                            TokenCacheEntry::Resolved(
                                clamp64(entry_count(c0[d]) + c as int) as u64,
                            )
                        } else {
                            c0[d]
                        }));
                }
            },
            None => {
                break;
            },
        }
    }
}

/// Recomputes every relevant directory's cached sum from scratch:
/// relevant directories are reset to zero and then every selected file
/// with a resolved entry adds its count to each relevant directory on
/// its ancestor chain. File entries are never touched, so repeating the
/// pass reproduces the same sums.
pub fn recalculate_directory_token_counts(tree: &FileTree, cache: &mut Vec<TokenCacheEntry>)
    requires
        tree.wf(),
        old(cache)@.len() == tree.len(),
    ensures
        final(cache)@.len() == tree.len(),
        aggregated(*tree, old(cache)@, final(cache)@),
{
    let ghost c_orig = cache@;
    let ghost n = tree.len() as int;
    let dir_map = build_directories_with_descendants_map(tree);
    let nn = tree.nodes.len();
    let mut d: usize = 0;
    while d < nn
        invariant
            tree.wf(),
            n == tree.len(),
            nn == n,
            cache@.len() == n,
            c_orig.len() == n,
            dir_map@.len() == n,
            forall|i: int|
                0 <= i < n ==> dir_map@[i] == has_selected_descendant(*tree, i),
            d <= nn,
            forall|i: int|
                0 <= i < n ==> #[trigger] cache@[i] == (if i < d && dir_guard(*tree, i) {
                    TokenCacheEntry::Resolved(0u64)
                } else {
                    c_orig[i]
                }),
        decreases nn - d,
    {
        if tree.nodes[d].is_directory && (tree.nodes[d].is_selected || dir_map[d]) {
            cache.set(d, TokenCacheEntry::Resolved(0));
        }
        d = d + 1;
    }
    let mut f: usize = 0;
    while f < nn
        invariant
            tree.wf(),
            n == tree.len(),
            nn == n,
            cache@.len() == n,
            c_orig.len() == n,
            dir_map@.len() == n,
            forall|i: int|
                0 <= i < n ==> dir_map@[i] == has_selected_descendant(*tree, i),
            f <= nn,
            forall|i: int|
                0 <= i < n ==> #[trigger] cache@[i] == (if dir_guard(*tree, i) {
                    TokenCacheEntry::Resolved(
                        clamp64(dir_sum_upto(*tree, c_orig, i, f as int)) as u64,
                    )
                } else {
                    c_orig[i]
                }),
        decreases nn - f,
    {
        let ghost cache_at_f = cache@;
        let mut contributing = false;
        let mut count: u64 = 0;
        if tree.nodes[f].is_selected && !tree.nodes[f].is_directory {
            match cache[f] {
                TokenCacheEntry::Resolved(v) => {
                    contributing = true;
                    count = v;
                },
                _ => {},
            }
        }
        if contributing {
            proof {
                assert(!dir_guard(*tree, f as int));
                assert(cache@[f as int] == c_orig[f as int]);
            }
            add_file_tokens_to_directories_with_selections(tree, cache, &dir_map, f, count);
            proof {
                assert forall|i: int|
                    0 <= i < n implies #[trigger] cache@[i] == (if dir_guard(*tree, i) {
                    TokenCacheEntry::Resolved(
                        clamp64(dir_sum_upto(*tree, c_orig, i, f + 1)) as u64,
                    )
                } else {
                    c_orig[i]
                }) by {
                    lemma_dir_sum_nonneg(*tree, c_orig, i, f as int);
                    if dir_guard(*tree, i) {
                        if tree.has_ancestor(f as int, i) {
                            assert(entry_count(cache_at_f[i]) == clamp64(
                                dir_sum_upto(*tree, c_orig, i, f as int),
                            ));
                            assert(file_contrib(*tree, c_orig, f as int, i) == count as int);
                        } else {
                            assert(file_contrib(*tree, c_orig, f as int, i) == 0);
                        }
                    }
                }
            }
        } else {
            proof {
                assert forall|i: int|
                    0 <= i < n implies #[trigger] cache@[i] == (if dir_guard(*tree, i) {
                    TokenCacheEntry::Resolved(
                        clamp64(dir_sum_upto(*tree, c_orig, i, f + 1)) as u64,
                    )
                } else {
                    c_orig[i]
                }) by {
                    assert(cache@[f as int] == (if dir_guard(*tree, f as int) {
                        TokenCacheEntry::Resolved(
                            clamp64(dir_sum_upto(*tree, c_orig, f as int, f as int)) as u64,
                        )
                    } else {
                        c_orig[f as int]
                    }));
                    assert(file_contrib(*tree, c_orig, f as int, i) == 0);
                }
            }
        }
        f = f + 1;
    }
    proof {
        assert forall|i: int|
            0 <= i < n && !tree.node(i).is_directory implies #[trigger] cache@[i] == c_orig[i] by {
            assert(!dir_guard(*tree, i));
        }
        assert forall|i: int|
            0 <= i < n && tree.node(i).is_directory && is_relevant(*tree, i) implies #[trigger] cache@[i]
            == TokenCacheEntry::Resolved(clamp64(dir_sum(*tree, c_orig, i)) as u64) by {
            assert(dir_guard(*tree, i));
        }
        assert forall|i: int|
            0 <= i < n && tree.node(i).is_directory && !is_relevant(*tree, i) implies #[trigger] cache@[i]
            == c_orig[i] by {
            assert(!dir_guard(*tree, i));
        }
    }
}

} // verus!
