//! Selection state over the file tree.
//!
//! Toggling a directory selects or deselects its whole subtree; the
//! aggregator derives, for every directory, whether some strict
//! descendant is selected ("relevance"). Both are specified against the
//! ancestor relation of the arena.

use vstd::prelude::*;
use crate::tree::FileNode;
use crate::tree::FileTree;

verus! {

/// True if `k` is `id` itself or lies in the subtree below `id`.
pub open spec fn in_selection_scope(t: FileTree, k: int, id: int) -> bool {
    k == id || t.has_ancestor(k, id)
}

/// True if some node strictly below `d` is selected.
pub open spec fn has_selected_descendant(t: FileTree, d: int) -> bool {
    exists|j: int| 0 <= j < t.len() && t.node(j).is_selected && t.has_ancestor(j, d)
}

/// True if some selected node with index below `k` lies strictly below `d`.
pub open spec fn selected_descendant_upto(t: FileTree, d: int, k: int) -> bool {
    exists|j: int| 0 <= j < k && t.node(j).is_selected && t.has_ancestor(j, d)
}

/// True if `k` falls in the subtree of one of the first `m` entries of
/// `vis` (out-of-range entries select nothing).
pub open spec fn covered_by_visible(t: FileTree, vis: Seq<usize>, k: int, m: int) -> bool {
    exists|i: int|
        0 <= i < m && (vis[i] as int) < t.len() && in_selection_scope(t, k, vis[i] as int)
}

/// The ancestor relation only reads the parent pointers.
pub proof fn lemma_ancestor_same_parents(t1: FileTree, t2: FileTree, j: int, a: int)
    requires
        t1.len() == t2.len(),
        forall|i: int| 0 <= i < t1.len() ==> t1.node(i).parent == t2.node(i).parent,
    ensures
        t1.has_ancestor(j, a) == t2.has_ancestor(j, a),
    decreases (if j >= 0 {
        j
    } else {
        0
    }),
{
    if 0 < j < t1.len() {
        match t1.node(j).parent {
            Some(p) => {
                if 0 <= (p as int) < j {
                    lemma_ancestor_same_parents(t1, t2, p as int, a);
                }
            },
            None => {},
        }
    }
}

/// One step of marking an ancestor chain: after visiting `c` (whose
/// parent is `next`), the set of chain nodes at or before `c` is the set
/// at or before `next` plus `c` itself.
pub proof fn lemma_mark_step(t: FileTree, j: int, c: int, next: Option<usize>, d: int)
    requires
        t.wf(),
        0 <= j < t.len(),
        0 <= c < t.len(),
        t.has_ancestor(j, c),
        t.node(c).parent == next,
        0 <= d < t.len(),
    ensures
        (t.has_ancestor(j, d) && (match next {
            Some(c2) => t.has_ancestor(d, c2 as int),
            None => true,
        })) <==> (d == c || (t.has_ancestor(j, d) && t.has_ancestor(d, c))),
{
    assert(t.wf_at(c));
    t.lemma_ancestor_bounds(j, c);
    // Backward direction
    if d == c {
        if next is Some {
            let c2 = next.unwrap() as int;
            assert(c != 0);
            assert(t.has_ancestor(c, c2));
        }
    }
    if t.has_ancestor(j, d) && t.has_ancestor(d, c) {
        if next is Some {
            let c2 = next.unwrap() as int;
            assert(c != 0);
            assert(t.has_ancestor(c, c2));
            t.lemma_ancestor_trans(d, c, c2);
        }
    }
    // Forward direction
    if t.has_ancestor(j, d) && (match next {
        Some(c2) => t.has_ancestor(d, c2 as int),
        None => true,
    }) && d != c && !t.has_ancestor(d, c) {
        t.lemma_ancestor_comparable(j, d, c);
        assert(t.has_ancestor(c, d));
        assert(c != 0);
        match next {
            Some(c2u) => {
                let c2 = c2u as int;
                assert(t.has_ancestor(c, d) == (c2 == d || t.has_ancestor(c2, d)));
                if c2 == d {
                    t.lemma_ancestor_bounds(d, c2);
                } else {
                    t.lemma_ancestor_bounds(d, c2);
                    t.lemma_ancestor_bounds(c2, d);
                }
                assert(false);
            },
            None => {
                assert(!t.has_ancestor(c, d));
                assert(false);
            },
        }
    }
}

/// Sets the selection state of the node at `id` and of every node in its
/// subtree, leaving every other node and every other field unchanged.
pub fn set_selection_recursive(file_tree: &mut FileTree, id: usize, selection_state: bool)
    requires
        old(file_tree).wf(),
        id < old(file_tree).len(),
    ensures
        final(file_tree).wf(),
        final(file_tree).len() == old(file_tree).len(),
        forall|k: int|
            0 <= k < old(file_tree).len() ==> final(file_tree).node(k) == (FileNode {
                is_selected: (if in_selection_scope(*old(file_tree), k, id as int) {
                    selection_state
                } else {
                    old(file_tree).node(k).is_selected
                }),
                ..old(file_tree).node(k)
            }),
{
    let ghost t0 = *old(file_tree);
    let n = file_tree.nodes.len();
    let mut in_sub: Vec<bool> = Vec::new();
    let mut k: usize = 0;
    while k < n
        invariant
            t0.wf(),
            id < n,
            n == t0.len(),
            n == file_tree.len(),
            k <= n,
            in_sub@.len() == k,
            forall|j: int| 0 <= j < k ==> in_sub@[j] == in_selection_scope(t0, j, id as int),
            forall|j: int|
                0 <= j < n ==> #[trigger] file_tree.node(j) == (FileNode {
                    is_selected: (if j < k && in_selection_scope(t0, j, id as int) {
                        selection_state
                    } else {
                        t0.node(j).is_selected
                    }),
                    ..t0.node(j)
                }),
        decreases n - k,
    {
        proof {
            assert(t0.wf_at(k as int));
        }
        let member: bool;
        if k == id {
            member = true;
        } else {
            match file_tree.nodes[k].parent {
                Some(p) => {
                    proof {
                        assert(file_tree.node(k as int).parent == t0.node(k as int).parent);
                        assert(k != 0);
                        assert(0 <= (p as int) < k);
                        assert(t0.has_ancestor(k as int, id as int) == ((p as int) == id
                            || t0.has_ancestor(p as int, id as int)));
                    }
                    member = in_sub[p];
                },
                None => {
                    proof {
                        assert(file_tree.node(k as int).parent == t0.node(k as int).parent);
                        assert(k == 0);
                        assert(!t0.has_ancestor(0, id as int));
                    }
                    member = false;
                },
            }
        }
        proof {
            assert(member == in_selection_scope(t0, k as int, id as int));
        }
        in_sub.push(member);
        let ghost before = *file_tree;
        if member {
            file_tree.set_selected(k, selection_state);
        }
        proof {
            assert forall|j: int| 0 <= j < n implies #[trigger] file_tree.node(j) == (FileNode {
                is_selected: (if j < k + 1 && in_selection_scope(t0, j, id as int) {
                    selection_state
                } else {
                    t0.node(j).is_selected
                }),
                ..t0.node(j)
            }) by {
                assert(before.node(j) == (FileNode {
                    is_selected: (if j < k && in_selection_scope(t0, j, id as int) {
                        selection_state
                    } else {
                        t0.node(j).is_selected
                    }),
                    ..t0.node(j)
                }));
            }
        }
        k = k + 1;
    }
    proof {
        t0.lemma_wf_flags_only(*file_tree);
    }
}

/// Toggles the selection of the node at `id`. For a directory this flips
/// the directory itself and applies the new state to every descendant;
/// for a file only that file changes.
pub fn toggle_selection_recursive(file_tree: &mut FileTree, id: usize)
    requires
        old(file_tree).wf(),
        id < old(file_tree).len(),
    ensures
        final(file_tree).wf(),
        final(file_tree).len() == old(file_tree).len(),
        forall|k: int|
            0 <= k < old(file_tree).len() ==> final(file_tree).node(k) == (FileNode {
                is_selected: (if in_selection_scope(*old(file_tree), k, id as int) {
                    !old(file_tree).node(id as int).is_selected
                } else {
                    old(file_tree).node(k).is_selected
                }),
                ..old(file_tree).node(k)
            }),
{
    let new_state = !file_tree.nodes[id].is_selected;
    set_selection_recursive(file_tree, id, new_state);
}

/// Clears every selection flag in the tree, files and directories alike,
/// visible or not.
pub fn unselect_all_items(file_tree: &mut FileTree)
    ensures
        final(file_tree).len() == old(file_tree).len(),
        forall|j: int|
            0 <= j < old(file_tree).len() ==> final(file_tree).node(j) == (FileNode {
                is_selected: false,
                ..old(file_tree).node(j)
            }),
{
    let n = file_tree.nodes.len();
    let mut k: usize = 0;
    while k < n
        invariant
            n == file_tree.len(),
            n == old(file_tree).len(),
            k <= n,
            forall|j: int| k <= j < n ==> file_tree.node(j) == old(file_tree).node(j),
            forall|j: int|
                0 <= j < k ==> file_tree.node(j) == (FileNode {
                    is_selected: false,
                    ..old(file_tree).node(j)
                }),
        decreases n - k,
    {
        file_tree.set_selected(k, false);
        k = k + 1;
    }
}

/// Selects every entry of `visible_files` together with its whole
/// subtree, after first clearing every existing selection. Entries that
/// do not name a node select nothing.
pub fn select_all_visible_files(file_tree: &mut FileTree, visible_files: &Vec<usize>)
    requires
        old(file_tree).wf(),
    ensures
        final(file_tree).wf(),
        final(file_tree).len() == old(file_tree).len(),
        forall|k: int|
            0 <= k < old(file_tree).len() ==> final(file_tree).node(k) == (FileNode {
                is_selected: covered_by_visible(
                    *old(file_tree),
                    visible_files@,
                    k,
                    visible_files@.len() as int,
                ),
                ..old(file_tree).node(k)
            }),
{
    let ghost t0 = *old(file_tree);
    unselect_all_items(file_tree);
    proof {
        t0.lemma_wf_flags_only(*file_tree);
    }
    let m = visible_files.len();
    let mut i: usize = 0;
    while i < m
        invariant
            t0.wf(),
            file_tree.wf(),
            m == visible_files@.len(),
            i <= m,
            file_tree.len() == t0.len(),
            forall|k: int|
                0 <= k < t0.len() ==> #[trigger] file_tree.node(k) == (FileNode {
                    is_selected: covered_by_visible(t0, visible_files@, k, i as int),
                    ..t0.node(k)
                }),
        decreases m - i,
    {
        let ghost before = *file_tree;
        let v = visible_files[i];
        if v < file_tree.nodes.len() {
            set_selection_recursive(file_tree, v, true);
            proof {
                assert forall|k: int| 0 <= k < t0.len() implies #[trigger] file_tree.node(k)
                    == (FileNode {
                    is_selected: covered_by_visible(t0, visible_files@, k, i + 1),
                    ..t0.node(k)
                }) by {
                    lemma_ancestor_same_parents(before, t0, k, v as int);
                    if in_selection_scope(before, k, v as int) {
                        assert(covered_by_visible(t0, visible_files@, k, i + 1));
                    } else if covered_by_visible(t0, visible_files@, k, i as int) {
                        assert(covered_by_visible(t0, visible_files@, k, i + 1));
                    } else if covered_by_visible(t0, visible_files@, k, i + 1) {
                        let w = choose|w: int|
                            0 <= w < i + 1 && (visible_files@[w] as int) < t0.len()
                                && in_selection_scope(t0, k, visible_files@[w] as int);
                        assert(w == i);
                    }
                }
            }
        } else {
            proof {
                assert forall|k: int| 0 <= k < t0.len() implies #[trigger] file_tree.node(k)
                    == (FileNode {
                    is_selected: covered_by_visible(t0, visible_files@, k, i + 1),
                    ..t0.node(k)
                }) by {
                    if covered_by_visible(t0, visible_files@, k, i + 1) {
                        let w = choose|w: int|
                            0 <= w < i + 1 && (visible_files@[w] as int) < t0.len()
                                && in_selection_scope(t0, k, visible_files@[w] as int);
                        assert(covered_by_visible(t0, visible_files@, k, i as int));
                    } else {
                        assert(!covered_by_visible(t0, visible_files@, k, i as int));
                    }
                }
            }
        }
        i = i + 1;
    }
}

/// How many of the nodes below index `k` are selected files.
pub open spec fn num_selected_files_upto(t: FileTree, k: int) -> int
    decreases k,
{
    if k <= 0 {
        0
    } else {
        num_selected_files_upto(t, k - 1) + if t.node(k - 1).is_selected && !t.node(
            k - 1,
        ).is_directory {
            1int
        } else {
            0int
        }
    }
}

/// The number of selected files in the whole tree.
pub open spec fn num_selected_files(t: FileTree) -> int {
    num_selected_files_upto(t, t.len() as int)
}

/// Selected-file counts are never negative.
pub proof fn lemma_num_selected_files_nonneg(t: FileTree, k: int)
    ensures
        num_selected_files_upto(t, k) >= 0,
    decreases k,
{
    if k > 0 {
        lemma_num_selected_files_nonneg(t, k - 1);
    }
}

/// A zero selected-file count means no file is selected.
pub proof fn lemma_num_selected_files_zero(t: FileTree, k: int)
    requires
        num_selected_files_upto(t, k) == 0,
    ensures
        forall|f: int| 0 <= f < k ==> !(t.node(f).is_selected && !t.node(f).is_directory),
    decreases k,
{
    if k > 0 {
        lemma_num_selected_files_nonneg(t, k - 1);
        lemma_num_selected_files_zero(t, k - 1);
    }
}

/// Returns the arena indices of all selected files (never directories),
/// in ascending index order.
pub fn get_selected_files(file_tree: &FileTree) -> (r: Vec<usize>)
    ensures
        forall|i: int|
            0 <= i < r@.len() ==> (#[trigger] r@[i] as int) < file_tree.len() && file_tree.node(
                r@[i] as int,
            ).is_selected && !file_tree.node(r@[i] as int).is_directory,
        forall|j: int|
            0 <= j < file_tree.len() && file_tree.node(j).is_selected && !file_tree.node(
                j,
            ).is_directory ==> r@.contains(j as usize),
        forall|i1: int, i2: int| 0 <= i1 < i2 < r@.len() ==> r@[i1] < r@[i2],
        r@.len() == num_selected_files(*file_tree),
{
    let n = file_tree.nodes.len();
    let mut r: Vec<usize> = Vec::new();
    let mut k: usize = 0;
    while k < n
        invariant
            n == file_tree.len(),
            k <= n,
            forall|i: int|
                0 <= i < r@.len() ==> (#[trigger] r@[i] as int) < k && file_tree.node(
                    r@[i] as int,
                ).is_selected && !file_tree.node(r@[i] as int).is_directory,
            forall|j: int|
                0 <= j < k && file_tree.node(j).is_selected && !file_tree.node(j).is_directory
                    ==> r@.contains(j as usize),
            forall|i1: int, i2: int| 0 <= i1 < i2 < r@.len() ==> r@[i1] < r@[i2],
            r@.len() == num_selected_files_upto(*file_tree, k as int),
        decreases n - k,
    {
        let ghost old_r = r@;
        if file_tree.nodes[k].is_selected && !file_tree.nodes[k].is_directory {
            r.push(k);
        }
        proof {
            assert forall|j: int|
                0 <= j < k + 1 && file_tree.node(j).is_selected && !file_tree.node(
                    j,
                ).is_directory implies r@.contains(j as usize) by {
                if j < k {
                    let w = choose|w: int| 0 <= w < old_r.len() && old_r[w] == j as usize;
                    assert(r@[w] == j as usize);
                } else {
                    assert(r@.last() == j as usize);
                }
            }
        }
        k = k + 1;
    }
    r
}

/// Walks the parent chain of `j`, reporting whether `a` lies on it.
fn has_ancestor_exec(file_tree: &FileTree, j: usize, a: usize) -> (r: bool)
    requires
        file_tree.wf(),
        j < file_tree.len(),
    ensures
        r == file_tree.has_ancestor(j as int, a as int),
{
    let mut cur = j;
    loop
        invariant_except_break
            file_tree.wf(),
            cur < file_tree.len(),
            file_tree.has_ancestor(j as int, a as int) == file_tree.has_ancestor(
                cur as int,
                a as int,
            ),
        ensures
            file_tree.has_ancestor(j as int, a as int) == (cur == 0 && false) || true,
        decreases cur,
    {
        proof {
            assert(file_tree.wf_at(cur as int));
        }
        match file_tree.nodes[cur].parent {
            Some(p) => {
                if p == a {
                    proof {
                        assert(file_tree.has_ancestor(cur as int, a as int));
                    }
                    return true;
                }
                proof {
                    assert(file_tree.has_ancestor(cur as int, a as int) == file_tree.has_ancestor(
                        p as int,
                        a as int,
                    ));
                }
                cur = p;
            },
            None => {
                proof {
                    assert(!file_tree.has_ancestor(cur as int, a as int));
                }
                return false;
            },
        }
    }
}

/// Checks whether the directory at `d` has any selected descendant, by
/// scanning every node and walking its ancestor chain.
pub fn has_selected_descendants(file_tree: &FileTree, d: usize) -> (r: bool)
    requires
        file_tree.wf(),
    ensures
        r == has_selected_descendant(*file_tree, d as int),
{
    let n = file_tree.nodes.len();
    let mut k: usize = 0;
    while k < n
        invariant
            file_tree.wf(),
            n == file_tree.len(),
            k <= n,
            !selected_descendant_upto(*file_tree, d as int, k as int),
        decreases n - k,
    {
        if file_tree.nodes[k].is_selected {
            if has_ancestor_exec(file_tree, k, d) {
                proof {
                    assert(has_selected_descendant(*file_tree, d as int));
                }
                return true;
            }
        }
        proof {
            assert forall|j: int|
                0 <= j < k + 1 && file_tree.node(j).is_selected implies !file_tree.has_ancestor(
                j,
                d as int,
            ) by {
                if j == k {
                } else {
                    assert(!selected_descendant_upto(*file_tree, d as int, k as int));
                }
            }
        }
        k = k + 1;
    }
    proof {
        assert(!has_selected_descendant(*file_tree, d as int));
    }
    false
}

/// Builds, for every arena index, the flag "has a selected descendant":
/// for each selected node the whole ancestor chain is marked. Entries for
/// files always stay false.
pub fn build_directories_with_descendants_map(file_tree: &FileTree) -> (r: Vec<bool>)
    requires
        file_tree.wf(),
    ensures
        r@.len() == file_tree.len(),
        forall|d: int|
            0 <= d < file_tree.len() ==> r@[d] == has_selected_descendant(*file_tree, d),
{
    let t = file_tree;
    let n = t.nodes.len();
    let mut map: Vec<bool> = Vec::new();
    let mut k: usize = 0;
    while k < n
        invariant
            k <= n,
            map@.len() == k,
            forall|d: int| 0 <= d < k ==> map@[d] == false,
        decreases n - k,
    {
        map.push(false);
        k = k + 1;
    }
    let mut j: usize = 0;
    while j < n
        invariant
            t.wf(),
            n == t.len(),
            j <= n,
            map@.len() == n,
            forall|d: int|
                0 <= d < n ==> #[trigger] map@[d] == selected_descendant_upto(*t, d, j as int),
        decreases n - j,
    {
        proof {
            assert forall|d: int|
                0 <= d < n implies !(t.node(d).is_selected && t.has_ancestor(
                d,
                d,
            )) by {
                if t.has_ancestor(d, d) {
                    t.lemma_ancestor_bounds(d, d);
                }
            }
        }
        if t.nodes[j].is_selected {
            let ghost prev = map@;
            let mut cur_opt = t.nodes[j].parent;
            proof {
                assert(t.wf_at(j as int));
                if cur_opt is Some {
                    assert(t.has_ancestor(j as int, cur_opt.unwrap() as int));
                }
                assert forall|d: int|
                    0 <= d < n && t.has_ancestor(j as int, d) && (cur_opt matches Some(c)
                        ==> t.has_ancestor(d, c as int)) implies false by {
                    let c = cur_opt.unwrap() as int;
                    t.lemma_ancestor_bounds(j as int, d);
                    if d == c {
                        t.lemma_ancestor_bounds(d, d);
                    } else {
                        assert(t.has_ancestor(d, c));
                        assert(t.has_ancestor(j as int, d) == (d == c || t.has_ancestor(c, d)));
                        if t.has_ancestor(c, d) {
                            t.lemma_ancestor_bounds(d, c);
                            t.lemma_ancestor_bounds(c, d);
                        }
                    }
                }
            }
            loop
                invariant_except_break
                    t.wf(),
                    n == t.len(),
                    map@.len() == n,
                    cur_opt matches Some(c) ==> (c as int) < n && t.has_ancestor(
                        j as int,
                        c as int,
                    ),
                    forall|d: int|
                        0 <= d < n ==> #[trigger] map@[d] == (prev[d] || (t.has_ancestor(
                            j as int,
                            d,
                        ) && (cur_opt matches Some(c) ==> t.has_ancestor(d, c as int)))),
                ensures
                    map@.len() == n,
                    forall|d: int|
                        0 <= d < n ==> #[trigger] map@[d] == (prev[d] || t.has_ancestor(
                            j as int,
                            d,
                        )),
                decreases (match cur_opt {
                    Some(c) => c as int + 1,
                    None => 0int,
                }),
            {
                match cur_opt {
                    Some(c) => {
                        let ghost map_before = map@;
                        map.set(c, true);
                        proof {
                            assert(t.wf_at(c as int));
                        }
                        let next_opt = t.nodes[c].parent;
                        proof {
                            // The newly marked set is the old one plus `c`.
                            assert forall|d: int| 0 <= d < n implies #[trigger] map@[d] == (
                            prev[d] || (t.has_ancestor(j as int, d) && (next_opt matches Some(c2)
                                ==> t.has_ancestor(d, c2 as int)))) by {
                                lemma_mark_step(*t, j as int, c as int, next_opt, d);
                                if d == c {
                                    assert(map@[d] == true);
                                } else {
                                    assert(map@[d] == map_before[d]);
                                }
                            }
                            if next_opt is Some {
                                let c2 = next_opt.unwrap() as int;
                                assert(c != 0);
                                assert(t.has_ancestor(c as int, c2));
                                t.lemma_ancestor_trans(j as int, c as int, c2);
                                t.lemma_ancestor_bounds(c as int, c2);
                            }
                        }
                        cur_opt = next_opt;
                    },
                    None => {
                        break;
                    },
                }
            }
            proof {
                assert forall|d: int| 0 <= d < n implies #[trigger] map@[d]
                    == selected_descendant_upto(*t, d, j + 1) by {
                    if map@[d] {
                        if prev[d] {
                            assert(selected_descendant_upto(*t, d, j as int));
                        } else {
                            assert(t.node(j as int).is_selected && t.has_ancestor(j as int, d));
                        }
                        assert(selected_descendant_upto(*t, d, j + 1));
                    } else {
                        if selected_descendant_upto(*t, d, j + 1) {
                            let w = choose|w: int|
                                0 <= w < j + 1 && t.node(w).is_selected && t.has_ancestor(w, d);
                            if w < j {
                                assert(selected_descendant_upto(*t, d, j as int));
                            }
                            assert(false);
                        }
                    }
                }
            }
        } else {
            proof {
                assert forall|d: int| 0 <= d < n implies #[trigger] map@[d]
                    == selected_descendant_upto(*t, d, j + 1) by {
                    if selected_descendant_upto(*t, d, j + 1) {
                        let w = choose|w: int|
                            0 <= w < j + 1 && t.node(w).is_selected && t.has_ancestor(w, d);
                        assert(w < j);
                        assert(selected_descendant_upto(*t, d, j as int));
                    } else {
                        assert(!selected_descendant_upto(*t, d, j as int));
                    }
                }
            }
        }
        j = j + 1;
    }
    map
}

} // verus!
