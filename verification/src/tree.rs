//! The tree store: a flat arena of file-system nodes.
//!
//! Nodes live in one `Vec`, keyed by index. Every node except the scan
//! root has a parent with a smaller index, and a directory's `children`
//! list holds exactly the indices whose `parent` points back at it. All
//! recursive operations over the tree are phrased as walks over these
//! indices, and the `parent < child` ordering gives every walk an obvious
//! termination measure.

use vstd::prelude::*;
use vstd::pervasive::VecAdditionalExecFns;
use vstd::string::StrSliceExecFns;
use vstd::string::StringSliceAdditionalSpecFns;
use vstd::string::StringExecFns;

verus! {

/// One file-system entry: a single file or directory in the scanned tree.
#[derive(Debug)]
pub struct FileNode {
    /// the full path of the file or directory
    pub path: String,
    /// just the file name or directory name (last component of the path)
    pub name: String,
    /// true for a directory, false for a file
    pub is_directory: bool,
    /// whether the entry is currently selected for processing
    pub is_selected: bool,
    /// for directories: whether the directory is expanded to show children
    pub is_expanded: bool,
    /// for directories: arena indices of the child entries
    pub children: Vec<usize>,
    /// arena index of the parent entry; `None` only for the scan root
    pub parent: Option<usize>,
    /// how deep the node is in the tree (0 = scan root)
    pub depth: usize,
}

/// The component of `s` after its last `/`, or all of `s` if it has none.
pub open spec fn spec_name_of(s: Seq<char>) -> Seq<char>
    decreases s.len(),
{
    if s.len() == 0 {
        s
    } else if s.last() == '/' {
        Seq::empty()
    } else {
        spec_name_of(s.drop_last()).push(s.last())
    }
}

/// Finds the name component of a path: everything after the last `/`.
fn name_of_path(path: &str) -> (r: String)
    ensures
        r@ == spec_name_of(path@),
{
    let len = path.unicode_len();
    let mut i: usize = len;
    proof {
        assert(path@.take(len as int) =~= path@);
        assert(spec_name_of(path@) =~= spec_name_of(path@.take(len as int)) + path@.subrange(
            len as int,
            len as int,
        ));
    }
    while i > 0
        invariant_except_break
            i <= len,
            len == path@.len(),
            spec_name_of(path@) =~= spec_name_of(path@.take(i as int)) + path@.subrange(
                i as int,
                len as int,
            ),
            forall|j: int| i <= j < len ==> path@[j] != '/',
        ensures
            i <= len,
            len == path@.len(),
            spec_name_of(path@) =~= spec_name_of(path@.take(i as int)) + path@.subrange(
                i as int,
                len as int,
            ),
            i > 0 ==> path@[i - 1] == '/',
        decreases i,
    {
        let c = path.get_char(i - 1);
        if c == '/' {
            break;
        }
        proof {
            assert(path@.take(i as int).last() == path@[i - 1]);
            assert(path@.take(i as int).drop_last() =~= path@.take(i - 1));
            assert(spec_name_of(path@.take(i as int)) =~= spec_name_of(path@.take(i - 1)).push(
                path@[i - 1],
            ));
            assert(spec_name_of(path@.take(i - 1)) + path@.subrange(i - 1, len as int)
                =~= spec_name_of(path@.take(i as int)) + path@.subrange(i as int, len as int));
        }
        i = i - 1;
    }
    proof {
        if i > 0 {
            assert(path@.take(i as int).last() == path@[i - 1]);
            assert(spec_name_of(path@.take(i as int)) =~= Seq::<char>::empty());
        } else {
            assert(path@.take(0) =~= Seq::<char>::empty());
            assert(spec_name_of(path@.take(0)) =~= Seq::<char>::empty());
        }
        assert(spec_name_of(path@) =~= path@.subrange(i as int, len as int));
    }
    let r = String::from_str(path.substring_char(i, len));
    r
}

impl FileNode {
    /// Creates a new, unattached file node with the given path and metadata,
    /// deriving the display name from the last path component.
    pub fn new(path: String, is_directory: bool, depth: usize) -> (r: FileNode)
        ensures
            r.path == path,
            r.name@ == spec_name_of(path@),
            r.is_directory == is_directory,
            r.is_selected == false,
            r.is_expanded == false,
            r.children@ =~= Seq::<usize>::empty(),
            r.parent is None,
            r.depth == depth,
    {
        let name = name_of_path(path.as_str());
        FileNode {
            path,
            name,
            is_directory,
            is_selected: false,
            is_expanded: false,
            children: Vec::new(),
            parent: None,
            depth,
        }
    }

    /// Toggles the expanded state of a directory.
    /// Only applies to directories; files cannot be expanded.
    pub fn toggle_expansion(&mut self)
        ensures
            final(self).is_expanded == (if old(self).is_directory {
                !old(self).is_expanded
            } else {
                old(self).is_expanded
            }),
            final(self).path == old(self).path,
            final(self).name == old(self).name,
            final(self).is_directory == old(self).is_directory,
            final(self).is_selected == old(self).is_selected,
            final(self).children == old(self).children,
            final(self).parent == old(self).parent,
            final(self).depth == old(self).depth,
    {
        if self.is_directory {
            self.is_expanded = !self.is_expanded;
        }
    }
}

/// An empty placeholder node, used only to swap real nodes in and out of
/// the arena while one of their fields is updated.
fn placeholder_node() -> FileNode {
    FileNode {
        path: String::new(),
        name: String::new(),
        is_directory: false,
        is_selected: false,
        is_expanded: false,
        children: Vec::new(),
        parent: None,
        depth: 0,
    }
}

/// The flat arena of scanned file-system nodes.
///
/// Index 0 is always the scan root. The well-formedness predicate
/// [`FileTree::wf`] ties the `parent` pointers and `children` lists
/// together and orders every child after its parent.
#[derive(Debug)]
pub struct FileTree {
    /// the nodes, keyed by arena index; index 0 is the scan root
    pub nodes: Vec<FileNode>,
}

impl FileTree {
    /// Number of nodes in the arena.
    pub open spec fn len(self) -> nat {
        self.nodes@.len()
    }

    /// The node at index `i`.
    pub open spec fn node(self, i: int) -> FileNode {
        self.nodes@[i]
    }

    /// Local well-formedness of the node at index `j`: parent links point
    /// down, depths follow parents, and parent/child references agree.
    pub open spec fn wf_at(self, j: int) -> bool {
        &&& (j == 0 ==> self.node(j).parent is None && self.node(j).depth == 0)
        &&& (j != 0 ==> {
            let p = self.node(j).parent.unwrap() as int;
            &&& self.node(j).parent is Some
            &&& 0 <= p < j
            &&& self.node(p).is_directory
            &&& self.node(j).depth == self.node(p).depth + 1
            &&& self.node(j).depth <= j
            &&& self.node(p).children@.contains(j as usize)
        })
        &&& forall|k: int|
            0 <= k < self.node(j).children@.len() ==> {
                let c = #[trigger] self.node(j).children@[k] as int;
                &&& j < c < self.len()
                &&& self.node(c).parent == Some(j as usize)
            }
    }

    /// Well-formedness of the whole arena.
    pub open spec fn wf(self) -> bool {
        &&& self.len() >= 1
        &&& forall|j: int| 0 <= j < self.len() ==> self.wf_at(j)
    }

    /// True if node `a` lies on the parent chain of node `j` (strictly
    /// above it). The scan root is an ancestor of every other node.
    pub open spec fn has_ancestor(self, j: int, a: int) -> bool
        decreases j,
    {
        if j <= 0 || j >= self.len() {
            false
        } else {
            match self.node(j).parent {
                Some(p) => if 0 <= (p as int) < j {
                    (p as int) == a || self.has_ancestor(p as int, a)
                } else {
                    false
                },
                None => false,
            }
        }
    }

    /// An ancestor has a smaller index and is a directory.
    pub proof fn lemma_ancestor_bounds(self, j: int, a: int)
        requires
            self.wf(),
            self.has_ancestor(j, a),
        ensures
            0 <= a < j,
            self.node(a).is_directory,
        decreases j,
    {
        assert(self.wf_at(j));
        let p = self.node(j).parent.unwrap() as int;
        if p != a {
            self.lemma_ancestor_bounds(p, a);
        }
    }

    /// Ancestors of ancestors are ancestors.
    pub proof fn lemma_ancestor_trans(self, j: int, a: int, b: int)
        requires
            self.wf(),
            self.has_ancestor(j, a),
            self.has_ancestor(a, b),
        ensures
            self.has_ancestor(j, b),
        decreases j,
    {
        assert(self.wf_at(j));
        let p = self.node(j).parent.unwrap() as int;
        if p == a {
        } else {
            self.lemma_ancestor_trans(p, a, b);
        }
    }

    /// Two ancestors of the same node are comparable: they lie on one
    /// parent chain.
    pub proof fn lemma_ancestor_comparable(self, j: int, a: int, b: int)
        requires
            self.wf(),
            self.has_ancestor(j, a),
            self.has_ancestor(j, b),
        ensures
            a == b || self.has_ancestor(a, b) || self.has_ancestor(b, a),
        decreases j,
    {
        assert(self.wf_at(j));
        let p = self.node(j).parent.unwrap() as int;
        if p == a {
            // b is p itself or an ancestor of p = a
        } else if p == b {
        } else {
            self.lemma_ancestor_comparable(p, a, b);
        }
    }

    /// Creates a fresh arena holding only the scan root.
    pub fn new(root: FileNode) -> (r: FileTree)
        ensures
            r.len() == 1,
            r.node(0) == (FileNode {
                is_selected: false,
                is_expanded: root.is_expanded,
                children: root.children,
                parent: None,
                depth: 0,
                ..root
            }),
            r.node(0).children@ == root.children@,
            r.wf() <==> root.children@.len() == 0,
    {
        let node = FileNode {
            path: root.path,
            name: root.name,
            is_directory: root.is_directory,
            is_selected: false,
            is_expanded: root.is_expanded,
            children: root.children,
            parent: None,
            depth: 0,
        };
        let mut nodes: Vec<FileNode> = Vec::new();
        nodes.push(node);
        let r = FileTree { nodes };
        proof {
            if r.node(0).children@.len() == 0 {
                assert(r.wf_at(0));
                assert forall|j: int| 0 <= j < r.len() implies r.wf_at(j) by {
                    assert(j == 0);
                }
            } else {
                assert(!r.wf_at(0)) by {
                    let c = r.node(0).children@[0] as int;
                    assert(!(0 < c < r.len()));
                }
            }
        }
        r
    }

    /// Replaces the node at index `i` with `node`, returning the old node.
    fn swap_node(&mut self, i: usize, node: FileNode) -> (r: FileNode)
        requires
            i < old(self).len(),
        ensures
            final(self).nodes@ == old(self).nodes@.update(i as int, node),
            r == old(self).node(i as int),
    {
        let mut tmp = node;
        self.nodes.set_and_swap(i, &mut tmp);
        tmp
    }

    /// Sets the selection flag of the node at index `i`, leaving every
    /// other field and every other node unchanged.
    pub fn set_selected(&mut self, i: usize, b: bool)
        requires
            i < old(self).len(),
        ensures
            final(self).nodes@ == old(self).nodes@.update(
                i as int,
                (FileNode { is_selected: b, ..old(self).node(i as int) }),
            ),
    {
        let mut node = self.swap_node(i, placeholder_node());
        node.is_selected = b;
        let _ = self.swap_node(i, node);
        proof {
            assert(final(self).nodes@ =~= old(self).nodes@.update(
                i as int,
                (FileNode { is_selected: b, ..old(self).node(i as int) }),
            ));
        }
    }

    /// Sets the expansion flag of the node at index `i`, leaving every
    /// other field and every other node unchanged.
    pub fn set_expanded(&mut self, i: usize, b: bool)
        requires
            i < old(self).len(),
        ensures
            final(self).nodes@ == old(self).nodes@.update(
                i as int,
                (FileNode { is_expanded: b, ..old(self).node(i as int) }),
            ),
    {
        let mut node = self.swap_node(i, placeholder_node());
        node.is_expanded = b;
        let _ = self.swap_node(i, node);
        proof {
            assert(final(self).nodes@ =~= old(self).nodes@.update(
                i as int,
                (FileNode { is_expanded: b, ..old(self).node(i as int) }),
            ));
        }
    }

    /// Attaches a new child entry under `parent_id` and returns its index.
    /// The child's path is the parent's path, a `/`, and the child's name.
    pub fn add_child(&mut self, parent_id: usize, name: String, is_directory: bool) -> (id:
        usize)
        requires
            old(self).wf(),
            parent_id < old(self).len(),
            old(self).node(parent_id as int).is_directory,
            old(self).len() < usize::MAX,
        ensures
            final(self).wf(),
            final(self).len() == old(self).len() + 1,
            id == old(self).len(),
            final(self).node(id as int).path@ == old(self).node(parent_id as int).path@ + "/"@
                + name@,
            final(self).node(id as int).name == name,
            final(self).node(id as int).is_directory == is_directory,
            final(self).node(id as int).is_selected == false,
            final(self).node(id as int).is_expanded == false,
            final(self).node(id as int).children@ =~= Seq::<usize>::empty(),
            final(self).node(id as int).parent == Some(parent_id),
            final(self).node(id as int).depth == old(self).node(parent_id as int).depth + 1,
            final(self).node(parent_id as int).children@ == old(self).node(
                parent_id as int,
            ).children@.push(id),
            final(self).node(parent_id as int).path == old(self).node(parent_id as int).path,
            final(self).node(parent_id as int).name == old(self).node(parent_id as int).name,
            final(self).node(parent_id as int).is_directory == old(self).node(
                parent_id as int,
            ).is_directory,
            final(self).node(parent_id as int).is_selected == old(self).node(
                parent_id as int,
            ).is_selected,
            final(self).node(parent_id as int).is_expanded == old(self).node(
                parent_id as int,
            ).is_expanded,
            final(self).node(parent_id as int).parent == old(self).node(parent_id as int).parent,
            final(self).node(parent_id as int).depth == old(self).node(parent_id as int).depth,
            forall|j: int|
                0 <= j < old(self).len() && j != parent_id ==> final(self).node(j) == old(
                    self,
                ).node(j),
    {
        let id = self.nodes.len();
        let mut path = self.nodes[parent_id].path.clone();
        path.append("/");
        path.append(name.as_str());
        let depth = self.nodes[parent_id].depth;
        proof {
            assert(old(self).wf_at(parent_id as int));
        }
        let node = FileNode {
            path,
            name,
            is_directory,
            is_selected: false,
            is_expanded: false,
            children: Vec::new(),
            parent: Some(parent_id),
            depth: depth + 1,
        };
        self.nodes.push(node);
        let mut pnode = self.swap_node(parent_id, placeholder_node());
        pnode.children.push(id);
        let _ = self.swap_node(parent_id, pnode);
        proof {
            let post = *self;
            let pre = *old(self);
            assert(post.node(id as int).children@ =~= Seq::<usize>::empty());
            assert forall|j: int| 0 <= j < post.len() implies post.wf_at(j) by {
                if j < pre.len() {
                    assert(pre.wf_at(j));
                }
                if j == id {
                    assert(post.node(parent_id as int).children@.last() == id as usize);
                    assert(post.node(parent_id as int).children@.contains(id as usize));
                } else if j == parent_id {
                    let oldc = pre.node(j).children@;
                    let newc = post.node(j).children@;
                    assert(newc =~= oldc.push(id as usize));
                    assert forall|k: int| 0 <= k < newc.len() implies {
                        let c = #[trigger] newc[k] as int;
                        j < c < post.len() && post.node(c).parent == Some(j as usize)
                    } by {
                        if k < oldc.len() {
                            assert(oldc[k] == newc[k]);
                        }
                    }
                    if j != 0 {
                        let p = pre.node(j).parent.unwrap() as int;
                        assert(p != j);
                        assert(pre.node(p).children@.contains(j as usize));
                        if p == parent_id {
                            let w = choose|w: int|
                                0 <= w < pre.node(p).children@.len() && pre.node(p).children@[w]
                                    == j as usize;
                            assert(post.node(p).children@[w] == j as usize);
                        }
                    }
                } else {
                    if j != 0 {
                        let p = post.node(j).parent.unwrap() as int;
                        assert(pre.node(p).children@.contains(j as usize));
                        if p == parent_id {
                            let w = choose|w: int|
                                0 <= w < pre.node(p).children@.len() && pre.node(p).children@[w]
                                    == j as usize;
                            assert(post.node(p).children@[w] == j as usize);
                        }
                    }
                    assert forall|k: int| 0 <= k < post.node(j).children@.len() implies {
                        let c = #[trigger] post.node(j).children@[k] as int;
                        j < c < post.len() && post.node(c).parent == Some(j as usize)
                    } by {
                        assert(pre.node(j).children@[k] == post.node(j).children@[k]);
                        let c = post.node(j).children@[k] as int;
                        assert(c != id);
                    }
                }
            }
        }
        id
    }

    /// The sequence of indices that a depth-first walk of the expanded
    /// part of the subtree rooted at `id` visits, `id` itself first.
    pub open spec fn visible_subtree(self, id: int) -> Seq<usize>
        decreases self.len() - id, 1int, 0int,
    {
        if 0 <= id < self.len() {
            seq![id as usize] + if self.node(id).is_directory && self.node(id).is_expanded {
                self.visible_children(id, 0)
            } else {
                Seq::empty()
            }
        } else {
            Seq::empty()
        }
    }

    /// The concatenation of the visible subtrees of `id`'s children,
    /// starting from child position `k`.
    pub open spec fn visible_children(self, id: int, k: int) -> Seq<usize>
        decreases self.len() - id, 0int, self.node(id).children@.len() - k,
    {
        if 0 <= id < self.len() && 0 <= k < self.node(id).children@.len() {
            let c = self.node(id).children@[k] as int;
            (if id < c < self.len() {
                self.visible_subtree(c)
            } else {
                Seq::empty()
            }) + self.visible_children(id, k + 1)
        } else {
            Seq::empty()
        }
    }

    /// The currently visible rows of the tree view: the expanded part of
    /// the tree in depth-first order, with the scan root itself skipped.
    pub open spec fn spec_visible_paths(self) -> Seq<usize> {
        if self.len() > 0 && self.node(0).is_directory && self.node(0).is_expanded {
            self.visible_children(0, 0)
        } else {
            Seq::empty()
        }
    }

    /// Toggles the expansion flag of the directory at index `i`, leaving
    /// everything else unchanged. Files are left as they are.
    pub fn toggle_node_expansion(&mut self, i: usize)
        requires
            i < old(self).len(),
        ensures
            final(self).nodes@ == old(self).nodes@.update(
                i as int,
                (FileNode {
                    is_expanded: (if old(self).node(i as int).is_directory {
                        !old(self).node(i as int).is_expanded
                    } else {
                        old(self).node(i as int).is_expanded
                    }),
                    ..old(self).node(i as int)
                }),
            ),
    {
        let mut node = self.swap_node(i, placeholder_node());
        node.toggle_expansion();
        let _ = self.swap_node(i, node);
        proof {
            assert(final(self).nodes@ =~= old(self).nodes@.update(
                i as int,
                (FileNode {
                    is_expanded: (if old(self).node(i as int).is_directory {
                        !old(self).node(i as int).is_expanded
                    } else {
                        old(self).node(i as int).is_expanded
                    }),
                    ..old(self).node(i as int)
                }),
            ));
        }
    }

    /// Selection and expansion flags do not affect well-formedness.
    pub proof fn lemma_wf_flags_only(self, other: FileTree)
        requires
            self.wf(),
            other.len() == self.len(),
            forall|j: int|
                0 <= j < self.len() ==> (#[trigger] other.node(j)).is_directory == self.node(
                    j,
                ).is_directory && other.node(j).children == self.node(j).children && other.node(
                    j,
                ).parent == self.node(j).parent && other.node(j).depth == self.node(j).depth,
        ensures
            other.wf(),
    {
        assert forall|j: int| 0 <= j < other.len() implies other.wf_at(j) by {
            assert(self.wf_at(j));
            assert forall|k: int| 0 <= k < other.node(j).children@.len() implies {
                let c = #[trigger] other.node(j).children@[k] as int;
                j < c < other.len() && other.node(c).parent == Some(j as usize)
            } by {
                let c = other.node(j).children@[k] as int;
                assert(self.node(j).children@[k] == other.node(j).children@[k]);
            }
        }
    }
    /// Appends the visible rows of the subtree rooted at `id` to
    /// `visible_paths`, in depth-first order.
    fn flatten_node_recursive(&self, id: usize, visible_paths: &mut Vec<usize>)
        requires
            self.wf(),
            id < self.len(),
        ensures
            final(visible_paths)@ =~= old(visible_paths)@ + self.visible_subtree(id as int),
        decreases self.len() - id, 1int, 0int,
    {
        let ghost base = visible_paths@;
        visible_paths.push(id);
        if self.nodes[id].is_directory && self.nodes[id].is_expanded {
            let n_children = self.nodes[id].children.len();
            let mut k: usize = 0;
            while k < n_children
                invariant
                    self.wf(),
                    id < self.len(),
                    n_children == self.node(id as int).children@.len(),
                    k <= n_children,
                    visible_paths@ + self.visible_children(id as int, k as int) =~= base
                        + self.visible_subtree(id as int),
                decreases n_children - k,
            {
                let c = self.nodes[id].children[k];
                proof {
                    assert(self.wf_at(id as int));
                    assert(id < c < self.len());
                }
                let ghost before = visible_paths@;
                self.flatten_node_recursive(c, visible_paths);
                proof {
                    assert(self.visible_children(id as int, k as int) =~= self.visible_subtree(
                        c as int,
                    ) + self.visible_children(id as int, k + 1));
                    assert(visible_paths@ + self.visible_children(id as int, k + 1) =~= base
                        + self.visible_subtree(id as int));
                }
                k = k + 1;
            }
        } else {
            proof {
                assert(visible_paths@ =~= base + self.visible_subtree(id as int));
            }
        }
    }
}

/// Flattens the file tree into the list of currently visible indices, in
/// the order the tree view shows them: the expanded part of the tree in
/// depth-first order, skipping the scan root itself.
pub fn flatten_visible_tree(file_tree: &FileTree) -> (r: Vec<usize>)
    requires
        file_tree.wf(),
    ensures
        r@ == file_tree.spec_visible_paths(),
{
    let mut visible_paths: Vec<usize> = Vec::new();
    if file_tree.nodes.len() == 0 {
        return visible_paths;
    }
    if file_tree.nodes[0].is_directory && file_tree.nodes[0].is_expanded {
        let n_children = file_tree.nodes[0].children.len();
        let mut k: usize = 0;
        while k < n_children
            invariant
                file_tree.wf(),
                file_tree.len() > 0,
                n_children == file_tree.node(0).children@.len(),
                k <= n_children,
                file_tree.node(0).is_directory && file_tree.node(0).is_expanded,
                visible_paths@ + file_tree.visible_children(0, k as int) =~= file_tree.visible_children(
                    0,
                    0,
                ),
            decreases n_children - k,
        {
            let c = file_tree.nodes[0].children[k];
            proof {
                assert(file_tree.wf_at(0));
                assert(0 < c < file_tree.len());
            }
            file_tree.flatten_node_recursive(c, &mut visible_paths);
            proof {
                assert(file_tree.visible_children(0, k as int) =~= file_tree.visible_subtree(
                    c as int,
                ) + file_tree.visible_children(0, k + 1));
                assert(visible_paths@ + file_tree.visible_children(0, k + 1)
                    =~= file_tree.visible_children(0, 0));
            }
            k = k + 1;
        }
    }
    proof {
        assert(visible_paths@ =~= file_tree.spec_visible_paths());
    }
    visible_paths
}

/// Lexicographic order on byte sequences.
pub open spec fn spec_bytes_le(x: Seq<u8>, y: Seq<u8>) -> bool
    decreases x.len(),
{
    if x.len() == 0 {
        true
    } else if y.len() == 0 {
        false
    } else if x[0] < y[0] {
        true
    } else if x[0] > y[0] {
        false
    } else {
        spec_bytes_le(x.skip(1), y.skip(1))
    }
}

/// The fixed display order of a directory's entries: directories before
/// files, then by name.
pub open spec fn spec_display_le(
    a_is_directory: bool,
    a_name: Seq<u8>,
    b_is_directory: bool,
    b_name: Seq<u8>,
) -> bool {
    if a_is_directory && !b_is_directory {
        true
    } else if !a_is_directory && b_is_directory {
        false
    } else {
        spec_bytes_le(a_name, b_name)
    }
}

/// Compares two names byte for byte.
fn bytes_le(a: &[u8], b: &[u8]) -> (r: bool)
    ensures
        r == spec_bytes_le(a@, b@),
{
    let la = a.len();
    let lb = b.len();
    let mut i: usize = 0;
    proof {
        assert(a@.skip(0) =~= a@);
        assert(b@.skip(0) =~= b@);
    }
    loop
        invariant_except_break
            i <= la,
            i <= lb,
            la == a@.len(),
            lb == b@.len(),
            spec_bytes_le(a@, b@) == spec_bytes_le(a@.skip(i as int), b@.skip(i as int)),
        ensures
            spec_bytes_le(a@, b@) == (if i < la && i < lb {
                a@[i as int] < b@[i as int]
            } else {
                la <= lb
            }),
        decreases la - i,
    {
        if i >= la || i >= lb {
            proof {
                if i >= la {
                    assert(a@.skip(i as int).len() == 0);
                    assert(spec_bytes_le(a@.skip(i as int), b@.skip(i as int)));
                } else {
                    assert(b@.skip(i as int).len() == 0);
                    assert(a@.skip(i as int).len() > 0);
                    assert(!spec_bytes_le(a@.skip(i as int), b@.skip(i as int)));
                }
            }
            break;
        }
        if a[i] != b[i] {
            proof {
                assert(a@.skip(i as int)[0] == a@[i as int]);
                assert(b@.skip(i as int)[0] == b@[i as int]);
            }
            break;
        }
        proof {
            assert(a@.skip(i as int)[0] == a@[i as int]);
            assert(b@.skip(i as int)[0] == b@[i as int]);
            assert(a@.skip(i as int).skip(1) =~= a@.skip(i + 1));
            assert(b@.skip(i as int).skip(1) =~= b@.skip(i + 1));
        }
        i = i + 1;
    }
    if i < la && i < lb {
        a[i] < b[i]
    } else {
        la <= lb
    }
}

/// Decides the display order of two scanned entries: directories come
/// before files, entries of the same kind are ordered by name. This is
/// the order every directory's `children` list is kept in.
pub fn display_order_le(
    a_is_directory: bool,
    a_name: &str,
    b_is_directory: bool,
    b_name: &str,
) -> (r: bool)
    ensures
        r == spec_display_le(a_is_directory, a_name.spec_bytes(), b_is_directory, b_name.spec_bytes()),
{
    if a_is_directory && !b_is_directory {
        true
    } else if !a_is_directory && b_is_directory {
        false
    } else {
        bytes_le(a_name.as_bytes(), b_name.as_bytes())
    }
}

/// Expands every directory in the file tree, so that all nested
/// directories become visible.
pub fn expand_all_directories(file_tree: &mut FileTree)
    ensures
        final(file_tree).len() == old(file_tree).len(),
        forall|j: int|
            0 <= j < old(file_tree).len() ==> final(file_tree).node(j) == (FileNode {
                is_expanded: (old(file_tree).node(j).is_directory || old(file_tree).node(
                    j,
                ).is_expanded),
                ..old(file_tree).node(j)
            }),
{
    let n = file_tree.nodes.len();
    let mut k: usize = 0;
    while k < n
        invariant
            n == file_tree.len(),
            n == old(file_tree).len(),
            k <= n,
            forall|j: int|
                k <= j < n ==> file_tree.node(j) == old(file_tree).node(j),
            forall|j: int|
                0 <= j < k ==> file_tree.node(j) == (FileNode {
                    is_expanded: (old(file_tree).node(j).is_directory || old(file_tree).node(
                        j,
                    ).is_expanded),
                    ..old(file_tree).node(j)
                }),
        decreases n - k,
    {
        if file_tree.nodes[k].is_directory {
            file_tree.set_expanded(k, true);
        }
        k = k + 1;
    }
}

/// Collapses every directory in the file tree, hiding all nested content.
pub fn collapse_all_directories(file_tree: &mut FileTree)
    ensures
        final(file_tree).len() == old(file_tree).len(),
        forall|j: int|
            0 <= j < old(file_tree).len() ==> final(file_tree).node(j) == (FileNode {
                is_expanded: false,
                ..old(file_tree).node(j)
            }),
{
    let n = file_tree.nodes.len();
    let mut k: usize = 0;
    while k < n
        invariant
            n == file_tree.len(),
            n == old(file_tree).len(),
            k <= n,
            forall|j: int|
                k <= j < n ==> file_tree.node(j) == old(file_tree).node(j),
            forall|j: int|
                0 <= j < k ==> file_tree.node(j) == (FileNode {
                    is_expanded: false,
                    ..old(file_tree).node(j)
                }),
        decreases n - k,
    {
        file_tree.set_expanded(k, false);
        k = k + 1;
    }
}

} // verus!
