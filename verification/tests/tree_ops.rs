//! Tree construction, visibility flattening, recursive selection and the
//! relevance aggregation.

use siff::selection::build_directories_with_descendants_map;
use siff::selection::get_selected_files;
use siff::selection::has_selected_descendants;
use siff::selection::select_all_visible_files;
use siff::selection::toggle_selection_recursive;
use siff::selection::unselect_all_items;
use siff::tree::collapse_all_directories;
use siff::tree::display_order_le;
use siff::tree::expand_all_directories;
use siff::tree::flatten_visible_tree;
use siff::tree::FileNode;
use siff::tree::FileTree;

/// proj/ with src/{a.rs, b.rs} and docs/{guide.md}; returns the tree and
/// the indices (src, a, b, docs, guide).
fn sample_tree() -> (FileTree, usize, usize, usize, usize, usize) {
    let root = FileNode::new(String::from("proj"), true, 0);
    let mut tree = FileTree::new(root);
    let src = tree.add_child(0, String::from("src"), true);
    let a = tree.add_child(src, String::from("a.rs"), false);
    let b = tree.add_child(src, String::from("b.rs"), false);
    let docs = tree.add_child(0, String::from("docs"), true);
    let guide = tree.add_child(docs, String::from("guide.md"), false);
    (tree, src, a, b, docs, guide)
}

#[test]
fn test_display_order() {
    // directories come before files; same kind is ordered by name
    assert!(display_order_le(true, "zzz", false, "aaa"));
    assert!(!display_order_le(false, "aaa", true, "zzz"));
    assert!(display_order_le(true, "abc", true, "abd"));
    assert!(!display_order_le(true, "abd", true, "abc"));
    assert!(display_order_le(false, "a", false, "ab"));
    assert!(!display_order_le(false, "ab", false, "a"));
    assert!(display_order_le(false, "same", false, "same"));
}

#[test]
fn test_add_child_paths() {
    let (tree, src, a, _b, _docs, guide) = sample_tree();
    assert_eq!(tree.nodes[src].path, "proj/src");
    assert_eq!(tree.nodes[a].path, "proj/src/a.rs");
    assert_eq!(tree.nodes[guide].path, "proj/docs/guide.md");
    assert_eq!(tree.nodes[a].parent, Some(src));
    assert_eq!(tree.nodes[a].depth, 2);
    assert_eq!(tree.nodes[src].children, vec![a, _b]);
}

#[test]
fn test_flatten_visible_tree() {
    let (mut tree, src, a, b, docs, guide) = sample_tree();
    // nothing is expanded: nothing is visible
    assert_eq!(flatten_visible_tree(&tree), Vec::<usize>::new());
    // expanding the root shows its two children
    tree.nodes[0].is_expanded = true;
    assert_eq!(flatten_visible_tree(&tree), vec![src, docs]);
    // expanding src shows its files, depth first
    tree.nodes[src].is_expanded = true;
    assert_eq!(flatten_visible_tree(&tree), vec![src, a, b, docs]);
    tree.nodes[docs].is_expanded = true;
    assert_eq!(flatten_visible_tree(&tree), vec![src, a, b, docs, guide]);
}

#[test]
fn test_expand_and_collapse_all() {
    let (mut tree, src, a, b, docs, guide) = sample_tree();
    expand_all_directories(&mut tree);
    assert!(tree.nodes[0].is_expanded);
    assert!(tree.nodes[src].is_expanded);
    assert!(tree.nodes[docs].is_expanded);
    assert!(!tree.nodes[a].is_expanded);
    assert_eq!(flatten_visible_tree(&tree), vec![src, a, b, docs, guide]);
    collapse_all_directories(&mut tree);
    assert!(!tree.nodes[0].is_expanded);
    assert!(!tree.nodes[src].is_expanded);
    assert_eq!(flatten_visible_tree(&tree), Vec::<usize>::new());
}

#[test]
fn test_toggle_selection_recursive() {
    let (mut tree, src, a, b, docs, guide) = sample_tree();
    // toggling a directory from false to true selects its whole subtree
    toggle_selection_recursive(&mut tree, src);
    assert!(tree.nodes[src].is_selected);
    assert!(tree.nodes[a].is_selected);
    assert!(tree.nodes[b].is_selected);
    assert!(!tree.nodes[0].is_selected);
    assert!(!tree.nodes[docs].is_selected);
    assert!(!tree.nodes[guide].is_selected);
    // toggling it back clears all of them
    toggle_selection_recursive(&mut tree, src);
    assert!(!tree.nodes[src].is_selected);
    assert!(!tree.nodes[a].is_selected);
    assert!(!tree.nodes[b].is_selected);
    // toggling a file affects only that file
    toggle_selection_recursive(&mut tree, guide);
    assert!(tree.nodes[guide].is_selected);
    assert!(!tree.nodes[docs].is_selected);
}

#[test]
fn test_relevance_map() {
    let (mut tree, src, a, _b, docs, _guide) = sample_tree();
    toggle_selection_recursive(&mut tree, a);
    let map = build_directories_with_descendants_map(&tree);
    // exactly the ancestors of the selected file are marked
    assert!(map[0]);
    assert!(map[src]);
    assert!(!map[docs]);
    assert!(!map[a]);
    assert!(has_selected_descendants(&tree, 0));
    assert!(has_selected_descendants(&tree, src));
    assert!(!has_selected_descendants(&tree, docs));
}

#[test]
fn test_get_selected_files() {
    let (mut tree, src, a, b, _docs, guide) = sample_tree();
    toggle_selection_recursive(&mut tree, src);
    toggle_selection_recursive(&mut tree, guide);
    // files only, in ascending index order; the selected directory is
    // not a file
    assert_eq!(get_selected_files(&tree), vec![a, b, guide]);
}

#[test]
fn test_select_all_visible_and_unselect() {
    let (mut tree, src, a, b, docs, guide) = sample_tree();
    tree.nodes[0].is_expanded = true;
    let visible = flatten_visible_tree(&tree);
    assert_eq!(visible, vec![src, docs]);
    // selecting everything visible selects the directories and their
    // whole subtrees, visible or not
    select_all_visible_files(&mut tree, &visible);
    assert!(tree.nodes[src].is_selected);
    assert!(tree.nodes[a].is_selected);
    assert!(tree.nodes[b].is_selected);
    assert!(tree.nodes[docs].is_selected);
    assert!(tree.nodes[guide].is_selected);
    assert!(!tree.nodes[0].is_selected);
    unselect_all_items(&mut tree);
    assert!(!tree.nodes[src].is_selected);
    assert!(!tree.nodes[a].is_selected);
    assert!(!tree.nodes[guide].is_selected);
}
