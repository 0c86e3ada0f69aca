//! The token accounting engine: partial totals, directory sums,
//! idempotent recomputation, pruning and the pending generation.

use siff::accounting::recalculate_directory_token_counts;
use siff::app::App;
use siff::backends::Repomix;
use siff::config::SifConfig;
use siff::selection::toggle_selection_recursive;
use siff::tree::FileNode;
use siff::tree::FileTree;
use siff::types::RepomixOptions;
use siff::types::TokenCacheEntry;

/// proj/ with src/{a.rs, b.rs, c.rs}; returns (app, src, a, b, c).
fn sample_app() -> (App, usize, usize, usize, usize) {
    let root = FileNode::new(String::from("proj"), true, 0);
    let mut tree = FileTree::new(root);
    let src = tree.add_child(0, String::from("src"), true);
    let a = tree.add_child(src, String::from("a.rs"), false);
    let b = tree.add_child(src, String::from("b.rs"), false);
    let c = tree.add_child(src, String::from("c.rs"), false);
    let repomix = Repomix::new(String::from("cache"), String::from("cache/entry"), false);
    let app = App::new(
        String::from("proj"),
        tree,
        RepomixOptions::default(),
        SifConfig::default(),
        repomix,
        0,
    );
    (app, src, a, b, c)
}

#[test]
fn test_token_accounting_scenario() {
    // Three files with known counts {10, 20, 30} under one directory:
    // the total and the directory's own cached entry reach 60; after
    // deselecting the 30-token file both drop to 30.
    let (mut app, src, a, b, c) = sample_app();
    toggle_selection_recursive(&mut app.state.file_tree, a);
    toggle_selection_recursive(&mut app.state.file_tree, b);
    toggle_selection_recursive(&mut app.state.file_tree, c);
    let queued = app.update_token_count_non_blocking(0);
    assert_eq!(queued, vec![a, b, c]);
    assert_eq!(app.pending_count, 3);
    assert!(!app.process_token_result(a, 10, 1));
    assert!(!app.process_token_result(b, 20, 2));
    // partial totals count what is resolved so far
    assert_eq!(app.token_count, 30);
    assert!(app.process_token_result(c, 30, 3));
    assert_eq!(app.token_count, 60);
    assert_eq!(app.state.individual_token_counts[src], TokenCacheEntry::Resolved(60));
    assert_eq!(app.state.individual_token_counts[0], TokenCacheEntry::Resolved(60));
    assert_eq!(app.pending_count, 0);
    // deselect the 30-token file: a refresh drops it from the cache and
    // from every ancestor sum
    toggle_selection_recursive(&mut app.state.file_tree, c);
    let queued2 = app.update_token_count_non_blocking(400);
    assert_eq!(queued2, Vec::<usize>::new());
    assert_eq!(app.token_count, 30);
    assert_eq!(app.state.individual_token_counts[src], TokenCacheEntry::Resolved(30));
    assert_eq!(app.state.individual_token_counts[c], TokenCacheEntry::Absent);
}

#[test]
fn test_partial_totals_monotone() {
    // As results arrive for a fixed selection the grand total never
    // decreases, and it equals the full sum once nothing is pending.
    let (mut app, _src, a, b, c) = sample_app();
    toggle_selection_recursive(&mut app.state.file_tree, a);
    toggle_selection_recursive(&mut app.state.file_tree, b);
    toggle_selection_recursive(&mut app.state.file_tree, c);
    app.update_token_count_non_blocking(0);
    let mut last = app.token_count;
    app.process_token_result(b, 7, 1);
    assert!(app.token_count >= last);
    last = app.token_count;
    app.process_token_result(c, 0, 2);
    assert!(app.token_count >= last);
    last = app.token_count;
    let complete = app.process_token_result(a, 5, 3);
    assert!(app.token_count >= last);
    assert!(complete);
    assert_eq!(app.token_count, 12);
}

#[test]
fn test_recompute_idempotent() {
    // Recomputing the directory sums twice with no intervening mutation
    // yields identical caches: no double accumulation.
    let root = FileNode::new(String::from("proj"), true, 0);
    let mut tree = FileTree::new(root);
    let src = tree.add_child(0, String::from("src"), true);
    let a = tree.add_child(src, String::from("a.rs"), false);
    let b = tree.add_child(src, String::from("b.rs"), false);
    toggle_selection_recursive(&mut tree, a);
    toggle_selection_recursive(&mut tree, b);
    let mut cache = vec![
        TokenCacheEntry::Absent,
        TokenCacheEntry::Absent,
        TokenCacheEntry::Resolved(11),
        TokenCacheEntry::Resolved(31),
    ];
    recalculate_directory_token_counts(&tree, &mut cache);
    let first = cache.clone();
    assert_eq!(first[src], TokenCacheEntry::Resolved(42));
    assert_eq!(first[0], TokenCacheEntry::Resolved(42));
    recalculate_directory_token_counts(&tree, &mut cache);
    assert_eq!(cache, first);
}

#[test]
fn test_cache_pruning() {
    // Deselecting a file with no other selected relatives removes its
    // entry and the whole branch's entries on the next refresh.
    let (mut app, src, a, _b, _c) = sample_app();
    toggle_selection_recursive(&mut app.state.file_tree, a);
    app.update_token_count_non_blocking(0);
    app.process_token_result(a, 10, 1);
    assert_eq!(app.state.individual_token_counts[a], TokenCacheEntry::Resolved(10));
    assert_eq!(app.state.individual_token_counts[src], TokenCacheEntry::Resolved(10));
    toggle_selection_recursive(&mut app.state.file_tree, a);
    app.update_token_count_non_blocking(400);
    // nothing is selected any more: the whole cache is cleared
    assert_eq!(app.state.individual_token_counts[a], TokenCacheEntry::Absent);
    assert_eq!(app.state.individual_token_counts[src], TokenCacheEntry::Absent);
    assert_eq!(app.token_count, 0);
}

#[test]
fn test_refresh_marks_pending_and_zeroes_directories() {
    let (mut app, src, a, b, _c) = sample_app();
    toggle_selection_recursive(&mut app.state.file_tree, a);
    toggle_selection_recursive(&mut app.state.file_tree, b);
    let queued = app.update_token_count_non_blocking(0);
    assert_eq!(queued, vec![a, b]);
    assert_eq!(app.state.individual_token_counts[a], TokenCacheEntry::Pending);
    assert_eq!(app.state.individual_token_counts[b], TokenCacheEntry::Pending);
    assert_eq!(app.state.individual_token_counts[src], TokenCacheEntry::Resolved(0));
    assert_eq!(app.token_count, 0);
    // a second refresh does not re-enqueue pending files
    let queued2 = app.update_token_count_non_blocking(400);
    assert_eq!(queued2, Vec::<usize>::new());
    assert_eq!(app.pending_count, 0);
}

#[test]
fn test_debounce_gate() {
    let (mut app, _src, a, _b, _c) = sample_app();
    toggle_selection_recursive(&mut app.state.file_tree, a);
    // the debounce interval (300 ms) has not passed: nothing happens
    let queued = app.update_token_count_debounced(100);
    assert_eq!(queued, Vec::<usize>::new());
    assert_eq!(app.state.individual_token_counts[a], TokenCacheEntry::Absent);
    // after the interval the refresh is applied
    let queued2 = app.update_token_count_debounced(301);
    assert_eq!(queued2, vec![a]);
    assert_eq!(app.state.individual_token_counts[a], TokenCacheEntry::Pending);
}
