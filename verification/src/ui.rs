//! Keyboard handling for the file-tree view: navigation with wrapping,
//! selection toggling, and expanding or collapsing directories.

use vstd::prelude::*;
use crate::app::AppState;
use crate::app::InputKey;
use crate::selection::in_selection_scope;
use crate::selection::toggle_selection_recursive;
use crate::tree::FileNode;
use crate::tree::FileTree;
use crate::tree::flatten_visible_tree;

verus! {

/// The tree after toggling the node at `id`: the node and its whole
/// subtree take the flipped selection state, everything else is as it
/// was.
pub open spec fn toggled_at(pre: FileTree, post: FileTree, id: int) -> bool {
    &&& post.len() == pre.len()
    &&& forall|k: int|
        0 <= k < pre.len() ==> post.node(k) == (FileNode {
            is_selected: (if in_selection_scope(pre, k, id) {
                !pre.node(id).is_selected
            } else {
                pre.node(k).is_selected
            }),
            ..pre.node(k)
        })
}

/// The row the cursor moves to on an upward step, wrapping to the
/// bottom.
pub open spec fn nav_up_index(st: AppState) -> int {
    if st.visible_paths@.len() == 0 {
        st.selected_index as int
    } else if st.selected_index == 0 {
        st.visible_paths@.len() - 1
    } else {
        st.selected_index - 1
    }
}

/// The row the cursor moves to on a downward step, wrapping to the top.
pub open spec fn nav_down_index(st: AppState) -> int {
    if st.visible_paths@.len() == 0 {
        st.selected_index as int
    } else if st.selected_index >= st.visible_paths@.len() - 1 {
        0
    } else {
        st.selected_index + 1
    }
}

/// The arena index under the cursor.
pub open spec fn cursor_target(st: AppState) -> int {
    st.visible_paths@[st.selected_index as int] as int
}

/// True when the cursor rests on an existing row naming an existing
/// node.
pub open spec fn cursor_valid(st: AppState) -> bool {
    st.selected_index < st.visible_paths@.len() && 0 <= cursor_target(st) < st.file_tree.len()
}

/// True when a collapse key applies: the cursor is on an expanded
/// directory.
pub open spec fn collapse_applies(st: AppState) -> bool {
    cursor_valid(st) && st.file_tree.node(cursor_target(st)).is_directory && st.file_tree.node(
        cursor_target(st),
    ).is_expanded
}

/// True when an expand key applies: the cursor is on a collapsed
/// directory.
pub open spec fn expand_applies(st: AppState) -> bool {
    cursor_valid(st) && st.file_tree.node(cursor_target(st)).is_directory && !st.file_tree.node(
        cursor_target(st),
    ).is_expanded
}

/// Whether the file-tree view consumes this key.
pub open spec fn tree_key_handled(key: InputKey) -> bool {
    match key {
        InputKey::Up => true,
        InputKey::Down => true,
        InputKey::Left => true,
        InputKey::Right => true,
        InputKey::Esc => false,
        InputKey::Char(c) => c == 'k' || c == 'j' || c == ' ' || c == 'h' || c == 'l',
    }
}

/// The clamped cursor position after the visible list changed.
pub open spec fn clamped_index(idx: int, len: int) -> int {
    if idx < len {
        idx
    } else if len > 0 {
        len - 1
    } else {
        0
    }
}

/// Rebuilds the visible row list after an expansion change and keeps
/// the cursor inside it.
pub fn update_visible_files(app_state: &mut AppState)
    requires
        old(app_state).wf(),
    ensures
        final(app_state).wf(),
        final(app_state).visible_paths@ == old(app_state).file_tree.spec_visible_paths(),
        final(app_state).selected_index as int == clamped_index(
            old(app_state).selected_index as int,
            final(app_state).visible_paths@.len() as int,
        ),
        *final(app_state) == (AppState {
            visible_paths: final(app_state).visible_paths,
            selected_index: final(app_state).selected_index,
            ..*old(app_state)
        }),
{
    app_state.visible_paths = flatten_visible_tree(&app_state.file_tree);
    if app_state.selected_index >= app_state.visible_paths.len() {
        let len = app_state.visible_paths.len();
        app_state.selected_index = if len == 0 {
            0
        } else {
            len - 1
        };
    }
}

/// Toggles the selection of the node named by a visible row, if it
/// still exists.
pub fn handle_selection_key(app_state: &mut AppState, selected_path: usize)
    requires
        old(app_state).wf(),
    ensures
        final(app_state).wf(),
        (selected_path as int) < old(app_state).file_tree.len() ==> toggled_at(
            old(app_state).file_tree,
            final(app_state).file_tree,
            selected_path as int,
        ),
        (selected_path as int) >= old(app_state).file_tree.len() ==> final(app_state).file_tree
            == old(app_state).file_tree,
        *final(app_state) == (AppState {
            file_tree: final(app_state).file_tree,
            ..*old(app_state)
        }),
{
    if selected_path < app_state.file_tree.nodes.len() {
        toggle_selection_recursive(&mut app_state.file_tree, selected_path);
    }
}

/// Handles one key in the file-tree view: navigation wraps around,
/// space toggles the selection under the cursor, and the left and right
/// keys collapse or expand the directory under the cursor. Returns
/// whether the key was consumed.
pub fn handle_file_tree_input(app_state: &mut AppState, key: InputKey) -> (handled: bool)
    requires
        old(app_state).wf(),
    ensures
        final(app_state).wf(),
        handled == tree_key_handled(key),
        (key == InputKey::Up || key == InputKey::Char('k')) ==> *final(app_state) == (AppState {
            selected_index: nav_up_index(*old(app_state)) as usize,
            ..*old(app_state)
        }),
        (key == InputKey::Down || key == InputKey::Char('j')) ==> *final(app_state) == (AppState {
            selected_index: nav_down_index(*old(app_state)) as usize,
            ..*old(app_state)
        }),
        key == InputKey::Char(' ') ==> {
            &&& *final(app_state) == (AppState {
                file_tree: final(app_state).file_tree,
                ..*old(app_state)
            })
            &&& (cursor_valid(*old(app_state)) ==> toggled_at(
                old(app_state).file_tree,
                final(app_state).file_tree,
                cursor_target(*old(app_state)),
            ))
            &&& (!cursor_valid(*old(app_state)) ==> final(app_state).file_tree == old(app_state).file_tree)
        },
        (key == InputKey::Left || key == InputKey::Char('h')) ==> {
            &&& (collapse_applies(*old(app_state)) ==> {
                &&& final(app_state).file_tree.nodes@ == old(app_state).file_tree.nodes@.update(
                    cursor_target(*old(app_state)),
                    (FileNode {
                        is_expanded: false,
                        ..old(app_state).file_tree.node(cursor_target(*old(app_state)))
                    }),
                )
                &&& final(app_state).visible_paths@ == final(app_state).file_tree.spec_visible_paths()
                &&& final(app_state).selected_index as int == clamped_index(
                    old(app_state).selected_index as int,
                    final(app_state).visible_paths@.len() as int,
                )
                &&& *final(app_state) == (AppState {
                    file_tree: final(app_state).file_tree,
                    visible_paths: final(app_state).visible_paths,
                    selected_index: final(app_state).selected_index,
                    ..*old(app_state)
                })
            })
            &&& (!collapse_applies(*old(app_state)) ==> *final(app_state) == *old(app_state))
        },
        (key == InputKey::Right || key == InputKey::Char('l')) ==> {
            &&& (expand_applies(*old(app_state)) ==> {
                &&& final(app_state).file_tree.nodes@ == old(app_state).file_tree.nodes@.update(
                    cursor_target(*old(app_state)),
                    (FileNode {
                        is_expanded: true,
                        ..old(app_state).file_tree.node(cursor_target(*old(app_state)))
                    }),
                )
                &&& final(app_state).visible_paths@ == final(app_state).file_tree.spec_visible_paths()
                &&& final(app_state).selected_index as int == clamped_index(
                    old(app_state).selected_index as int,
                    final(app_state).visible_paths@.len() as int,
                )
                &&& *final(app_state) == (AppState {
                    file_tree: final(app_state).file_tree,
                    visible_paths: final(app_state).visible_paths,
                    selected_index: final(app_state).selected_index,
                    ..*old(app_state)
                })
            })
            &&& (!expand_applies(*old(app_state)) ==> *final(app_state) == *old(app_state))
        },
        !tree_key_handled(key) ==> *final(app_state) == *old(app_state),
    {
    match key {
        InputKey::Up | InputKey::Char('k') => {
            if app_state.visible_paths.len() == 0 {
            } else if app_state.selected_index == 0 {
                app_state.selected_index = app_state.visible_paths.len() - 1;
            } else {
                app_state.selected_index = app_state.selected_index - 1;
            }
            true
        },
        InputKey::Down | InputKey::Char('j') => {
            if app_state.visible_paths.len() == 0 {
            } else if app_state.selected_index >= app_state.visible_paths.len() - 1 {
                app_state.selected_index = 0;
            } else {
                app_state.selected_index = app_state.selected_index + 1;
            }
            true
        },
        InputKey::Char(' ') => {
            if app_state.selected_index < app_state.visible_paths.len() {
                let v = app_state.visible_paths[app_state.selected_index];
                handle_selection_key(app_state, v);
            }
            true
        },
        InputKey::Left | InputKey::Char('h') => {
            if app_state.selected_index < app_state.visible_paths.len() {
                let v = app_state.visible_paths[app_state.selected_index];
                if v < app_state.file_tree.nodes.len() {
                    if app_state.file_tree.nodes[v].is_directory
                        && app_state.file_tree.nodes[v].is_expanded {
                        let ghost t0 = app_state.file_tree;
                        app_state.file_tree.toggle_node_expansion(v);
                        proof {
                            t0.lemma_wf_flags_only(app_state.file_tree);
                        }
                        update_visible_files(app_state);
                    }
                }
            }
            true
        },
        InputKey::Right | InputKey::Char('l') => {
            if app_state.selected_index < app_state.visible_paths.len() {
                let v = app_state.visible_paths[app_state.selected_index];
                if v < app_state.file_tree.nodes.len() {
                    if app_state.file_tree.nodes[v].is_directory
                        && !app_state.file_tree.nodes[v].is_expanded {
                        let ghost t0 = app_state.file_tree;
                        app_state.file_tree.toggle_node_expansion(v);
                        proof {
                            t0.lemma_wf_flags_only(app_state.file_tree);
                        }
                        update_visible_files(app_state);
                    }
                }
            }
            true
        },
        _ => false,
    }
}

} // verus!
