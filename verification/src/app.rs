//! The control-loop state: tree, selection, token cache, status line and
//! the run coordinator, with every transition verified.
//!
//! The embedding application owns the clock, the terminal and the
//! channels; it feeds events and timestamps in and carries queued work
//! and run requests out.

use vstd::prelude::*;
use vstd::pervasive::VecAdditionalExecFns;
use vstd::string::StringExecFns;
use vstd::string::StrSliceExecFns;
use crate::accounting::aggregated;
use crate::accounting::clamp64;
use crate::accounting::compute_selected_total;
use crate::accounting::dir_sum;
use crate::accounting::is_relevant;
use crate::accounting::recalculate_directory_token_counts;
use crate::accounting::spec_total;
use crate::backends::DownloadStatus;
use crate::backends::Repomix;
use crate::backends::validate_isolated_repomix_options;
use crate::backends::validate_yek_options;
use crate::config::SifConfig;
use crate::numfmt::spec_decimal;
use crate::numfmt::u64_to_string;
use crate::selection::covered_by_visible;
use crate::selection::get_selected_files;
use crate::selection::has_selected_descendants;
use crate::selection::in_selection_scope;
use crate::selection::num_selected_files;
use crate::accounting::count_resolved_entries;
use crate::accounting::sat_add_u64;
use crate::selection::select_all_visible_files;
use crate::selection::toggle_selection_recursive;
use crate::selection::unselect_all_items;
use crate::tree::FileNode;
use crate::tree::FileTree;
use crate::tree::collapse_all_directories;
use crate::tree::expand_all_directories;
use crate::tree::flatten_visible_tree;
use crate::types::Backend;
use crate::types::BackendRequest;
use crate::types::BackendResult;
use crate::types::Focus;
use crate::types::OutputFormat;
use crate::types::RepomixOptions;
use crate::types::TokenCacheEntry;
use crate::ui::cursor_target;
use crate::ui::cursor_valid;
use crate::ui::nav_down_index;
use crate::ui::nav_up_index;
use crate::ui::toggled_at;

verus! {

/// Ceiling on how many files one refresh may enqueue for background
/// token computation.
pub const MAX_FILES_FOR_TOKEN_CALC: usize = 1000;

/// A keyboard key, as the engine sees it after the terminal layer has
/// decoded the raw event.
#[derive(Debug, Clone, Copy, PartialEq, Eq, Structural)]
pub enum InputKey {
    Up,
    Down,
    Left,
    Right,
    Esc,
    Char(char),
}

/// What category of status message is showing, deciding how long it
/// lingers before the periodic housekeeping clears it.
#[derive(Debug, Clone, Copy, PartialEq, Eq, Structural)]
pub enum StatusKind {
    /// ordinary messages, cleared after about three seconds
    Generic,
    /// token-calculation progress, cleared after about one second
    Calculating,
    /// completion messages, cleared after about two seconds
    Completion,
}

/// Central state that the presentation surface renders: the tree, the
/// visible rows, the run options and the aggregated token counts.
#[derive(Debug)]
pub struct AppState {
    /// the root directory being scanned
    pub root_path: String,
    /// the file tree arena
    pub file_tree: FileTree,
    /// flat list of currently visible arena indices, in display order
    pub visible_paths: Vec<usize>,
    /// index of the highlighted row in the visible list
    pub selected_index: usize,
    /// configuration options for the packaging run
    pub repomix_options: RepomixOptions,
    /// token-count cache, one slot per arena index
    pub individual_token_counts: Vec<TokenCacheEntry>,
    /// current status message to display
    pub status_message: String,
    /// whether a packaging run is in flight
    pub is_processing: bool,
    /// total token count of the selected files
    pub token_count: u64,
    /// which UI component has focus
    pub focus: Focus,
}

impl AppState {
    /// The cache covers exactly the arena.
    pub open spec fn wf(self) -> bool {
        &&& self.file_tree.wf()
        &&& self.individual_token_counts@.len() == self.file_tree.len()
    }

    /// Creates the initial state for a scanned tree: nothing selected,
    /// nothing cached, the visible list derived from the tree.
    pub fn new(root_path: String, file_tree: FileTree, repomix_options: RepomixOptions) -> (r:
        AppState)
        requires
            file_tree.wf(),
        ensures
            r.wf(),
            r.file_tree == file_tree,
            r.root_path == root_path,
            r.visible_paths@ == file_tree.spec_visible_paths(),
            r.selected_index == 0,
            r.repomix_options == repomix_options,
            forall|i: int|
                0 <= i < r.file_tree.len() ==> r.individual_token_counts@[i]
                    == TokenCacheEntry::Absent,
            r.status_message@ =~= Seq::<char>::empty(),
            r.is_processing == false,
            r.token_count == 0,
            r.focus == Focus::FileTree,
    {
        let visible_paths = flatten_visible_tree(&file_tree);
        let individual_token_counts = absent_cache(file_tree.nodes.len());
        AppState {
            root_path,
            file_tree,
            visible_paths,
            selected_index: 0,
            repomix_options,
            individual_token_counts,
            status_message: String::new(),
            is_processing: false,
            token_count: 0,
            focus: Focus::FileTree,
        }
    }
}

/// A fresh cache with one absent slot per arena index.
fn absent_cache(n: usize) -> (r: Vec<TokenCacheEntry>)
    ensures
        r@.len() == n,
        forall|i: int| 0 <= i < n ==> r@[i] == TokenCacheEntry::Absent,
{
    let mut r: Vec<TokenCacheEntry> = Vec::new();
    let mut k: usize = 0;
    while k < n
        invariant
            k <= n,
            r@.len() == k,
            forall|i: int| 0 <= i < k ==> r@[i] == TokenCacheEntry::Absent,
        decreases n - k,
    {
        r.push(TokenCacheEntry::Absent);
        k = k + 1;
    }
    r
}

/// A vector of `n` false flags.
fn false_flags(n: usize) -> (r: Vec<bool>)
    ensures
        r@.len() == n,
        forall|i: int| 0 <= i < n ==> r@[i] == false,
{
    let mut r: Vec<bool> = Vec::new();
    let mut k: usize = 0;
    while k < n
        invariant
            k <= n,
            r@.len() == k,
            forall|i: int| 0 <= i < k ==> r@[i] == false,
        decreases n - k,
    {
        r.push(false);
        k = k + 1;
    }
    r
}

/// How many of the first `k` flags are set.
pub open spec fn count_true(s: Seq<bool>, k: int) -> int
    decreases k,
{
    if k <= 0 {
        0
    } else {
        count_true(s, k - 1) + if s[k - 1] {
            1int
        } else {
            0int
        }
    }
}

/// Flag counts are non-negative and bounded by the prefix length.
pub proof fn lemma_count_true_bounds(s: Seq<bool>, k: int)
    ensures
        0 <= count_true(s, k),
        k >= 0 ==> count_true(s, k) <= k,
    decreases k,
{
    if k > 0 {
        lemma_count_true_bounds(s, k - 1);
    }
}

/// Updating one flag moves the count by the difference at that index.
pub proof fn lemma_count_true_update(s: Seq<bool>, i: int, v: bool, k: int)
    requires
        0 <= i < s.len(),
        k <= s.len(),
    ensures
        count_true(s.update(i, v), k) == count_true(s, k) + (if i < k {
            (if v {
                1int
            } else {
                0int
            }) - (if s[i] {
                1int
            } else {
                0int
            })
        } else {
            0int
        }),
    decreases k,
{
    if k > 0 {
        lemma_count_true_update(s, i, v, k - 1);
    }
}

/// What one key event asks the embedding application to do besides the
/// state changes already applied: keep running or quit, persist the
/// configuration, send a run request, and enqueue token computations.
pub struct KeyOutcome {
    /// false when the application should exit
    pub should_continue: bool,
    /// a packaging request to hand to the background runner
    pub run_request: Option<BackendRequest>,
    /// true when the configuration changed and should be persisted
    pub save_config: bool,
    /// arena indices of files to enqueue for token computation
    pub queued: Vec<usize>,
}

/// The whole application core: presentation state plus the token
/// accounting engine and the execution coordinator.
pub struct App {
    /// state rendered by the presentation surface
    pub state: AppState,
    /// whether the application should quit
    pub should_quit: bool,
    /// current status message
    pub status_message: String,
    /// what category of message is showing
    pub status_kind: StatusKind,
    /// when the status message was last updated
    pub status_updated_at_ms: u64,
    /// whether a packaging run is in flight
    pub is_processing: bool,
    /// current total token count of the selected files
    pub token_count: u64,
    /// persistent user preferences
    pub config: SifConfig,
    /// repomix download manager
    pub repomix: Repomix,
    /// next run identifier to hand out
    pub next_request_id: u64,
    /// identifier of the current run, if one is in flight
    pub current_request_id: Option<u64>,
    /// when the token count was last refreshed (for debouncing)
    pub last_token_update_ms: u64,
    /// debounce interval for token refreshes
    pub token_update_debounce_ms: u64,
    /// which files are pending background token computation
    pub pending_token_calculations: Vec<bool>,
    /// how many files are pending
    pub pending_count: usize,
    /// whether a bulk select-all token calculation is running
    pub is_bulk_token_calculation: bool,
    /// suppress transient status messages during navigation
    pub suppress_status_messages: bool,
    /// when the last control-loop iteration ran
    pub last_update_ms: u64,
}

impl App {
    /// The pending set covers the arena and its counter is exact; run
    /// identifiers already handed out stay below the next one.
    pub open spec fn wf(self) -> bool {
        &&& self.state.wf()
        &&& self.pending_token_calculations@.len() == self.state.file_tree.len()
        &&& self.pending_count == count_true(
            self.pending_token_calculations@,
            self.state.file_tree.len() as int,
        )
        &&& (self.current_request_id matches Some(id) ==> id < self.next_request_id)
    }

    /// Assembles the application core around a scanned tree.
    pub fn new(
        root_path: String,
        file_tree: FileTree,
        repomix_options: RepomixOptions,
        config: SifConfig,
        repomix: Repomix,
        now_ms: u64,
    ) -> (r: App)
        requires
            file_tree.wf(),
        ensures
            r.wf(),
            r.state.file_tree == file_tree,
            r.state.root_path == root_path,
            r.state.repomix_options == repomix_options,
            r.config == config,
            r.repomix == repomix,
            r.should_quit == false,
            r.is_processing == false,
            r.token_count == 0,
            r.next_request_id == 0,
            r.current_request_id is None,
            r.pending_count == 0,
            r.is_bulk_token_calculation == false,
            r.suppress_status_messages == false,
            r.token_update_debounce_ms == 300,
            forall|i: int|
                0 <= i < file_tree.len() ==> r.state.individual_token_counts@[i]
                    == TokenCacheEntry::Absent,
    {
        let n = file_tree.nodes.len();
        let state = AppState::new(root_path, file_tree, repomix_options);
        let pending = false_flags(n);
        proof {
            lemma_count_all_false(pending@, n as int);
        }
        App {
            state,
            should_quit: false,
            status_message: String::new(),
            status_kind: StatusKind::Generic,
            status_updated_at_ms: now_ms,
            is_processing: false,
            token_count: 0,
            config,
            repomix,
            next_request_id: 0,
            current_request_id: None,
            last_token_update_ms: now_ms,
            token_update_debounce_ms: 300,
            pending_token_calculations: pending,
            pending_count: 0,
            is_bulk_token_calculation: false,
            suppress_status_messages: false,
            last_update_ms: now_ms,
        }
    }

    /// Sets a status message and records when it was set.
    pub fn set_status_message(&mut self, message: String, kind: StatusKind, now_ms: u64)
        ensures
            *final(self) == (App {
                status_message: message,
                status_kind: kind,
                status_updated_at_ms: now_ms,
                ..*old(self)
            }),
    {
        self.status_message = message;
        self.status_kind = kind;
        self.status_updated_at_ms = now_ms;
    }

    /// Clears the current status message.
    pub fn clear_status_message(&mut self)
        ensures
            final(self).status_message@ =~= Seq::<char>::empty(),
            *final(self) == (App { status_message: final(self).status_message, ..*old(self) }),
    {
        self.status_message = String::new();
    }

    /// Copies the engine's own status, processing flag and total into
    /// the rendered state.
    pub fn sync_app_state(&mut self)
        ensures
            final(self).state.status_message@ == old(self).status_message@,
            final(self).state.is_processing == old(self).is_processing,
            final(self).state.token_count == old(self).token_count,
            final(self).state == (AppState {
                status_message: final(self).state.status_message,
                is_processing: old(self).is_processing,
                token_count: old(self).token_count,
                ..old(self).state
            }),
            *final(self) == (App { state: final(self).state, ..*old(self) }),
    {
        self.state.status_message = self.status_message.clone();
        self.state.is_processing = self.is_processing;
        self.state.token_count = self.token_count;
    }

    /// Expands the scan root so the tree view shows its entries.
    pub fn expand_root(&mut self)
        requires
            old(self).wf(),
        ensures
            final(self).wf(),
            final(self).state.file_tree.len() == old(self).state.file_tree.len(),
            final(self).state.file_tree.node(0).is_directory && !old(self).state.file_tree.node(
                0,
            ).is_expanded ==> final(self).state.file_tree.node(0).is_expanded,
            final(self).state.visible_paths@ == final(self).state.file_tree.spec_visible_paths()
                || final(self).state.visible_paths@ == old(self).state.visible_paths@,
    {
        let is_dir = self.state.file_tree.nodes[0].is_directory;
        let expanded = self.state.file_tree.nodes[0].is_expanded;
        if is_dir && !expanded {
            let ghost t0 = self.state.file_tree;
            self.state.file_tree.set_expanded(0, true);
            proof {
                t0.lemma_wf_flags_only(self.state.file_tree);
            }
            let visible = flatten_visible_tree(&self.state.file_tree);
            self.state.visible_paths = visible;
        }
    }

    /// Writes the current run options into the persistent configuration;
    /// the embedding application saves it to disk afterwards.
    pub fn save_repomix_options(&mut self)
        ensures
            final(self).config.compress == old(self).state.repomix_options.compress,
            final(self).config.remove_comments == old(self).state.repomix_options.remove_comments,
            final(self).config.include_file_tree == old(self).state.repomix_options.file_tree,
            final(self).config.output_format == old(self).state.repomix_options.output_format,
            final(self).config.default_backend == old(self).config.default_backend,
            *final(self) == (App { config: final(self).config, ..*old(self) }),
    {
        let compress = self.state.repomix_options.compress;
        let remove_comments = self.state.repomix_options.remove_comments;
        let file_tree = self.state.repomix_options.file_tree;
        let output_format = self.state.repomix_options.output_format;
        self.config.update_repomix_options(compress, remove_comments, file_tree, output_format);
    }

    /// Performs the periodic housekeeping: expires the status message by
    /// its category's lifetime and lifts navigation suppression after a
    /// couple of seconds.
    pub fn periodic_update(&mut self, now_ms: u64)
        ensures
            final(self).status_message@ == (if spec_status_expired(*old(self), now_ms) {
                Seq::<char>::empty()
            } else {
                old(self).status_message@
            }),
            final(self).suppress_status_messages == (old(self).suppress_status_messages
                && !(elapsed_ms(old(self).last_update_ms, now_ms) > 2000)),
            *final(self) == (App {
                status_message: final(self).status_message,
                suppress_status_messages: final(self).suppress_status_messages,
                ..*old(self)
            }),
    {
        let has_message = self.status_message.unicode_len() > 0;
        if has_message && !self.is_processing {
            let elapsed = saturating_elapsed(self.status_updated_at_ms, now_ms);
            let limit: u64 = if self.is_bulk_token_calculation {
                5000
            } else {
                match self.status_kind {
                    StatusKind::Calculating => 1000,
                    StatusKind::Completion => 2000,
                    StatusKind::Generic => 3000,
                }
            };
            if elapsed > limit {
                self.status_message = String::new();
            }
        }
        if self.suppress_status_messages {
            let elapsed = saturating_elapsed(self.last_update_ms, now_ms);
            if elapsed > 2000 {
                self.suppress_status_messages = false;
            }
        }
        proof {
            assert(final(self).status_message@ =~= (if spec_status_expired(
                *old(self),
                now_ms,
            ) {
                Seq::<char>::empty()
            } else {
                old(self).status_message@
            }));
        }
    }

    /// Recomputes the grand total and every directory subtotal once all
    /// pending calculations have come back.
    pub fn recalculate_final_token_totals(&mut self)
        requires
            old(self).wf(),
        ensures
            final(self).wf(),
            final(self).token_count as int == clamp64(
                spec_total(old(self).state.file_tree, old(self).state.individual_token_counts@),
            ),
            aggregated(
                old(self).state.file_tree,
                old(self).state.individual_token_counts@,
                final(self).state.individual_token_counts@,
            ),
            final(self).state == (AppState {
                individual_token_counts: final(self).state.individual_token_counts,
                ..old(self).state
            }),
            *final(self) == (App {
                state: final(self).state,
                token_count: final(self).token_count,
                ..*old(self)
            }),
    {
        let total = compute_selected_total(
            &self.state.file_tree,
            &self.state.individual_token_counts,
        );
        self.token_count = total;
        recalculate_directory_token_counts(
            &self.state.file_tree,
            &mut self.state.individual_token_counts,
        );
    }

    /// Recomputes the grand total and the directory subtotals from the
    /// entries resolved so far, for feedback while calculations are
    /// still pending.
    pub fn recalculate_partial_token_totals(&mut self)
        requires
            old(self).wf(),
        ensures
            final(self).wf(),
            final(self).token_count as int == clamp64(
                spec_total(old(self).state.file_tree, old(self).state.individual_token_counts@),
            ),
            aggregated(
                old(self).state.file_tree,
                old(self).state.individual_token_counts@,
                final(self).state.individual_token_counts@,
            ),
            final(self).state == (AppState {
                individual_token_counts: final(self).state.individual_token_counts,
                ..old(self).state
            }),
            *final(self) == (App {
                state: final(self).state,
                token_count: final(self).token_count,
                ..*old(self)
            }),
    {
        let total = compute_selected_total(
            &self.state.file_tree,
            &self.state.individual_token_counts,
        );
        self.token_count = total;
        recalculate_directory_token_counts(
            &self.state.file_tree,
            &mut self.state.individual_token_counts,
        );
    }

    /// Refreshes the token accounting for the current selection without
    /// blocking: prunes entries of paths that stopped being relevant,
    /// recomputes the total and the directory subtotals from what is
    /// already resolved, and returns the files to enqueue for background
    /// computation (capped at the enqueue ceiling), which become the new
    /// pending generation.
    pub fn update_token_count_non_blocking(&mut self, now_ms: u64) -> (queued: Vec<usize>)
        requires
            old(self).wf(),
        ensures
            final(self).wf(),
            refreshed(*old(self), *final(self), queued@, now_ms),
    {
        let ghost pre = *old(self);
        let ghost t = pre.state.file_tree;
        let ghost cache0 = pre.state.individual_token_counts@;
        let selected = get_selected_files(&self.state.file_tree);
        let n = self.state.file_tree.nodes.len();
        if selected.len() == 0 {
            self.token_count = 0;
            self.state.individual_token_counts = absent_cache(n);
            self.pending_token_calculations = false_flags(n);
            self.pending_count = 0;
            self.is_bulk_token_calculation = false;
            self.suppress_status_messages = false;
            proof {
                lemma_count_all_false(self.pending_token_calculations@, n as int);
            }
            return Vec::new();
        }
        // prune entries whose paths are no longer relevant
        let mut i: usize = 0;
        while i < n
            invariant
                pre.wf(),
                n == t.len(),
                i <= n,
                self.state.file_tree == t,
                self.state.individual_token_counts@.len() == n,
                self.state == (AppState {
                    individual_token_counts: self.state.individual_token_counts,
                    ..pre.state
                }),
                *self == (App { state: self.state, ..pre }),
                forall|j: int|
                    0 <= j < n ==> #[trigger] self.state.individual_token_counts@[j] == (if j < i
                        && !is_relevant(t, j) {
                        TokenCacheEntry::Absent
                    } else {
                        cache0[j]
                    }),
            decreases n - i,
        {
            let rel: bool;
            if self.state.file_tree.nodes[i].is_selected {
                rel = true;
            } else if self.state.file_tree.nodes[i].is_directory {
                rel = has_selected_descendants(&self.state.file_tree, i);
            } else {
                rel = false;
            }
            proof {
                assert(rel == is_relevant(t, i as int));
            }
            if !rel {
                self.state.individual_token_counts.set(i, TokenCacheEntry::Absent);
            }
            i = i + 1;
        }
        let ghost cache_p = self.state.individual_token_counts@;
        proof {
            assert forall|f: int|
                0 <= f < n && t.node(f).is_selected && !t.node(f).is_directory implies cache_p[f]
                == cache0[f] by {
                assert(is_relevant(t, f));
            }
            crate::accounting::lemma_total_selected_only(t, cache_p, cache0, n as int);
        }
        // grand total from what is already resolved
        let total = compute_selected_total(
            &self.state.file_tree,
            &self.state.individual_token_counts,
        );
        self.token_count = total;
        // recompute the directory subtotals
        recalculate_directory_token_counts(
            &self.state.file_tree,
            &mut self.state.individual_token_counts,
        );
        let ghost cache_r = self.state.individual_token_counts@;
        proof {
            assert(aggregated(t, cache_p, cache_r));
            assert forall|j: int|
                0 <= j < n implies #[trigger] cache_r[j] == (if !is_relevant(t, j) {
                TokenCacheEntry::Absent
            } else if t.node(j).is_directory {
                TokenCacheEntry::Resolved(clamp64(dir_sum(t, cache0, j)) as u64)
            } else {
                cache0[j]
            }) by {
                if t.node(j).is_directory && is_relevant(t, j) {
                    crate::accounting::lemma_dir_sum_selected_only(
                        t,
                        cache_p,
                        cache0,
                        j,
                        n as int,
                    );
                }
            }
        }
        // during bulk operations, report when the ceiling cuts the batch
        if selected.len() > MAX_FILES_FOR_TOKEN_CALC && self.is_bulk_token_calculation {
            let num = u64_to_string(selected.len() as u64);
            let mut msg = String::from_str("Processing ");
            msg.append(num.as_str());
            msg.append(" files (showing first 1000)...");
            let kind = StatusKind::Generic;
            self.set_status_message(msg, kind, now_ms);
        }
        // start a fresh pending generation, capped at the ceiling
        self.pending_token_calculations = false_flags(n);
        self.pending_count = 0;
        proof {
            lemma_count_all_false(self.pending_token_calculations@, n as int);
        }
        let limit: usize = if selected.len() > MAX_FILES_FOR_TOKEN_CALC {
            MAX_FILES_FOR_TOKEN_CALC
        } else {
            selected.len()
        };
        let mut queued: Vec<usize> = Vec::new();
        let mut k: usize = 0;
        while k < limit
            invariant
                pre.wf(),
                n == t.len(),
                k <= limit,
                limit <= selected@.len(),
                limit <= MAX_FILES_FOR_TOKEN_CALC,
                cache_r.len() == n,
                cache0.len() == n,
                selected@.len() == num_selected_files(t),
                limit == (if selected@.len() > MAX_FILES_FOR_TOKEN_CALC {
                    MAX_FILES_FOR_TOKEN_CALC as int
                } else {
                    selected@.len() as int
                }),
                self.token_count as int == clamp64(spec_total(t, cache0)),
                forall|j: int|
                    0 <= j < n && t.node(j).is_selected && !t.node(j).is_directory
                        ==> selected@.contains(j as usize),
                forall|j: int|
                    0 <= j < n ==> #[trigger] cache_r[j] == (if !is_relevant(t, j) {
                        TokenCacheEntry::Absent
                    } else if t.node(j).is_directory {
                        TokenCacheEntry::Resolved(clamp64(dir_sum(t, cache0, j)) as u64)
                    } else {
                        cache0[j]
                    }),
                forall|si: int|
                    0 <= si < selected@.len() ==> (#[trigger] selected@[si] as int) < n && t.node(
                        selected@[si] as int,
                    ).is_selected && !t.node(selected@[si] as int).is_directory,
                forall|i1: int, i2: int|
                    0 <= i1 < i2 < selected@.len() ==> selected@[i1] < selected@[i2],
                forall|f: int|
                    0 <= f < n && t.node(f).is_selected && !t.node(f).is_directory
                        ==> cache_r[f] == cache0[f],
                self.state.file_tree == t,
                self.state.individual_token_counts@.len() == n,
                self.state == (AppState {
                    individual_token_counts: self.state.individual_token_counts,
                    ..pre.state
                }),
                *self == (App {
                    state: self.state,
                    token_count: self.token_count,
                    status_message: self.status_message,
                    status_kind: self.status_kind,
                    status_updated_at_ms: self.status_updated_at_ms,
                    pending_token_calculations: self.pending_token_calculations,
                    pending_count: self.pending_count,
                    ..pre
                }),
                self.pending_token_calculations@.len() == n,
                queued@.len() <= k,
                forall|qi: int|
                    0 <= qi < queued@.len() ==> exists|j: int|
                        0 <= j < k && #[trigger] queued@[qi] == selected@[j],
                forall|qi: int|
                    0 <= qi < queued@.len() ==> (#[trigger] queued@[qi] as int) < n
                        && cache0[queued@[qi] as int] is Absent,
                forall|i1: int, i2: int| 0 <= i1 < i2 < queued@.len() ==> queued@[i1] < queued@[i2],
                forall|j: int|
                    0 <= j < n ==> #[trigger] self.state.individual_token_counts@[j] == (
                    if queued@.contains(j as usize) {
                        TokenCacheEntry::Pending
                    } else {
                        cache_r[j]
                    }),
                forall|j: int|
                    0 <= j < n ==> #[trigger] self.pending_token_calculations@[j]
                        == queued@.contains(j as usize),
                self.pending_count == queued@.len(),
                self.pending_count as int == count_true(
                    self.pending_token_calculations@,
                    n as int,
                ),
                forall|j: int|
                    0 <= j < k && cache_r[selected@[j] as int] is Absent
                        ==> #[trigger] queued@.contains(selected@[j]),
                if selected@.len() > MAX_FILES_FOR_TOKEN_CALC
                    && pre.is_bulk_token_calculation {
                    self.status_message@ == spec_refresh_bulk_msg(selected@.len() as int)
                        && self.status_kind == StatusKind::Generic
                        && self.status_updated_at_ms == now_ms
                } else {
                    self.status_message == pre.status_message && self.status_kind
                        == pre.status_kind && self.status_updated_at_ms
                        == pre.status_updated_at_ms
                },
            decreases limit - k,
        {
            let f = selected[k];
            let ghost queued_before = queued@;
            proof {
                assert(!queued@.contains(f)) by {
                    if queued@.contains(f) {
                        let qi = choose|qi: int|
                            0 <= qi < queued@.len() && queued@[qi] == f;
                        let j = choose|j: int|
                            0 <= j < k && queued@[qi] == selected@[j];
                        assert(selected@[j] == selected@[k as int]);
                    }
                }
            }
            let is_absent: bool;
            match self.state.individual_token_counts[f] {
                TokenCacheEntry::Absent => {
                    is_absent = true;
                },
                _ => {
                    is_absent = false;
                },
            }
            if is_absent {
                proof {
                    assert(self.state.individual_token_counts@[f as int] == cache_r[f as int]);
                    lemma_count_true_update(
                        self.pending_token_calculations@,
                        f as int,
                        true,
                        n as int,
                    );
                }
                self.state.individual_token_counts.set(f, TokenCacheEntry::Pending);
                self.pending_token_calculations.set(f, true);
                self.pending_count = self.pending_count + 1;
                queued.push(f);
                proof {
                    assert forall|j: int|
                        0 <= j < n implies #[trigger] self.pending_token_calculations@[j]
                        == queued@.contains(j as usize) by {
                        if j == f {
                            assert(queued@.last() == f);
                        } else {
                            if queued_before.contains(j as usize) {
                                let w = choose|w: int|
                                    0 <= w < queued_before.len() && queued_before[w] == j as usize;
                                assert(queued@[w] == j as usize);
                            }
                            if queued@.contains(j as usize) {
                                let w = choose|w: int|
                                    0 <= w < queued@.len() && queued@[w] == j as usize;
                                assert(w < queued_before.len());
                            }
                        }
                    }
                    assert forall|j: int|
                        0 <= j < n implies #[trigger] self.state.individual_token_counts@[j] == (
                        if queued@.contains(j as usize) {
                            TokenCacheEntry::Pending
                        } else {
                            cache_r[j]
                        }) by {
                        if j == f {
                            assert(queued@.last() == f);
                        } else {
                            if queued_before.contains(j as usize) {
                                let w = choose|w: int|
                                    0 <= w < queued_before.len() && queued_before[w] == j as usize;
                                assert(queued@[w] == j as usize);
                            }
                            if queued@.contains(j as usize) {
                                let w = choose|w: int|
                                    0 <= w < queued@.len() && queued@[w] == j as usize;
                                assert(w < queued_before.len());
                            }
                        }
                    }
                    assert forall|qi: int|
                        0 <= qi < queued@.len() implies exists|j: int|
                            0 <= j < k + 1 && #[trigger] queued@[qi] == selected@[j] by {
                        if qi < queued_before.len() {
                            let j = choose|j: int|
                                0 <= j < k && queued_before[qi] == selected@[j];
                            assert(queued@[qi] == selected@[j]);
                        } else {
                            assert(queued@[qi] == selected@[k as int]);
                        }
                    }
                    assert forall|i1: int, i2: int|
                        0 <= i1 < i2 < queued@.len() implies queued@[i1] < queued@[i2] by {
                        if i2 == queued@.len() - 1 {
                            let j = choose|j: int|
                                0 <= j < k && queued@[i1] == selected@[j];
                            assert(selected@[j] < selected@[k as int]);
                        }
                    }
                    assert forall|j: int|
                        0 <= j < k + 1 && cache_r[selected@[j] as int] is Absent
                            implies #[trigger] queued@.contains(selected@[j]) by {
                        if j < k {
                            assert(queued_before.contains(selected@[j]));
                            let w = choose|w: int|
                                0 <= w < queued_before.len() && queued_before[w] == selected@[j];
                            assert(queued@[w] == selected@[j]);
                        } else {
                            assert(queued@.last() == selected@[j]);
                        }
                    }
                }
            } else {
                proof {
                    assert(self.state.individual_token_counts@[f as int] == cache_r[f as int]);
                    assert forall|j: int|
                        0 <= j < k + 1 && cache_r[selected@[j] as int] is Absent
                            implies #[trigger] queued@.contains(selected@[j]) by {}
                }
            }
            k = k + 1;
        }
        proof {
            let post = *self;
            assert(num_selected_files(t) == selected@.len());
            assert forall|j: int|
                0 <= j < n implies #[trigger] post.state.individual_token_counts@[j] == (
            if !is_relevant(t, j) {
                TokenCacheEntry::Absent
            } else if t.node(j).is_directory {
                TokenCacheEntry::Resolved(clamp64(dir_sum(t, cache0, j)) as u64)
            } else if queued@.contains(j as usize) {
                TokenCacheEntry::Pending
            } else {
                cache0[j]
            }) by {
                if queued@.contains(j as usize) {
                    let qi = choose|qi: int|
                        0 <= qi < queued@.len() && queued@[qi] == j as usize;
                    let w = choose|w: int|
                        0 <= w < limit && queued@[qi] == selected@[w];
                    assert(t.node(j).is_selected && !t.node(j).is_directory);
                    assert(is_relevant(t, j));
                } else {
                    if !is_relevant(t, j) {
                        assert(cache_r[j] == cache_p[j]);
                    }
                }
            }
            assert forall|qi: int|
                0 <= qi < queued@.len() implies (#[trigger] queued@[qi] as int) < n && t.node(
                queued@[qi] as int,
            ).is_selected && !t.node(queued@[qi] as int).is_directory && cache0[queued@[qi] as int] is Absent by {
                let j = choose|j: int| 0 <= j < limit && queued@[qi] == selected@[j];
            }
            if num_selected_files(t) <= MAX_FILES_FOR_TOKEN_CALC {
                assert forall|f: int|
                    0 <= f < n && t.node(f).is_selected && !t.node(f).is_directory
                        && cache0[f] is Absent implies #[trigger] queued@.contains(
                    f as usize,
                ) by {
                    assert(selected@.contains(f as usize));
                    let j = choose|j: int|
                        0 <= j < selected@.len() && selected@[j] == f as usize;
                    assert(cache_r[selected@[j] as int] is Absent);
                }
            }
        }
        queued
    }

    /// Refreshes the token accounting only if the debounce interval has
    /// passed since the last applied refresh; rapid repeated calls in
    /// between leave everything untouched.
    pub fn update_token_count_debounced(&mut self, now_ms: u64) -> (queued: Vec<usize>)
        requires
            old(self).wf(),
        ensures
            final(self).wf(),
            elapsed_ms(old(self).last_token_update_ms, now_ms) < old(self).token_update_debounce_ms ==> *final(self) == *old(self) && queued@.len() == 0,
            elapsed_ms(old(self).last_token_update_ms, now_ms) >= old(self).token_update_debounce_ms ==> refreshed(
                (App { last_token_update_ms: now_ms, ..*old(self) }),
                *final(self),
                queued@,
                now_ms,
            ),
    {
        let elapsed = saturating_elapsed(self.last_token_update_ms, now_ms);
        if elapsed < self.token_update_debounce_ms {
            return Vec::new();
        }
        self.last_token_update_ms = now_ms;
        self.update_token_count_non_blocking(now_ms)
    }

    /// Merges one background token-count result into the cache, retires
    /// it from the pending generation, recomputes the totals and reports
    /// whether the generation is now complete.
    #[verifier::rlimit(100)]
    pub fn process_token_result(&mut self, file_id: usize, count: u64, now_ms: u64) -> (complete:
        bool)
        requires
            old(self).wf(),
            file_id < old(self).state.file_tree.len(),
        ensures
            final(self).wf(),
            complete == (final(self).pending_count == 0),
            final(self).state.individual_token_counts@.len() == old(self).state.file_tree.len(),
            aggregated(
                old(self).state.file_tree,
                old(self).state.individual_token_counts@.update(
                    file_id as int,
                    TokenCacheEntry::Resolved(count),
                ),
                final(self).state.individual_token_counts@,
            ),
            final(self).token_count as int == clamp64(
                spec_total(
                    old(self).state.file_tree,
                    old(self).state.individual_token_counts@.update(
                        file_id as int,
                        TokenCacheEntry::Resolved(count),
                    ),
                ),
            ),
            final(self).pending_token_calculations@ == old(self).pending_token_calculations@.update(file_id as int, false),
            final(self).pending_count == old(self).pending_count - (if old(self).pending_token_calculations@[file_id as int] {
                1int
            } else {
                0int
            }),
            final(self).is_bulk_token_calculation == (old(self).is_bulk_token_calculation
                && !complete),
            old(self).is_bulk_token_calculation && complete ==> final(self).status_message@
                == "✓ Calculated tokens for "@ + spec_decimal(
                num_selected_files(old(self).state.file_tree),
            ) + " files"@ && final(self).status_kind == StatusKind::Completion && final(self).status_updated_at_ms == now_ms,
            old(self).is_bulk_token_calculation && !complete ==> final(self).status_message@
                == "Calculating tokens... "@ + spec_decimal(
                crate::accounting::count_resolved(
                    old(self).state.individual_token_counts@.update(
                        file_id as int,
                        TokenCacheEntry::Resolved(count),
                    ),
                    old(self).state.file_tree.len() as int,
                ),
            ) + "/"@ + spec_decimal(
                clamp64(
                    crate::accounting::count_resolved(
                        old(self).state.individual_token_counts@.update(
                            file_id as int,
                            TokenCacheEntry::Resolved(count),
                        ),
                        old(self).state.file_tree.len() as int,
                    ) + final(self).pending_count,
                ),
            ) && final(self).status_kind == StatusKind::Calculating && final(self).status_updated_at_ms == now_ms,
            !old(self).is_bulk_token_calculation ==> final(self).status_message == old(self).status_message && final(self).status_kind == old(self).status_kind && final(self).status_updated_at_ms == old(self).status_updated_at_ms,
            final(self).state == (AppState {
                individual_token_counts: final(self).state.individual_token_counts,
                ..old(self).state
            }),
            *final(self) == (App {
                state: final(self).state,
                token_count: final(self).token_count,
                status_message: final(self).status_message,
                status_kind: final(self).status_kind,
                status_updated_at_ms: final(self).status_updated_at_ms,
                pending_token_calculations: final(self).pending_token_calculations,
                pending_count: final(self).pending_count,
                is_bulk_token_calculation: final(self).is_bulk_token_calculation,
                ..*old(self)
            }),
    {
        let ghost pre = *old(self);
        let ghost t = pre.state.file_tree;
        let n = self.state.file_tree.nodes.len();
        self.state.individual_token_counts.set(file_id, TokenCacheEntry::Resolved(count));
        let ghost merged = self.state.individual_token_counts@;
        if self.pending_token_calculations[file_id] {
            proof {
                lemma_count_true_update(
                    self.pending_token_calculations@,
                    file_id as int,
                    false,
                    n as int,
                );
                lemma_count_true_bounds(
                    self.pending_token_calculations@.update(file_id as int, false),
                    n as int,
                );
            }
            self.pending_token_calculations.set(file_id, false);
            self.pending_count = self.pending_count - 1;
        } else {
            proof {
                assert(self.pending_token_calculations@.update(file_id as int, false)
                    =~= self.pending_token_calculations@);
            }
            self.pending_token_calculations.set(file_id, false);
        }
        let complete = self.pending_count == 0;
        if complete {
            self.recalculate_final_token_totals();
            if self.is_bulk_token_calculation {
                self.is_bulk_token_calculation = false;
                let selected = get_selected_files(&self.state.file_tree);
                let num = u64_to_string(selected.len() as u64);
                let mut msg = String::from_str("✓ Calculated tokens for ");
                msg.append(num.as_str());
                msg.append(" files");
                let kind = StatusKind::Completion;
                self.set_status_message(msg, kind, now_ms);
            }
        } else {
            let completed = count_resolved_entries(&self.state.individual_token_counts);
            let shown_total = sat_add_u64(completed as u64, self.pending_count as u64);
            if self.is_bulk_token_calculation {
                let done = u64_to_string(completed as u64);
                let all = u64_to_string(shown_total);
                let mut msg = String::from_str("Calculating tokens... ");
                msg.append(done.as_str());
                msg.append("/");
                msg.append(all.as_str());
                let kind = StatusKind::Calculating;
                self.set_status_message(msg, kind, now_ms);
            }
            self.recalculate_partial_token_totals();
        }
        complete
    }

    /// Starts a packaging run over the current selection: validates,
    /// supersedes any run already in flight, checks that repomix is
    /// ready when it is the chosen backend, and allocates a fresh,
    /// strictly increasing request identifier. The returned request is
    /// handed to the background runner; `None` means nothing was
    /// started and the status line says why.
    #[verifier::rlimit(100)]
    pub fn run_backend(&mut self, now_ms: u64) -> (r: Option<BackendRequest>)
        requires
            old(self).wf(),
            old(self).next_request_id < u64::MAX,
        ensures
            final(self).wf(),
            ran_backend(*old(self), *final(self), r),
    {
        let ghost pre = *old(self);
        let selected = get_selected_files(&self.state.file_tree);
        if selected.len() == 0 {
            let m = String::from_str("No files selected for processing");
            let kind = StatusKind::Generic;
            self.set_status_message(m, kind, now_ms);
            return None;
        }
        // validate options for the chosen backend and surface warnings
        let selected_paths = selected_file_paths(&self.state.file_tree, &selected);
        let warnings: Vec<String>;
        match self.state.repomix_options.backend {
            Backend::Repomix => {
                warnings = validate_isolated_repomix_options(
                    &self.state.repomix_options,
                    &selected_paths,
                );
            },
            Backend::Yek => {
                warnings = validate_yek_options(&selected_paths);
            },
        }
        if warnings.len() > 0 {
            let joined = join_comma(&warnings);
            let mut m = String::from_str("Warning: ");
            m.append(joined.as_str());
            let kind = StatusKind::Generic;
            self.set_status_message(m, kind, now_ms);
            // continue anyway; a later status may replace the warning
        }
        // a run already in flight is superseded: its identifier is
        // dropped, so its eventual result will be recognized as stale
        if self.is_processing {
            let m = String::from_str("Cancelling previous run and restarting...");
            let kind = StatusKind::Generic;
            self.set_status_message(m, kind, now_ms);
            self.is_processing = false;
            self.current_request_id = None;
        }
        // for repomix, the download must have finished
        let mut gate_message: Option<String> = None;
        let mut needs_start = false;
        match self.state.repomix_options.backend {
            Backend::Repomix => {
                match &self.repomix.download_status {
                    DownloadStatus::Downloading(msg) => {
                        let mut m = String::from_str("Downloading: ");
                        m.append(msg.as_str());
                        gate_message = Some(m);
                    },
                    DownloadStatus::Failed(err) => {
                        let mut m = String::from_str("Repomix download failed: ");
                        m.append(err.as_str());
                        gate_message = Some(m);
                        needs_start = true;
                    },
                    DownloadStatus::NotStarted => {
                        gate_message = Some(String::from_str("Starting repomix download..."));
                        needs_start = true;
                    },
                    DownloadStatus::Ready => {},
                }
            },
            Backend::Yek => {},
        }
        if needs_start {
            let _ = self.repomix.start_background_download();
        }
        match gate_message {
            Some(m) => {
                let kind = StatusKind::Generic;
                self.set_status_message(m, kind, now_ms);
                return None;
            },
            None => {},
        }
        // allocate a fresh, strictly increasing request identifier
        let request_id = self.next_request_id;
        self.next_request_id = self.next_request_id + 1;
        self.current_request_id = Some(request_id);
        self.is_processing = true;
        let n_str = u64_to_string(selected.len() as u64);
        let mut m = String::from_str("Running ");
        m.append(self.state.repomix_options.backend.display_name());
        m.append(" on ");
        m.append(n_str.as_str());
        m.append(" files...");
        let kind = StatusKind::Generic;
        self.set_status_message(m, kind, now_ms);
        let request = BackendRequest {
            backend: self.state.repomix_options.backend,
            repomix_options: self.state.repomix_options.clone(),
            selected_files: selected_paths,
            root_path: self.state.root_path.clone(),
            request_id,
        };
        Some(request)
    }

    /// Accepts one result from the background runner. A result whose
    /// identifier does not match the current run is stale — it belongs
    /// to a superseded run — and leaves the application untouched. The
    /// matching result ends the run and surfaces its outcome.
    pub fn process_backend_result(&mut self, result: BackendResult, now_ms: u64) -> (processed:
        bool)
        requires
            old(self).wf(),
        ensures
            final(self).wf(),
            (match old(self).current_request_id {
                Some(id) => id != result.request_id,
                None => true,
            }) ==> *final(self) == *old(self) && !processed,
            (old(self).current_request_id matches Some(id) && id == result.request_id) ==> {
                &&& processed
                &&& !final(self).is_processing
                &&& final(self).current_request_id is None
                &&& result.success && result.output_file is Some ==> final(self).status_message@
                    == result.message@ + " | Output: "@ + result.output_file.unwrap()@
                &&& result.success && result.output_file is None ==> final(self).status_message@
                    == spec_truncated_msg(result.message@)
                &&& !result.success && result.error is Some ==> final(self).status_message@
                    == result.error.unwrap()@
                &&& !result.success && result.error is None ==> final(self).status_message@
                    == "Error: Backend execution failed"@
                &&& final(self).status_kind == StatusKind::Generic
                &&& final(self).status_updated_at_ms == now_ms
                &&& *final(self) == (App {
                    status_message: final(self).status_message,
                    status_kind: final(self).status_kind,
                    status_updated_at_ms: final(self).status_updated_at_ms,
                    is_processing: false,
                    current_request_id: None,
                    ..*old(self)
                })
            },
    {
        match self.current_request_id {
            None => {
                return false;
            },
            Some(current_id) => {
                if result.request_id != current_id {
                    // stale result from a superseded run: discard it
                    return false;
                }
            },
        }
        self.is_processing = false;
        self.current_request_id = None;
        if result.success {
            match result.output_file {
                Some(path) => {
                    let mut m = result.message;
                    m.append(" | Output: ");
                    m.append(path.as_str());
                    let kind = StatusKind::Generic;
                    self.set_status_message(m, kind, now_ms);
                },
                None => {
                    let len = result.message.as_str().unicode_len();
                    if len > 100 {
                        let mut m = String::from_str(
                            result.message.as_str().substring_char(0, 100),
                        );
                        m.append("...");
                        let kind = StatusKind::Generic;
                        self.set_status_message(m, kind, now_ms);
                    } else {
                        let kind = StatusKind::Generic;
                        self.set_status_message(result.message, kind, now_ms);
                    }
                },
            }
        } else {
            match result.error {
                Some(err) => {
                    let kind = StatusKind::Generic;
                    self.set_status_message(err, kind, now_ms);
                },
                None => {
                    let m = String::from_str("Error: Backend execution failed");
                    let kind = StatusKind::Generic;
                    self.set_status_message(m, kind, now_ms);
                },
            }
        }
        true
    }

    /// Applies the outcome of one background download attempt and
    /// refreshes the status line accordingly. Returns whether the
    /// download status changed.
    pub fn update_repomix_download(&mut self, outcome: Result<(), String>, now_ms: u64) -> (
        changed: bool)
        ensures
            changed == (old(self).repomix.download_status is Downloading),
            !changed ==> *final(self) == *old(self),
            changed && outcome is Ok ==> final(self).repomix.download_status is Ready && final(self).status_message@ == "Repomix ready!"@,
            changed && outcome is Err ==> final(self).repomix.download_status is Failed && final(self).status_message@ == "Repomix download failed: "@ + outcome->Err_0@,
            changed ==> *final(self) == (App {
                repomix: final(self).repomix,
                status_message: final(self).status_message,
                status_kind: StatusKind::Generic,
                status_updated_at_ms: now_ms,
                ..*old(self)
            }),
    {
        let changed = self.repomix.update_background_download(outcome);
        if changed {
            let msg: Option<String>;
            let mut restart = false;
            match &self.repomix.download_status {
                DownloadStatus::Ready => {
                    msg = Some(String::from_str("Repomix ready!"));
                },
                DownloadStatus::Downloading(m) => {
                    let mut s = String::from_str("Downloading: ");
                    s.append(m.as_str());
                    msg = Some(s);
                },
                DownloadStatus::Failed(e) => {
                    let mut s = String::from_str("Repomix download failed: ");
                    s.append(e.as_str());
                    msg = Some(s);
                },
                DownloadStatus::NotStarted => {
                    msg = None;
                    restart = true;
                },
            }
            match msg {
                Some(m) => {
                    let kind = StatusKind::Generic;
                    self.set_status_message(m, kind, now_ms);
                },
                None => {},
            }
            if restart {
                let _ = self.repomix.start_background_download();
            }
        }
        changed
    }

    /// Toggles one repomix run option (`c`, `m`, `f` or `t`), writes it
    /// into the configuration and reports the new setting.
    fn key_toggle_option(&mut self, key: InputKey, now_ms: u64)
        requires
            old(self).wf(),
            key == InputKey::Char('c') || key == InputKey::Char('m') || key == InputKey::Char(
                'f',
            ) || key == InputKey::Char('t'),
        ensures
            final(self).wf(),
            final(self).state == (AppState {
                repomix_options: final(self).state.repomix_options,
                ..old(self).state
            }),
            final(self).state.repomix_options == spec_toggled_options(
                key,
                old(self).state.repomix_options,
            ),
            final(self).config.compress == final(self).state.repomix_options.compress,
            final(self).config.remove_comments == final(self).state.repomix_options.remove_comments,
            final(self).config.include_file_tree == final(self).state.repomix_options.file_tree,
            final(self).config.output_format == final(self).state.repomix_options.output_format,
            final(self).config.default_backend == old(self).config.default_backend,
            final(self).status_message@ == spec_option_msg(
                key,
                final(self).state.repomix_options,
            ),
            *final(self) == (App {
                state: final(self).state,
                config: final(self).config,
                status_message: final(self).status_message,
                status_kind: StatusKind::Generic,
                status_updated_at_ms: now_ms,
                ..*old(self)
            }),
    {
        let m: String;
        match key {
            InputKey::Char('c') => {
                self.state.repomix_options.compress = !self.state.repomix_options.compress;
                m = if self.state.repomix_options.compress {
                    String::from_str("Compress: enabled")
                } else {
                    String::from_str("Compress: disabled")
                };
            },
            InputKey::Char('m') => {
                self.state.repomix_options.remove_comments =
                    !self.state.repomix_options.remove_comments;
                m = if self.state.repomix_options.remove_comments {
                    String::from_str("Remove comments: enabled")
                } else {
                    String::from_str("Remove comments: disabled")
                };
            },
            InputKey::Char('t') => {
                self.state.repomix_options.file_tree = !self.state.repomix_options.file_tree;
                m = if self.state.repomix_options.file_tree {
                    String::from_str("File tree: enabled")
                } else {
                    String::from_str("File tree: disabled")
                };
            },
            _ => {
                let next_format = match self.state.repomix_options.output_format {
                    OutputFormat::PlainText => OutputFormat::Markdown,
                    OutputFormat::Markdown => OutputFormat::Xml,
                    OutputFormat::Xml => OutputFormat::PlainText,
                };
                self.state.repomix_options.output_format = next_format;
                let mut mm = String::from_str("Output format: ");
                mm.append(self.state.repomix_options.output_format.display_name());
                m = mm;
            },
        }
        self.save_repomix_options();
        let kind = StatusKind::Generic;
        self.set_status_message(m, kind, now_ms);
    }

    /// Expands every directory and rebuilds the visible rows.
    fn key_expand_all(&mut self, now_ms: u64)
        requires
            old(self).wf(),
        ensures
            final(self).wf(),
            final(self).state.file_tree.len() == old(self).state.file_tree.len(),
            forall|j: int|
                0 <= j < old(self).state.file_tree.len() ==> final(self).state.file_tree.node(j)
                    == (FileNode {
                    is_expanded: (old(self).state.file_tree.node(j).is_directory || old(self).state.file_tree.node(j).is_expanded),
                    ..old(self).state.file_tree.node(j)
                }),
            final(self).state.visible_paths@ == final(self).state.file_tree.spec_visible_paths(),
            final(self).status_message@ == "Expanded all directories"@,
            *final(self) == (App {
                state: final(self).state,
                status_message: final(self).status_message,
                status_kind: StatusKind::Generic,
                status_updated_at_ms: now_ms,
                ..*old(self)
            }),
    {
        let ghost t0 = self.state.file_tree;
        expand_all_directories(&mut self.state.file_tree);
        proof {
            t0.lemma_wf_flags_only(self.state.file_tree);
        }
        crate::ui::update_visible_files(&mut self.state);
        let m = String::from_str("Expanded all directories");
        let kind = StatusKind::Generic;
        self.set_status_message(m, kind, now_ms);
    }

    /// Collapses every directory, re-expands the scan root and rebuilds
    /// the visible rows.
    fn key_collapse_all(&mut self, now_ms: u64)
        requires
            old(self).wf(),
        ensures
            final(self).wf(),
            final(self).state.file_tree.len() == old(self).state.file_tree.len(),
            forall|j: int|
                0 < j < old(self).state.file_tree.len() ==> final(self).state.file_tree.node(j)
                    == (FileNode {
                    is_expanded: false,
                    ..old(self).state.file_tree.node(j)
                }),
            final(self).state.file_tree.node(0) == (FileNode {
                is_expanded: true,
                ..old(self).state.file_tree.node(0)
            }),
            final(self).state.visible_paths@ == final(self).state.file_tree.spec_visible_paths(),
            final(self).status_message@ == "Collapsed all directories"@,
            *final(self) == (App {
                state: final(self).state,
                status_message: final(self).status_message,
                status_kind: StatusKind::Generic,
                status_updated_at_ms: now_ms,
                ..*old(self)
            }),
    {
        let ghost t0 = self.state.file_tree;
        collapse_all_directories(&mut self.state.file_tree);
        proof {
            t0.lemma_wf_flags_only(self.state.file_tree);
        }
        let ghost t1 = self.state.file_tree;
        self.state.file_tree.set_expanded(0, true);
        proof {
            t1.lemma_wf_flags_only(self.state.file_tree);
            assert forall|j: int|
                0 < j < t0.len() implies self.state.file_tree.node(j) == (FileNode {
                is_expanded: false,
                ..t0.node(j)
            }) by {
                assert(self.state.file_tree.node(j) == t1.node(j));
            }
            assert(self.state.file_tree.node(0) == (FileNode {
                is_expanded: true,
                ..t0.node(0)
            }));
        }
        crate::ui::update_visible_files(&mut self.state);
        let m = String::from_str("Collapsed all directories");
        let kind = StatusKind::Generic;
        self.set_status_message(m, kind, now_ms);
    }

    /// Selects everything currently visible, clears the cache and the
    /// pending generation, and starts a bulk token calculation.
    #[verifier::rlimit(100)]
    fn key_select_all(&mut self, now_ms: u64) -> (queued: Vec<usize>)
        requires
            old(self).wf(),
        ensures
            final(self).wf(),
            ({
                let t1 = final(self).state.file_tree;
                &&& t1.len() == old(self).state.file_tree.len()
                &&& forall|k: int|
                    0 <= k < t1.len() ==> t1.node(k) == (FileNode {
                        is_selected: covered_by_visible(
                            old(self).state.file_tree,
                            old(self).state.visible_paths@,
                            k,
                            old(self).state.visible_paths@.len() as int,
                        ),
                        ..old(self).state.file_tree.node(k)
                    })
                &&& final(self).token_count == 0
                &&& final(self).is_bulk_token_calculation == (num_selected_files(t1) > 0)
                &&& !final(self).suppress_status_messages
                &&& forall|i: int|
                    0 <= i < t1.len() ==> #[trigger] final(self).state.individual_token_counts@[i]
                        == (if num_selected_files(t1) > 0 && t1.node(i).is_directory
                        && is_relevant(t1, i) {
                        TokenCacheEntry::Resolved(0u64)
                    } else if queued@.contains(i as usize) {
                        TokenCacheEntry::Pending
                    } else {
                        TokenCacheEntry::Absent
                    })
                &&& forall|i: int|
                    0 <= i < t1.len() ==> #[trigger] final(self).pending_token_calculations@[i]
                        == queued@.contains(i as usize)
                &&& final(self).pending_count == queued@.len()
                &&& queued@.len() <= MAX_FILES_FOR_TOKEN_CALC
                &&& forall|qi: int|
                    0 <= qi < queued@.len() ==> (#[trigger] queued@[qi] as int) < t1.len()
                        && t1.node(queued@[qi] as int).is_selected && !t1.node(
                        queued@[qi] as int,
                    ).is_directory
                &&& (num_selected_files(t1) <= MAX_FILES_FOR_TOKEN_CALC ==> forall|f: int|
                    0 <= f < t1.len() && t1.node(f).is_selected && !t1.node(f).is_directory
                        ==> #[trigger] queued@.contains(f as usize))
                &&& (num_selected_files(t1) > MAX_FILES_FOR_TOKEN_CALC ==> final(self).status_message@ == spec_refresh_bulk_msg(num_selected_files(t1)))
                &&& (num_selected_files(t1) <= MAX_FILES_FOR_TOKEN_CALC ==> final(self).status_message@ == "Selected all items - calculating tokens..."@)
            }),
    {
        let visible_snapshot = copy_ids(&self.state.visible_paths);
        select_all_visible_files(&mut self.state.file_tree, &visible_snapshot);
        let n = self.state.file_tree.nodes.len();
        self.state.individual_token_counts = absent_cache(n);
        self.pending_token_calculations = false_flags(n);
        self.pending_count = 0;
        proof {
            lemma_count_all_false(self.pending_token_calculations@, n as int);
        }
        self.is_bulk_token_calculation = true;
        self.suppress_status_messages = false;
        let m = String::from_str("Selected all items - calculating tokens...");
        let kind = StatusKind::Generic;
        self.set_status_message(m, kind, now_ms);
        let ghost mid = *self;
        let queued = self.update_token_count_non_blocking(now_ms);
        proof {
            let t1 = mid.state.file_tree;
            let nn = t1.len() as int;
            crate::selection::lemma_num_selected_files_nonneg(t1, nn);
            assert forall|f: int| 0 <= f < nn implies !(
            mid.state.individual_token_counts@[f] is Resolved) by {
                assert(mid.state.individual_token_counts@[f] == TokenCacheEntry::Absent);
            }
            if num_selected_files(t1) <= MAX_FILES_FOR_TOKEN_CALC {
                assert forall|f: int|
                    0 <= f < nn && t1.node(f).is_selected && !t1.node(
                        f,
                    ).is_directory implies #[trigger] queued@.contains(f as usize) by {
                    if num_selected_files(t1) == 0 {
                        crate::selection::lemma_num_selected_files_zero(t1, nn);
                    } else {
                        assert(mid.state.individual_token_counts@[f]
                            == TokenCacheEntry::Absent);
                    }
                }
            }
            crate::accounting::lemma_total_no_resolved(
                t1,
                mid.state.individual_token_counts@,
                nn,
            );
            assert forall|i: int| 0 <= i < nn implies #[trigger] self.state.individual_token_counts@[i]
                == (if num_selected_files(t1) > 0 && t1.node(i).is_directory && is_relevant(
                t1,
                i,
            ) {
                TokenCacheEntry::Resolved(0u64)
            } else if queued@.contains(i as usize) {
                TokenCacheEntry::Pending
            } else {
                TokenCacheEntry::Absent
            }) by {
                assert(mid.state.individual_token_counts@[i] == TokenCacheEntry::Absent);
                if num_selected_files(t1) == 0 {
                    assert(self.state.individual_token_counts@[i] == TokenCacheEntry::Absent);
                    assert(queued@.len() == 0);
                    assert(!queued@.contains(i as usize));
                } else {
                    if queued@.contains(i as usize) {
                        let qi = choose|qi: int|
                            0 <= qi < queued@.len() && queued@[qi] == i as usize;
                        assert(t1.node(i).is_selected && !t1.node(i).is_directory);
                        assert(is_relevant(t1, i));
                        assert(self.state.individual_token_counts@[i]
                            == TokenCacheEntry::Pending);
                    } else if !is_relevant(t1, i) {
                        assert(self.state.individual_token_counts@[i]
                            == TokenCacheEntry::Absent);
                    } else if t1.node(i).is_directory {
                        crate::accounting::lemma_dir_sum_no_resolved(
                            t1,
                            mid.state.individual_token_counts@,
                            i,
                            nn,
                        );
                        assert(dir_sum(t1, mid.state.individual_token_counts@, i) == 0);
                        assert(self.state.individual_token_counts@[i]
                            == TokenCacheEntry::Resolved(0u64));
                    } else {
                        assert(self.state.individual_token_counts@[i]
                            == TokenCacheEntry::Absent);
                    }
                }
            }
        }
        queued
    }

    /// Clears every selection, the cache and the pending generation.
    fn key_unselect_all(&mut self, now_ms: u64)
        requires
            old(self).wf(),
        ensures
            final(self).wf(),
            final(self).state.file_tree.len() == old(self).state.file_tree.len(),
            forall|j: int|
                0 <= j < old(self).state.file_tree.len() ==> final(self).state.file_tree.node(j)
                    == (FileNode {
                    is_selected: false,
                    ..old(self).state.file_tree.node(j)
                }),
            forall|i: int|
                0 <= i < old(self).state.file_tree.len() ==> final(self).state.individual_token_counts@[i] == TokenCacheEntry::Absent,
            final(self).pending_count == 0,
            final(self).token_count == 0,
            !final(self).is_bulk_token_calculation,
            !final(self).suppress_status_messages,
            final(self).status_message@ == "Unselected all items"@,
    {
        let ghost t0 = self.state.file_tree;
        unselect_all_items(&mut self.state.file_tree);
        proof {
            t0.lemma_wf_flags_only(self.state.file_tree);
        }
        let n = self.state.file_tree.nodes.len();
        self.state.individual_token_counts = absent_cache(n);
        self.pending_token_calculations = false_flags(n);
        self.pending_count = 0;
        proof {
            lemma_count_all_false(self.pending_token_calculations@, n as int);
        }
        self.token_count = 0;
        self.is_bulk_token_calculation = false;
        self.suppress_status_messages = false;
        let m = String::from_str("Unselected all items");
        let kind = StatusKind::Generic;
        self.set_status_message(m, kind, now_ms);
    }

    /// Hands a key to the file-tree view and applies the follow-up
    /// rules: space lifts suppression and refreshes (debounced),
    /// expansion keys refresh during bulk calculations, and plain
    /// navigation suppresses transient messages.
    #[verifier::rlimit(100)]
    fn key_tree_view(&mut self, key: InputKey, now_ms: u64) -> (queued: Vec<usize>)
        requires
            old(self).wf(),
        ensures
            final(self).wf(),
            (key == InputKey::Up || key == InputKey::Down || key == InputKey::Char('j') || key
                == InputKey::Char('k')) ==> {
                &&& queued@.len() == 0
                &&& final(self).state == (AppState {
                    selected_index: (if key == InputKey::Up || key == InputKey::Char('k') {
                        nav_up_index(old(self).state)
                    } else {
                        nav_down_index(old(self).state)
                    }) as usize,
                    ..old(self).state
                })
                &&& final(self).suppress_status_messages
                &&& final(self).status_message@ == (if old(self).status_kind
                    == StatusKind::Calculating && !old(self).is_bulk_token_calculation {
                    Seq::<char>::empty()
                } else {
                    old(self).status_message@
                })
            },
            key == InputKey::Char(' ') ==> {
                let pre = *old(self);
                &&& (cursor_valid(pre.state) ==> toggled_at(
                    pre.state.file_tree,
                    final(self).state.file_tree,
                    cursor_target(pre.state),
                ))
                &&& (!cursor_valid(pre.state) ==> final(self).state.file_tree
                    == pre.state.file_tree)
                &&& ({
                    let mid = (App {
                        state: (AppState {
                            file_tree: final(self).state.file_tree,
                            ..pre.state
                        }),
                        suppress_status_messages: false,
                        ..pre
                    });
                    if elapsed_ms(pre.last_token_update_ms, now_ms)
                        < pre.token_update_debounce_ms {
                        *final(self) == mid && queued@.len() == 0
                    } else {
                        refreshed(
                            (App { last_token_update_ms: now_ms, ..mid }),
                            *final(self),
                            queued@,
                            now_ms,
                        )
                    }
                })
            },
    {
        let handled = crate::ui::handle_file_tree_input(&mut self.state, key);
        let mut queued: Vec<usize> = Vec::new();
        if handled {
            match key {
                InputKey::Char(' ') => {
                    self.suppress_status_messages = false;
                    queued = self.update_token_count_debounced(now_ms);
                },
                InputKey::Char('h') | InputKey::Char('l') | InputKey::Left
                    | InputKey::Right => {
                    if self.is_bulk_token_calculation {
                        queued = self.update_token_count_debounced(now_ms);
                    }
                },
                InputKey::Up | InputKey::Down | InputKey::Char('j') | InputKey::Char('k') => {
                    if self.status_kind == StatusKind::Calculating
                        && !self.is_bulk_token_calculation {
                        self.clear_status_message();
                    }
                    self.suppress_status_messages = true;
                },
                _ => {},
            }
        }
        queued
    }

    /// Handles one keyboard event: global commands (quit, run, option
    /// toggles, bulk selection commands) first, then the file-tree
    /// view's own navigation and selection keys. The outcome carries
    /// what the embedding application must do next.
    #[verifier::rlimit(100)]
    #[verifier::spinoff_prover]
    pub fn handle_key_event(&mut self, key: InputKey, ctrl: bool, now_ms: u64) -> (outcome:
        KeyOutcome)
        requires
            old(self).wf(),
            old(self).next_request_id < u64::MAX,
        ensures
            final(self).wf(),
            spec_quit_key(key, ctrl) ==> !outcome.should_continue && *final(self) == *old(self)
                && outcome.run_request is None && !outcome.save_config && outcome.queued@.len()
                == 0,
            !spec_quit_key(key, ctrl) ==> outcome.should_continue,
            !spec_quit_key(key, ctrl) && key == InputKey::Char('r') ==> ran_backend(
                *old(self),
                *final(self),
                outcome.run_request,
            ) && !outcome.save_config && outcome.queued@.len() == 0,
            spec_option_key(key, ctrl, *old(self)) ==> {
                &&& outcome.run_request is None
                &&& outcome.save_config
                &&& outcome.queued@.len() == 0
                &&& final(self).state.repomix_options == spec_toggled_options(
                    key,
                    old(self).state.repomix_options,
                )
                &&& final(self).config.compress == final(self).state.repomix_options.compress
                &&& final(self).config.remove_comments == final(self).state.repomix_options.remove_comments
                &&& final(self).config.include_file_tree == final(self).state.repomix_options.file_tree
                &&& final(self).config.output_format == final(self).state.repomix_options.output_format
                &&& final(self).status_message@ == spec_option_msg(
                    key,
                    final(self).state.repomix_options,
                )
            },
            !ctrl && key == InputKey::Char('E') ==> final(self).state.file_tree.len() == old(self).state.file_tree.len() && (forall|j: int|
                0 <= j < old(self).state.file_tree.len() ==> final(self).state.file_tree.node(j)
                    == (FileNode {
                    is_expanded: (old(self).state.file_tree.node(j).is_directory || old(self).state.file_tree.node(j).is_expanded),
                    ..old(self).state.file_tree.node(j)
                })) && final(self).state.visible_paths@ == final(self).state.file_tree.spec_visible_paths() && final(self).status_message@
                == "Expanded all directories"@,
            !ctrl && key == InputKey::Char('C') ==> final(self).state.file_tree.len() == old(self).state.file_tree.len() && (forall|j: int|
                0 < j < old(self).state.file_tree.len() ==> final(self).state.file_tree.node(j)
                    == (FileNode {
                    is_expanded: false,
                    ..old(self).state.file_tree.node(j)
                })) && final(self).state.file_tree.node(0) == (FileNode {
                is_expanded: true,
                ..old(self).state.file_tree.node(0)
            }) && final(self).state.visible_paths@ == final(self).state.file_tree.spec_visible_paths() && final(self).status_message@
                == "Collapsed all directories"@,
            !ctrl && key == InputKey::Char('A') ==> {
                let t1 = final(self).state.file_tree;
                &&& t1.len() == old(self).state.file_tree.len()
                &&& forall|k: int|
                    0 <= k < t1.len() ==> t1.node(k) == (FileNode {
                        is_selected: covered_by_visible(
                            old(self).state.file_tree,
                            old(self).state.visible_paths@,
                            k,
                            old(self).state.visible_paths@.len() as int,
                        ),
                        ..old(self).state.file_tree.node(k)
                    })
                &&& final(self).token_count == 0
                &&& final(self).is_bulk_token_calculation == (num_selected_files(t1) > 0)
                &&& forall|i: int|
                    0 <= i < t1.len() ==> #[trigger] final(self).state.individual_token_counts@[i]
                        == (if num_selected_files(t1) > 0 && t1.node(i).is_directory
                        && is_relevant(t1, i) {
                        TokenCacheEntry::Resolved(0u64)
                    } else if outcome.queued@.contains(i as usize) {
                        TokenCacheEntry::Pending
                    } else {
                        TokenCacheEntry::Absent
                    })
                &&& forall|i: int|
                    0 <= i < t1.len() ==> #[trigger] final(self).pending_token_calculations@[i]
                        == outcome.queued@.contains(i as usize)
                &&& final(self).pending_count == outcome.queued@.len()
                &&& outcome.queued@.len() <= MAX_FILES_FOR_TOKEN_CALC
                &&& (num_selected_files(t1) <= MAX_FILES_FOR_TOKEN_CALC ==> forall|f: int|
                    0 <= f < t1.len() && t1.node(f).is_selected && !t1.node(f).is_directory
                        ==> #[trigger] outcome.queued@.contains(f as usize))
            },
            !ctrl && key == InputKey::Char('U') ==> (forall|j: int|
                0 <= j < old(self).state.file_tree.len() ==> final(self).state.file_tree.node(j)
                    == (FileNode {
                    is_selected: false,
                    ..old(self).state.file_tree.node(j)
                })) && (forall|i: int|
                0 <= i < old(self).state.file_tree.len() ==> final(self).state.individual_token_counts@[i] == TokenCacheEntry::Absent) && final(self).pending_count == 0 && final(self).token_count == 0 && !final(self).is_bulk_token_calculation && final(self).status_message@
                == "Unselected all items"@,
            spec_plain_nav_key(key, ctrl) ==> final(self).state == (AppState {
                selected_index: (if key == InputKey::Up || key == InputKey::Char('k') {
                    nav_up_index(old(self).state)
                } else {
                    nav_down_index(old(self).state)
                }) as usize,
                ..old(self).state
            }) && final(self).suppress_status_messages && outcome.queued@.len() == 0,
            spec_space_key(key, ctrl) ==> {
                let pre = *old(self);
                &&& (cursor_valid(pre.state) ==> toggled_at(
                    pre.state.file_tree,
                    final(self).state.file_tree,
                    cursor_target(pre.state),
                ))
                &&& (!cursor_valid(pre.state) ==> final(self).state.file_tree
                    == pre.state.file_tree)
                &&& ({
                    let mid = (App {
                        state: (AppState {
                            file_tree: final(self).state.file_tree,
                            ..pre.state
                        }),
                        suppress_status_messages: false,
                        ..pre
                    });
                    if elapsed_ms(pre.last_token_update_ms, now_ms)
                        < pre.token_update_debounce_ms {
                        *final(self) == mid && outcome.queued@.len() == 0
                    } else {
                        refreshed(
                            (App { last_token_update_ms: now_ms, ..mid }),
                            *final(self),
                            outcome.queued@,
                            now_ms,
                        )
                    }
                })
            },
    {
        if ctrl {
            match key {
                InputKey::Char(c) => {
                    if c == 'c' {
                        return KeyOutcome {
                            should_continue: false,
                            run_request: None,
                            save_config: false,
                            queued: Vec::new(),
                        };
                    }
                },
                _ => {},
            }
        }
        let is_repomix = self.state.repomix_options.backend == Backend::Repomix;
        match key {
            InputKey::Char('q') | InputKey::Esc => {
                return KeyOutcome {
                    should_continue: false,
                    run_request: None,
                    save_config: false,
                    queued: Vec::new(),
                };
            },
            InputKey::Char('r') => {
                let run_request = self.run_backend(now_ms);
                return KeyOutcome {
                    should_continue: true,
                    run_request,
                    save_config: false,
                    queued: Vec::new(),
                };
            },
            InputKey::Char('c') | InputKey::Char('m') | InputKey::Char('f')
                | InputKey::Char('t') => {
                if is_repomix {
                    self.key_toggle_option(key, now_ms);
                    return KeyOutcome {
                        should_continue: true,
                        run_request: None,
                        save_config: true,
                        queued: Vec::new(),
                    };
                }
            },
            InputKey::Char('E') => {
                self.key_expand_all(now_ms);
                return KeyOutcome {
                    should_continue: true,
                    run_request: None,
                    save_config: false,
                    queued: Vec::new(),
                };
            },
            InputKey::Char('C') => {
                self.key_collapse_all(now_ms);
                return KeyOutcome {
                    should_continue: true,
                    run_request: None,
                    save_config: false,
                    queued: Vec::new(),
                };
            },
            InputKey::Char('A') => {
                let queued = self.key_select_all(now_ms);
                return KeyOutcome {
                    should_continue: true,
                    run_request: None,
                    save_config: false,
                    queued,
                };
            },
            InputKey::Char('U') => {
                self.key_unselect_all(now_ms);
                return KeyOutcome {
                    should_continue: true,
                    run_request: None,
                    save_config: false,
                    queued: Vec::new(),
                };
            },
            _ => {},
        }
        let queued = self.key_tree_view(key, now_ms);
        KeyOutcome { should_continue: true, run_request: None, save_config: false, queued }
    }

    /// Which visible row a click at this terminal row lands on, if any:
    /// the configuration box (repomix only) and the header sit above the
    /// file list.
    pub fn calculate_clicked_file_index(&self, row: u16) -> (r: Option<usize>)
        ensures
            r == spec_clicked_index(*self, row as int),
    {
        let config_height: u16 = match self.state.repomix_options.backend {
            Backend::Repomix => 3,
            Backend::Yek => 0,
        };
        let file_list_start_row = config_height + 2;
        if row < file_list_start_row {
            return None;
        }
        let file_row = (row - file_list_start_row) as usize;
        if file_row < self.state.visible_paths.len() {
            Some(file_row)
        } else {
            None
        }
    }

    /// Handles a left click in the file tree: the click moves the cursor,
    /// a click on a directory's expansion icon toggles its expansion, and
    /// a click anywhere else on a row toggles the row's selection. A
    /// selection change triggers a debounced token refresh.
    #[verifier::rlimit(100)]
    pub fn handle_mouse_click(&mut self, column: u16, row: u16, now_ms: u64) -> (queued: Vec<
        usize,
    >)
        requires
            old(self).wf(),
        ensures
            final(self).wf(),
            spec_clicked_index(*old(self), row as int) is None ==> *final(self) == *old(self)
                && queued@.len() == 0,
    {
        let clicked = self.calculate_clicked_file_index(row);
        match clicked {
            None => {
                return Vec::new();
            },
            Some(idx) => {
                if idx < self.state.visible_paths.len() {
                    self.state.selected_index = idx;
                    let v = self.state.visible_paths[idx];
                    if v < self.state.file_tree.nodes.len() {
                        if self.state.file_tree.nodes[v].is_directory {
                            let depth = self.state.file_tree.nodes[v].depth;
                            let display_depth = if depth > 0 {
                                depth - 1
                            } else {
                                0
                            };
                            let col = column as usize;
                            let on_icon = if display_depth <= 32767 {
                                let icon_start = 2 * display_depth;
                                col >= icon_start && col <= icon_start + 4
                            } else {
                                false
                            };
                            if on_icon {
                                let ghost t0 = self.state.file_tree;
                                self.state.file_tree.toggle_node_expansion(v);
                                proof {
                                    t0.lemma_wf_flags_only(self.state.file_tree);
                                }
                                crate::ui::update_visible_files(&mut self.state);
                            } else {
                                toggle_selection_recursive(&mut self.state.file_tree, v);
                            }
                        } else {
                            toggle_selection_recursive(&mut self.state.file_tree, v);
                        }
                        return self.update_token_count_debounced(now_ms);
                    }
                }
                Vec::new()
            },
        }
    }

    /// Handles one mouse event: scrolling moves the cursor with
    /// wrap-around, a left click selects or expands what it hits.
    pub fn handle_mouse_event(&mut self, mouse: MouseInput, now_ms: u64) -> (queued: Vec<usize>)
        requires
            old(self).wf(),
        ensures
            final(self).wf(),
            mouse == MouseInput::ScrollUp ==> *final(self) == (App {
                state: (AppState {
                    selected_index: nav_up_index(old(self).state) as usize,
                    ..old(self).state
                }),
                ..*old(self)
            }) && queued@.len() == 0,
            mouse == MouseInput::ScrollDown ==> *final(self) == (App {
                state: (AppState {
                    selected_index: nav_down_index(old(self).state) as usize,
                    ..old(self).state
                }),
                ..*old(self)
            }) && queued@.len() == 0,
            mouse == MouseInput::Other ==> *final(self) == *old(self) && queued@.len() == 0,
    {
        match mouse {
            MouseInput::LeftDown(column, row) => self.handle_mouse_click(column, row, now_ms),
            MouseInput::ScrollUp => {
                if self.state.visible_paths.len() == 0 {
                } else if self.state.selected_index == 0 {
                    self.state.selected_index = self.state.visible_paths.len() - 1;
                } else {
                    self.state.selected_index = self.state.selected_index - 1;
                }
                Vec::new()
            },
            MouseInput::ScrollDown => {
                if self.state.visible_paths.len() == 0 {
                } else if self.state.selected_index >= self.state.visible_paths.len() - 1 {
                    self.state.selected_index = 0;
                } else {
                    self.state.selected_index = self.state.selected_index + 1;
                }
                Vec::new()
            },
            MouseInput::Other => Vec::new(),
        }
    }
}

/// A mouse event, as the engine sees it after the terminal layer has
/// decoded the raw event.
#[derive(Debug, Clone, Copy, PartialEq, Eq, Structural)]
pub enum MouseInput {
    /// left button pressed at (column, row)
    LeftDown(u16, u16),
    ScrollUp,
    ScrollDown,
    Other,
}

/// Which visible row a click at this terminal row lands on: rows above
/// the file list (the repomix configuration box and the header) and rows
/// past the end of the list land nowhere.
pub open spec fn spec_clicked_index(app: App, row: int) -> Option<usize> {
    let start = (if app.state.repomix_options.backend == Backend::Repomix {
        3int
    } else {
        0int
    }) + 2;
    if row < start {
        None
    } else if row - start < app.state.visible_paths@.len() {
        Some((row - start) as usize)
    } else {
        None
    }
}


/// A quit command: Ctrl-C, `q`, or escape.
pub open spec fn spec_quit_key(key: InputKey, ctrl: bool) -> bool {
    ||| (ctrl && key == InputKey::Char('c'))
    ||| key == InputKey::Char('q')
    ||| key == InputKey::Esc
}

/// An option-toggle command: `c`, `m`, `f` or `t` while the repomix
/// backend is active.
pub open spec fn spec_option_key(key: InputKey, ctrl: bool, app: App) -> bool {
    &&& !ctrl
    &&& app.state.repomix_options.backend == Backend::Repomix
    &&& (key == InputKey::Char('m') || key == InputKey::Char('f') || key == InputKey::Char('t')
        || key == InputKey::Char('c'))
}

/// A plain cursor-movement key (no quit involved).
pub open spec fn spec_plain_nav_key(key: InputKey, ctrl: bool) -> bool {
    &&& !(ctrl && key == InputKey::Char('c'))
    &&& (key == InputKey::Up || key == InputKey::Down || key == InputKey::Char('j') || key
        == InputKey::Char('k'))
}

/// The selection-toggle key.
pub open spec fn spec_space_key(key: InputKey, ctrl: bool) -> bool {
    !(ctrl && key == InputKey::Char('c')) && key == InputKey::Char(' ')
}

/// The run options after one option-toggle key.
pub open spec fn spec_toggled_options(key: InputKey, o: RepomixOptions) -> RepomixOptions {
    if key == InputKey::Char('c') {
        RepomixOptions { compress: !o.compress, ..o }
    } else if key == InputKey::Char('m') {
        RepomixOptions { remove_comments: !o.remove_comments, ..o }
    } else if key == InputKey::Char('t') {
        RepomixOptions { file_tree: !o.file_tree, ..o }
    } else {
        RepomixOptions {
            output_format: (if o.output_format == OutputFormat::PlainText {
                OutputFormat::Markdown
            } else if o.output_format == OutputFormat::Markdown {
                OutputFormat::Xml
            } else {
                OutputFormat::PlainText
            }),
            ..o
        }
    }
}

/// The status line after one option-toggle key, on the new options.
pub open spec fn spec_option_msg(key: InputKey, o: RepomixOptions) -> Seq<char> {
    if key == InputKey::Char('c') {
        if o.compress {
            "Compress: enabled"@
        } else {
            "Compress: disabled"@
        }
    } else if key == InputKey::Char('m') {
        if o.remove_comments {
            "Remove comments: enabled"@
        } else {
            "Remove comments: disabled"@
        }
    } else if key == InputKey::Char('t') {
        if o.file_tree {
            "File tree: enabled"@
        } else {
            "File tree: disabled"@
        }
    } else {
        "Output format: "@ + (if o.output_format == OutputFormat::PlainText {
            "Plain Text"@
        } else if o.output_format == OutputFormat::Markdown {
            "Markdown"@
        } else {
            "XML"@
        })
    }
}

/// An exact copy of a list of arena indices.
fn copy_ids(ids: &Vec<usize>) -> (r: Vec<usize>)
    ensures
        r@ == ids@,
{
    let mut r: Vec<usize> = Vec::new();
    let mut i: usize = 0;
    while i < ids.len()
        invariant
            i <= ids@.len(),
            r@ == ids@.take(i as int),
        decreases ids@.len() - i,
    {
        r.push(ids[i]);
        i = i + 1;
        proof {
            assert(r@ =~= ids@.take(i as int));
        }
    }
    proof {
        assert(ids@.take(ids@.len() as int) =~= ids@);
    }
    r
}

/// The view of a warning list joined with `", "`.
pub open spec fn spec_join_comma(ws: Seq<Seq<char>>) -> Seq<char>
    decreases ws.len(),
{
    if ws.len() == 0 {
        Seq::empty()
    } else if ws.len() == 1 {
        ws[0]
    } else {
        spec_join_comma(ws.drop_last()) + ", "@ + ws.last()
    }
}

/// Joins warning strings with `", "`.
fn join_comma(ws: &Vec<String>) -> (r: String)
    ensures
        r@ == spec_join_comma(ws@.map_values(|w: String| w@)),
{
    let mut r = String::new();
    let mut i: usize = 0;
    proof {
        assert(ws@.map_values(|w: String| w@).take(0) =~= Seq::<Seq<char>>::empty());
    }
    while i < ws.len()
        invariant
            i <= ws@.len(),
            r@ == spec_join_comma(ws@.map_values(|w: String| w@).take(i as int)),
        decreases ws@.len() - i,
    {
        if i > 0 {
            r.append(", ");
        }
        r.append(ws[i].as_str());
        i = i + 1;
        proof {
            let views = ws@.map_values(|w: String| w@);
            assert(views.take(i as int).drop_last() =~= views.take(i - 1));
            assert(views.take(i as int).last() == views[i - 1]);
            if i == 1 {
                assert(r@ =~= spec_join_comma(views.take(1)));
            } else {
                assert(r@ =~= spec_join_comma(views.take(i as int)));
            }
        }
    }
    proof {
        assert(ws@.map_values(|w: String| w@).take(ws@.len() as int) =~= ws@.map_values(
            |w: String| w@,
        ));
    }
    r
}

/// The paths of the given arena indices, in order.
fn selected_file_paths(tree: &FileTree, ids: &Vec<usize>) -> (r: Vec<String>)
    requires
        forall|i: int| 0 <= i < ids@.len() ==> (#[trigger] ids@[i] as int) < tree.len(),
    ensures
        r@.len() == ids@.len(),
        forall|i: int| 0 <= i < ids@.len() ==> #[trigger] r@[i]@ == tree.node(ids@[i] as int).path@,
{
    let mut r: Vec<String> = Vec::new();
    let mut i: usize = 0;
    while i < ids.len()
        invariant
            i <= ids@.len(),
            forall|j: int| 0 <= j < ids@.len() ==> (#[trigger] ids@[j] as int) < tree.len(),
            r@.len() == i,
            forall|j: int| 0 <= j < i ==> #[trigger] r@[j]@ == tree.node(ids@[j] as int).path@,
        decreases ids@.len() - i,
    {
        let id = ids[i];
        r.push(tree.nodes[id].path.clone());
        i = i + 1;
    }
    r
}

/// The status line shown when a run starts.
pub open spec fn spec_running_msg(backend: Backend, n_files: int) -> Seq<char> {
    "Running "@ + (if backend == Backend::Repomix {
        "Repomix"@
    } else {
        "Yek"@
    }) + " on "@ + spec_decimal(n_files) + " files..."@
}

/// A backend message truncated for the status line: at most 100
/// characters, with an ellipsis when something was cut.
pub open spec fn spec_truncated_msg(m: Seq<char>) -> Seq<char> {
    if m.len() > 100 {
        m.take(100) + "..."@
    } else {
        m
    }
}

/// What starting a run does: with nothing selected or the repomix
/// download unfinished nothing starts and the status line says why;
/// otherwise a request tagged with a fresh, strictly increasing
/// identifier goes out, supersedes any run in flight, and the status
/// line reports the started run.
pub open spec fn ran_backend(pre: App, post: App, r: Option<BackendRequest>) -> bool {
    &&& post.state == pre.state
    &&& post == (App {
        status_message: post.status_message,
        status_kind: post.status_kind,
        status_updated_at_ms: post.status_updated_at_ms,
        is_processing: post.is_processing,
        next_request_id: post.next_request_id,
        current_request_id: post.current_request_id,
        repomix: post.repomix,
        ..pre
    })
    &&& (r is Some <==> (num_selected_files(pre.state.file_tree) > 0 && (
    pre.state.repomix_options.backend == Backend::Yek || pre.repomix.download_status is Ready)))
    &&& (num_selected_files(pre.state.file_tree) == 0 ==> post.next_request_id
        == pre.next_request_id && post.current_request_id == pre.current_request_id
        && post.is_processing == pre.is_processing && post.repomix == pre.repomix
        && post.status_message@ == "No files selected for processing"@)
    &&& (r is Some ==> {
        let req = r.unwrap();
        &&& req.request_id == pre.next_request_id
        &&& req.backend == pre.state.repomix_options.backend
        &&& req.root_path == pre.state.root_path
        &&& req.selected_files@.len() == num_selected_files(pre.state.file_tree)
        &&& post.next_request_id == pre.next_request_id + 1
        &&& post.current_request_id == Some(req.request_id)
        &&& post.is_processing
        &&& post.status_message@ == spec_running_msg(
            pre.state.repomix_options.backend,
            num_selected_files(pre.state.file_tree),
        )
    })
    &&& (r is None && num_selected_files(pre.state.file_tree) > 0 ==> post.next_request_id
        == pre.next_request_id && !post.is_processing && (pre.is_processing
        ==> post.current_request_id is None) && (!pre.is_processing ==> post.current_request_id
        == pre.current_request_id))
}

/// The status text shown when a bulk refresh hits the enqueue ceiling.
pub open spec fn spec_refresh_bulk_msg(n_selected: int) -> Seq<char> {
    "Processing "@ + spec_decimal(n_selected) + " files (showing first 1000)..."@
}

/// What one non-blocking token refresh does to the application core.
///
/// With nothing selected everything is cleared. Otherwise: entries of
/// paths that are no longer relevant are pruned, the grand total is the
/// clamped sum of the already-resolved selected files, every relevant
/// directory holds its recomputed subtotal, and the files handed back in
/// `queued` — selected files without a cache entry, capped at the
/// enqueue ceiling — are marked pending and form the new generation.
pub open spec fn refreshed(pre: App, post: App, queued: Seq<usize>, now_ms: u64) -> bool {
    let t = pre.state.file_tree;
    let cache0 = pre.state.individual_token_counts@;
    let n = t.len() as int;
    &&& post.state.file_tree == t
    &&& post.state.individual_token_counts@.len() == n
    &&& post.state == (AppState {
        individual_token_counts: post.state.individual_token_counts,
        ..pre.state
    })
    &&& post == (App {
        state: post.state,
        token_count: post.token_count,
        status_message: post.status_message,
        status_kind: post.status_kind,
        status_updated_at_ms: post.status_updated_at_ms,
        pending_token_calculations: post.pending_token_calculations,
        pending_count: post.pending_count,
        is_bulk_token_calculation: post.is_bulk_token_calculation,
        suppress_status_messages: post.suppress_status_messages,
        ..pre
    })
    &&& post.pending_token_calculations@.len() == n
    &&& if num_selected_files(t) == 0 {
        &&& post.token_count == 0
        &&& forall|i: int|
            0 <= i < n ==> post.state.individual_token_counts@[i] == TokenCacheEntry::Absent
        &&& forall|i: int| 0 <= i < n ==> !post.pending_token_calculations@[i]
        &&& post.pending_count == 0
        &&& !post.is_bulk_token_calculation
        &&& !post.suppress_status_messages
        &&& queued.len() == 0
        &&& post.status_message == pre.status_message
        &&& post.status_kind == pre.status_kind
        &&& post.status_updated_at_ms == pre.status_updated_at_ms
    } else {
        &&& post.token_count as int == clamp64(spec_total(t, cache0))
        &&& forall|i: int|
            0 <= i < n ==> #[trigger] post.state.individual_token_counts@[i] == (if !is_relevant(
                t,
                i,
            ) {
                TokenCacheEntry::Absent
            } else if t.node(i).is_directory {
                TokenCacheEntry::Resolved(clamp64(dir_sum(t, cache0, i)) as u64)
            } else if queued.contains(i as usize) {
                TokenCacheEntry::Pending
            } else {
                cache0[i]
            })
        &&& forall|qi: int|
            0 <= qi < queued.len() ==> (#[trigger] queued[qi] as int) < n && t.node(
                queued[qi] as int,
            ).is_selected && !t.node(queued[qi] as int).is_directory && cache0[queued[qi] as int] is Absent
        &&& forall|i1: int, i2: int| 0 <= i1 < i2 < queued.len() ==> queued[i1] < queued[i2]
        &&& queued.len() <= MAX_FILES_FOR_TOKEN_CALC
        &&& forall|i: int|
            0 <= i < n ==> #[trigger] post.pending_token_calculations@[i] == queued.contains(
                i as usize,
            )
        &&& post.pending_count == queued.len()
        &&& (num_selected_files(t) <= MAX_FILES_FOR_TOKEN_CALC ==> forall|f: int|
            0 <= f < n && t.node(f).is_selected && !t.node(f).is_directory && cache0[f] is Absent
                ==> #[trigger] queued.contains(f as usize))
        &&& post.is_bulk_token_calculation == pre.is_bulk_token_calculation
        &&& post.suppress_status_messages == pre.suppress_status_messages
        &&& if num_selected_files(t) > MAX_FILES_FOR_TOKEN_CALC
            && pre.is_bulk_token_calculation {
            &&& post.status_message@ == spec_refresh_bulk_msg(num_selected_files(t))
            &&& post.status_kind == StatusKind::Generic
            &&& post.status_updated_at_ms == now_ms
        } else {
            &&& post.status_message == pre.status_message
            &&& post.status_kind == pre.status_kind
            &&& post.status_updated_at_ms == pre.status_updated_at_ms
        }
    }
}

/// Milliseconds from `t` to `now`, zero if the clock went backwards.
pub open spec fn elapsed_ms(t: u64, now: u64) -> int {
    if now >= t {
        now - t
    } else {
        0
    }
}

/// Whether the showing status message has outlived its category's
/// lifetime: five seconds during bulk calculations, otherwise one
/// second for progress, two for completions and three for the rest.
pub open spec fn spec_status_expired(app: App, now_ms: u64) -> bool {
    &&& app.status_message@.len() > 0
    &&& !app.is_processing
    &&& elapsed_ms(app.status_updated_at_ms, now_ms) > (if app.is_bulk_token_calculation {
        5000int
    } else {
        match app.status_kind {
            StatusKind::Calculating => 1000int,
            StatusKind::Completion => 2000int,
            StatusKind::Generic => 3000int,
        }
    })
}

/// Milliseconds from `t` to `now`, zero if the clock went backwards.
fn saturating_elapsed(t: u64, now: u64) -> (r: u64)
    ensures
        r as int == elapsed_ms(t, now),
{
    if now >= t {
        now - t
    } else {
        0
    }
}

/// An all-false flag vector has a zero count.
proof fn lemma_count_all_false(s: Seq<bool>, k: int)
    requires
        forall|j: int| 0 <= j < k ==> !s[j],
    ensures
        count_true(s, k) == 0,
    decreases k,
{
    if k > 0 {
        lemma_count_all_false(s, k - 1);
    }
}

} // verus!
