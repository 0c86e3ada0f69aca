//! The execution coordinator: run identifiers, stale-result rejection,
//! the download state machine, validators, input handling and the real
//! tokenizer.

use siff::app::App;
use siff::app::InputKey;
use siff::app::KeyOutcome;
use siff::app::StatusKind;
use siff::backends::DownloadStatus;
use siff::backends::Repomix;
use siff::backends::validate_isolated_repomix_options;
use siff::backends::validate_yek_options;
use siff::backends::Yek;
use siff::config::SifConfig;
use siff::selection::toggle_selection_recursive;
use siff::tokenizer::TokenCounter;
use siff::tree::FileNode;
use siff::tree::FileTree;
use siff::types::Backend;
use siff::types::BackendResult;
use siff::types::RepomixOptions;
use siff::ui::handle_file_tree_input;

fn yek_app() -> (App, usize, usize) {
    let root = FileNode::new(String::from("proj"), true, 0);
    let mut tree = FileTree::new(root);
    let src = tree.add_child(0, String::from("src"), true);
    let a = tree.add_child(src, String::from("a.rs"), false);
    let mut options = RepomixOptions::default();
    options.backend = Backend::Yek;
    let repomix = Repomix::new(String::from("cache"), String::from("cache/entry"), false);
    let app = App::new(
        String::from("proj"),
        tree,
        options,
        SifConfig::default(),
        repomix,
        0,
    );
    (app, src, a)
}

#[test]
fn test_stale_result_rejection() {
    // Run A starts, run B supersedes it before A's backend returns: A's
    // eventual result is discarded, B's result is the one surfaced.
    let (mut app, _src, a) = yek_app();
    toggle_selection_recursive(&mut app.state.file_tree, a);
    let req_a = app.run_backend(10).expect("run A should start");
    let req_b = app.run_backend(20).expect("run B should supersede A");
    assert!(req_b.request_id > req_a.request_id);
    let status_before = app.status_message.clone();
    let processing_before = app.is_processing;
    let result_a = BackendResult {
        success: true,
        message: String::from("A finished late"),
        output_file: None,
        error: None,
        request_id: req_a.request_id,
    };
    // the stale result must not mutate the surfaced status or the
    // processing flag
    assert!(!app.process_backend_result(result_a, 30));
    assert_eq!(app.status_message, status_before);
    assert_eq!(app.is_processing, processing_before);
    assert_eq!(app.current_request_id, Some(req_b.request_id));
    let result_b = BackendResult {
        success: true,
        message: String::from("B done"),
        output_file: None,
        error: None,
        request_id: req_b.request_id,
    };
    assert!(app.process_backend_result(result_b, 40));
    assert_eq!(app.status_message, "B done");
    assert!(!app.is_processing);
    assert_eq!(app.current_request_id, None);
}

#[test]
fn test_backend_result_variants() {
    let (mut app, _src, a) = yek_app();
    toggle_selection_recursive(&mut app.state.file_tree, a);
    let req = app.run_backend(0).unwrap();
    assert_eq!(req.backend, Backend::Yek);
    assert_eq!(req.selected_files, vec![String::from("proj/src/a.rs")]);
    assert_eq!(req.root_path, "proj");
    let failure = BackendResult {
        success: false,
        message: String::new(),
        output_file: None,
        error: Some(String::from("Error: yek error exit 1")),
        request_id: req.request_id,
    };
    assert!(app.process_backend_result(failure, 5));
    assert_eq!(app.status_message, "Error: yek error exit 1");
    // a second run reports its output file in the status line
    let req2 = app.run_backend(10).unwrap();
    let ok = BackendResult {
        success: true,
        message: String::from("3 files processed"),
        output_file: Some(String::from("out.md")),
        error: None,
        request_id: req2.request_id,
    };
    assert!(app.process_backend_result(ok, 15));
    assert_eq!(app.status_message, "3 files processed | Output: out.md");
}

#[test]
fn test_run_backend_without_selection() {
    let (mut app, _src, _a) = yek_app();
    assert!(app.run_backend(0).is_none());
    assert_eq!(app.status_message, "No files selected for processing");
    assert!(!app.is_processing);
}

#[test]
fn test_run_backend_waits_for_repomix_download() {
    let (mut app, _src, a) = yek_app();
    app.state.repomix_options.backend = Backend::Repomix;
    toggle_selection_recursive(&mut app.state.file_tree, a);
    // download not started: the run is refused and the download starts
    assert!(app.run_backend(0).is_none());
    assert_eq!(app.status_message, "Starting repomix download...");
    assert!(matches!(app.repomix.download_status(), DownloadStatus::Downloading(_)));
    // once ready, the run goes out
    assert!(app.update_repomix_download(Ok(()), 1));
    assert_eq!(app.status_message, "Repomix ready!");
    let req = app.run_backend(2).unwrap();
    assert_eq!(req.backend, Backend::Repomix);
    assert_eq!(app.status_message, "Running Repomix on 1 files...");
}

#[test]
fn test_download_status_machine() {
    let mut repomix = Repomix::new(String::from("cache"), String::from("cache/entry"), false);
    assert!(matches!(repomix.download_status(), DownloadStatus::NotStarted));
    assert_eq!(
        repomix.ensure_repomix(false).unwrap_err(),
        "Repomix download not started yet"
    );
    assert!(repomix.start_background_download());
    assert!(!repomix.start_background_download());
    assert!(
        repomix
            .ensure_repomix(false)
            .unwrap_err()
            .starts_with("Repomix is still downloading: ")
    );
    assert!(repomix.update_background_download(Err(String::from("network down"))));
    assert_eq!(
        repomix.ensure_repomix(false).unwrap_err(),
        "Repomix download failed: network down"
    );
    assert!(repomix.start_background_download());
    assert!(repomix.update_background_download(Ok(())));
    assert!(matches!(repomix.download_status(), DownloadStatus::Ready));
    assert_eq!(repomix.ensure_repomix(true).unwrap(), "cache/entry");
    // a ready installation whose entry point vanished falls back
    assert_eq!(
        repomix.ensure_repomix(false).unwrap_err(),
        "Repomix cache was deleted, restarting download..."
    );
    assert!(matches!(repomix.download_status(), DownloadStatus::NotStarted));
}

#[test]
fn test_validators() {
    let empty: Vec<String> = Vec::new();
    assert_eq!(
        validate_isolated_repomix_options(&RepomixOptions::default(), &empty),
        vec![String::from("No files selected for processing")]
    );
    assert_eq!(validate_yek_options(&empty), vec![String::from("No files selected")]);
    let few = vec![String::from("a.rs"), String::from("b.rs")];
    assert_eq!(validate_isolated_repomix_options(&RepomixOptions::default(), &few).len(), 0);
    assert_eq!(validate_yek_options(&few).len(), 0);
    let mut many: Vec<String> = Vec::new();
    for i in 0..101 {
        many.push(format!("file{}.rs", i));
    }
    assert_eq!(
        validate_isolated_repomix_options(&RepomixOptions::default(), &many),
        vec![String::from(
            "Large number of files selected (101). May take a moment to process."
        )]
    );
    assert_eq!(validate_yek_options(&many).len(), 0);
}

#[test]
fn test_yek_handle() {
    let yek = Yek::new(String::from("bin/yek"));
    assert_eq!(yek.yek_binary_path, "bin/yek");
}

#[test]
fn test_key_event_select_all_and_quit() {
    let (mut app, src, a) = yek_app();
    app.state.file_tree.nodes[0].is_expanded = true;
    app.state.visible_paths = siff::tree::flatten_visible_tree(&app.state.file_tree);
    let outcome: KeyOutcome = app.handle_key_event(InputKey::Char('A'), false, 0);
    assert!(outcome.should_continue);
    // select-all on a tree with one visible file: the pending set holds
    // exactly that file
    assert_eq!(outcome.queued, vec![a]);
    assert!(app.state.file_tree.nodes[src].is_selected);
    assert!(app.state.file_tree.nodes[a].is_selected);
    assert!(app.is_bulk_token_calculation);
    assert_eq!(app.status_message, "Selected all items - calculating tokens...");
    assert!(app.process_token_result(a, 42, 1));
    assert_eq!(app.token_count, 42);
    assert_eq!(app.status_message, "\u{2713} Calculated tokens for 1 files");
    let unselect = app.handle_key_event(InputKey::Char('U'), false, 2);
    assert!(unselect.should_continue);
    assert!(!app.state.file_tree.nodes[a].is_selected);
    assert_eq!(app.token_count, 0);
    let quit = app.handle_key_event(InputKey::Char('q'), false, 3);
    assert!(!quit.should_continue);
    let ctrl_c = app.handle_key_event(InputKey::Char('c'), true, 4);
    assert!(!ctrl_c.should_continue);
}

#[test]
fn test_navigation_and_expansion_keys() {
    let (mut app, src, a) = yek_app();
    app.state.file_tree.nodes[0].is_expanded = true;
    app.state.visible_paths = siff::tree::flatten_visible_tree(&app.state.file_tree);
    assert_eq!(app.state.visible_paths, vec![src]);
    // expand the directory under the cursor
    let handled = handle_file_tree_input(&mut app.state, InputKey::Right);
    assert!(handled);
    assert_eq!(app.state.visible_paths, vec![src, a]);
    // wrap-around navigation
    assert!(handle_file_tree_input(&mut app.state, InputKey::Down));
    assert_eq!(app.state.selected_index, 1);
    assert!(handle_file_tree_input(&mut app.state, InputKey::Down));
    assert_eq!(app.state.selected_index, 0);
    assert!(handle_file_tree_input(&mut app.state, InputKey::Up));
    assert_eq!(app.state.selected_index, 1);
    // space toggles the selection under the cursor
    assert!(handle_file_tree_input(&mut app.state, InputKey::Char(' ')));
    assert!(app.state.file_tree.nodes[a].is_selected);
    // collapse hides the file again and clamps the cursor
    app.state.selected_index = 0;
    assert!(handle_file_tree_input(&mut app.state, InputKey::Left));
    assert_eq!(app.state.visible_paths, vec![src]);
    assert!(!handle_file_tree_input(&mut app.state, InputKey::Esc));
}

#[test]
fn test_option_toggle_keys() {
    let (mut app, _src, _a) = yek_app();
    app.state.repomix_options.backend = Backend::Repomix;
    let outcome = app.handle_key_event(InputKey::Char('c'), false, 0);
    assert!(outcome.save_config);
    assert!(app.state.repomix_options.compress);
    assert!(app.config.compress);
    assert_eq!(app.status_message, "Compress: enabled");
    let outcome2 = app.handle_key_event(InputKey::Char('f'), false, 1);
    assert!(outcome2.save_config);
    assert_eq!(app.state.repomix_options.output_format, siff::types::OutputFormat::Markdown);
    assert_eq!(app.status_message, "Output format: Markdown");
}

#[test]
fn test_periodic_update_expiry() {
    let (mut app, _src, _a) = yek_app();
    app.set_status_message(String::from("hello"), StatusKind::Generic, 0);
    app.periodic_update(2000);
    assert_eq!(app.status_message, "hello");
    app.periodic_update(3001);
    assert_eq!(app.status_message, "");
    app.set_status_message(String::from("done"), StatusKind::Completion, 5000);
    app.periodic_update(7001);
    assert_eq!(app.status_message, "");
}

#[test]
fn test_tokenizer_counts_text() {
    let counter = TokenCounter::new().expect("the bundled o200k encoder should build");
    let n = counter.count_text_tokens("fn main() { println!(\"hello world\"); }\n");
    assert!(n > 0);
    assert!(n <= 40);
    let longer = counter.count_text_tokens(
        "The quick brown fox jumps over the lazy dog, again and again and again.",
    );
    assert!(longer >= 1);
    assert!(longer <= 80);
}
