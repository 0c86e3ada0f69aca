//! Token-count formatting, configuration defaults and the small display
//! helpers.

use siff::config::SifConfig;
use siff::numfmt::format_token_count;
use siff::numfmt::u64_to_string;
use siff::tree::FileNode;
use siff::types::Backend;
use siff::types::OutputFormat;
use siff::types::RepomixOptions;

#[test]
fn test_format_token_count() {
    assert_eq!(format_token_count(500), "500");
    assert_eq!(format_token_count(1500), "1.5K");
    assert_eq!(format_token_count(1500000), "1.5M");
}

#[test]
fn test_format_token_count_edges() {
    assert_eq!(format_token_count(0), "0");
    assert_eq!(format_token_count(999), "999");
    assert_eq!(format_token_count(1000), "1.0K");
    assert_eq!(format_token_count(1049), "1.0K");
    assert_eq!(format_token_count(1050), "1.1K");
    assert_eq!(format_token_count(999999), "1000.0K");
    assert_eq!(format_token_count(1000000), "1.0M");
    assert_eq!(format_token_count(2750000), "2.8M");
}

#[test]
fn test_u64_to_string() {
    assert_eq!(u64_to_string(0), "0");
    assert_eq!(u64_to_string(7), "7");
    assert_eq!(u64_to_string(10), "10");
    assert_eq!(u64_to_string(1234567890), "1234567890");
}

#[test]
fn test_default_config() {
    let config = SifConfig::default();
    assert_eq!(config.compress, false);
    assert_eq!(config.remove_comments, false);
    assert_eq!(config.output_format, OutputFormat::Xml);
    assert_eq!(config.default_backend, Backend::Repomix);
}

#[test]
fn test_update_repomix_options() {
    let mut config = SifConfig::default();
    config.update_repomix_options(true, false, true, OutputFormat::Markdown);
    assert_eq!(config.compress, true);
    assert_eq!(config.remove_comments, false);
    assert_eq!(config.include_file_tree, true);
    assert_eq!(config.output_format, OutputFormat::Markdown);
    assert_eq!(config.default_backend, Backend::Repomix);
}

#[test]
fn test_display_names() {
    assert_eq!(Backend::Repomix.display_name(), "Repomix");
    assert_eq!(Backend::Yek.display_name(), "Yek");
    assert_eq!(OutputFormat::PlainText.display_name(), "Plain Text");
    assert_eq!(OutputFormat::Markdown.display_name(), "Markdown");
    assert_eq!(OutputFormat::Xml.display_name(), "XML");
}

#[test]
fn test_repomix_flags() {
    assert_eq!(OutputFormat::PlainText.repomix_flag(), Some("--style=plain"));
    assert_eq!(OutputFormat::Markdown.repomix_flag(), Some("--style=markdown"));
    assert_eq!(OutputFormat::Xml.repomix_flag(), Some("--style=xml"));
}

#[test]
fn test_repomix_options_default() {
    let options = RepomixOptions::default();
    assert_eq!(options.compress, false);
    assert_eq!(options.remove_comments, false);
    assert_eq!(options.file_tree, false);
    assert!(options.output_file.is_none());
    assert_eq!(options.output_format, OutputFormat::PlainText);
    assert_eq!(options.backend, Backend::Repomix);
}

#[test]
fn test_file_node_name_derivation() {
    let node = FileNode::new(String::from("proj/src/main.rs"), false, 2);
    assert_eq!(node.name, "main.rs");
    assert_eq!(node.path, "proj/src/main.rs");
    assert!(!node.is_directory);
    assert!(!node.is_selected);
    assert!(!node.is_expanded);
    assert_eq!(node.depth, 2);

    let bare = FileNode::new(String::from("proj"), true, 0);
    assert_eq!(bare.name, "proj");

    let trailing = FileNode::new(String::from("proj/"), true, 0);
    assert_eq!(trailing.name, "");
}
