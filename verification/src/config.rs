//! Persistent user preferences.
//!
//! The engine treats the configuration purely as a value: loading and
//! rewriting the on-disk file is the embedding application's business.

use vstd::prelude::*;
use crate::types::Backend;
use crate::types::OutputFormat;

verus! {

/// Persistent configuration of user preferences, carried between
/// sessions by the embedding application.
#[derive(Debug, Clone, Copy, PartialEq, Eq, Structural)]
pub struct SifConfig {
    /// whether to compress output
    pub compress: bool,
    /// whether to remove comments
    pub remove_comments: bool,
    /// whether to include the complete file tree in the output
    pub include_file_tree: bool,
    /// output format for repomix
    pub output_format: OutputFormat,
    /// last used backend
    pub default_backend: Backend,
}

impl Default for SifConfig {
    /// Provides sensible default values for first-time users.
    fn default() -> (r: Self)
        ensures
            r.compress == false,
            r.remove_comments == false,
            r.include_file_tree == false,
            r.output_format == OutputFormat::Xml,
            r.default_backend == Backend::Repomix,
    {
        SifConfig {
            compress: false,
            remove_comments: false,
            include_file_tree: false,
            output_format: OutputFormat::Xml,
            default_backend: Backend::Repomix,
        }
    }
}

impl SifConfig {
    /// Updates the stored run options. The caller persists the new value
    /// afterwards.
    pub fn update_repomix_options(
        &mut self,
        compress: bool,
        remove_comments: bool,
        include_file_tree: bool,
        output_format: OutputFormat,
    )
        ensures
            final(self).compress == compress,
            final(self).remove_comments == remove_comments,
            final(self).include_file_tree == include_file_tree,
            final(self).output_format == output_format,
            final(self).default_backend == old(self).default_backend,
    {
        self.compress = compress;
        self.remove_comments = remove_comments;
        self.include_file_tree = include_file_tree;
        self.output_format = output_format;
    }
}

} // verus!
