//! Plain data types shared by the engine: backend choice, output format,
//! per-run options, token-cache entries and the request/result pair that
//! crosses the boundary to the background execution task.

use vstd::prelude::*;

verus! {

/// Backend options for file processing.
#[derive(Debug, Clone, Copy, PartialEq, Eq, Structural)]
pub enum Backend {
    Repomix,
    Yek,
}

impl Default for Backend {
    fn default() -> (r: Self)
        ensures
            r == Backend::Repomix,
    {
        Backend::Repomix
    }
}

impl Backend {
    /// Returns the display name for the backend.
    pub fn display_name(&self) -> (r: &'static str)
        ensures
            *self == Backend::Repomix ==> r@ == "Repomix"@,
            *self == Backend::Yek ==> r@ == "Yek"@,
    {
        match self {
            Backend::Repomix => "Repomix",
            Backend::Yek => "Yek",
        }
    }
}

/// Output format options for repomix (not needed for yek).
#[derive(Debug, Clone, Copy, PartialEq, Eq, Structural)]
pub enum OutputFormat {
    PlainText,
    Markdown,
    Xml,
}

impl Default for OutputFormat {
    fn default() -> (r: Self)
        ensures
            r == OutputFormat::PlainText,
    {
        OutputFormat::PlainText
    }
}

impl OutputFormat {
    /// Returns the display name for the format.
    pub fn display_name(&self) -> (r: &'static str)
        ensures
            *self == OutputFormat::PlainText ==> r@ == "Plain Text"@,
            *self == OutputFormat::Markdown ==> r@ == "Markdown"@,
            *self == OutputFormat::Xml ==> r@ == "XML"@,
    {
        match self {
            OutputFormat::PlainText => "Plain Text",
            OutputFormat::Markdown => "Markdown",
            OutputFormat::Xml => "XML",
        }
    }

    /// Returns the repomix command-line flag for the format.
    pub fn repomix_flag(&self) -> (r: Option<&'static str>)
        ensures
            r is Some,
            *self == OutputFormat::PlainText ==> r.unwrap()@ == "--style=plain"@,
            *self == OutputFormat::Markdown ==> r.unwrap()@ == "--style=markdown"@,
            *self == OutputFormat::Xml ==> r.unwrap()@ == "--style=xml"@,
    {
        match self {
            OutputFormat::PlainText => Some("--style=plain"),
            OutputFormat::Markdown => Some("--style=markdown"),
            OutputFormat::Xml => Some("--style=xml"),
        }
    }
}

/// Configuration options for a packaging run.
/// These mirror the command-line options that repomix accepts.
#[derive(Debug, Clone)]
pub struct RepomixOptions {
    /// whether to compress the output
    pub compress: bool,
    /// whether to remove comments from source code
    pub remove_comments: bool,
    /// whether to include the complete file tree in the output
    pub file_tree: bool,
    /// custom output filename (if not given, the backend uses its default)
    pub output_file: Option<String>,
    /// output format for the generated file
    pub output_format: OutputFormat,
    /// backend to use for processing
    pub backend: Backend,
}

impl Default for RepomixOptions {
    /// Provides sensible default values for the run options.
    fn default() -> (r: Self)
        ensures
            r.compress == false,
            r.remove_comments == false,
            r.file_tree == false,
            r.output_file is None,
            r.output_format == OutputFormat::PlainText,
            r.backend == Backend::Repomix,
    {
        RepomixOptions {
            compress: false,
            remove_comments: false,
            file_tree: false,
            output_file: None,
            output_format: OutputFormat::PlainText,
            backend: Backend::Repomix,
        }
    }
}

/// Represents which UI component currently has focus.
#[derive(Debug, Clone, Copy, PartialEq, Eq, Structural)]
pub enum Focus {
    FileTree,
}

impl Default for Focus {
    fn default() -> (r: Self)
        ensures
            r == Focus::FileTree,
    {
        Focus::FileTree
    }
}

/// One slot of the token-count cache.
///
/// `Absent` means the count was never requested, `Pending` means a
/// background computation was requested and has not returned, and
/// `Resolved` holds a known final count (0 is a valid final value for
/// unreadable files; directory entries always hold derived sums).
#[derive(Debug, Clone, Copy, PartialEq, Eq, Structural)]
pub enum TokenCacheEntry {
    Absent,
    Pending,
    Resolved(u64),
}

/// Request handed to the background execution task.
///
/// The cancellation handle and the tree snapshot that the unverified
/// runner needs are attached outside the engine; the engine itself only
/// decides what to run and tags it with a fresh identifier.
#[derive(Debug)]
pub struct BackendRequest {
    /// backend to use for processing
    pub backend: Backend,
    /// run options for configuration
    pub repomix_options: RepomixOptions,
    /// list of selected file paths to process
    pub selected_files: Vec<String>,
    /// root directory path
    pub root_path: String,
    /// unique request id for stale-result rejection
    pub request_id: u64,
}

/// Result of one backend execution.
#[derive(Debug, Clone)]
pub struct BackendResult {
    /// whether the operation was successful
    pub success: bool,
    /// output message from the backend
    pub message: String,
    /// optional output file path, if one was created
    pub output_file: Option<String>,
    /// optional error message, if the run failed
    pub error: Option<String>,
    /// request id that the result corresponds to
    pub request_id: u64,
}

} // verus!
