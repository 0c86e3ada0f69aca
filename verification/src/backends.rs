//! The two packaging backends as the engine sees them: the repomix
//! download state machine and the yek binary handle, together with the
//! pure validation hooks that produce user-facing warnings.
//!
//! Downloading, process execution and the clipboard are performed by the
//! embedding application; the engine only decides and records state.

use vstd::prelude::*;
use vstd::string::StringExecFns;
use crate::numfmt::spec_decimal;
use crate::numfmt::u64_to_string;
use crate::types::RepomixOptions;

verus! {

/// Download status for the repomix installation.
#[derive(Debug, Clone)]
pub enum DownloadStatus {
    /// repomix is ready to use
    Ready,
    /// currently downloading repomix, with a progress message
    Downloading(String),
    /// the download failed, with an error message
    Failed(String),
    /// not started yet
    NotStarted,
}

/// Manager for an isolated, cached repomix installation.
///
/// It tracks where the installation lives and how far the background
/// download has come; the embedding application performs the download
/// itself and reports the outcome back.
#[derive(Debug)]
pub struct Repomix {
    /// path of the cached repomix installation
    pub cache_dir: String,
    /// pinned repomix version
    pub version: String,
    /// path of the cached repomix entry point
    pub repomix_entry: String,
    /// current download status
    pub download_status: DownloadStatus,
}

impl Repomix {
    /// Creates a new repomix manager for the given cache location.
    /// `entry_exists` reports whether the cached entry point is already
    /// on disk.
    pub fn new(cache_dir: String, repomix_entry: String, entry_exists: bool) -> (r: Repomix)
        ensures
            r.cache_dir == cache_dir,
            r.repomix_entry == repomix_entry,
            r.version@ == "0.3.7"@,
            entry_exists ==> r.download_status is Ready,
            !entry_exists ==> r.download_status is NotStarted,
    {
        let download_status = if entry_exists {
            DownloadStatus::Ready
        } else {
            DownloadStatus::NotStarted
        };
        Repomix {
            cache_dir,
            version: String::from_str("0.3.7"),
            repomix_entry,
            download_status,
        }
    }

    /// The current download status.
    pub fn download_status(&self) -> (r: &DownloadStatus)
        ensures
            *r == self.download_status,
    {
        &self.download_status
    }

    /// Marks the download as started if it has not run yet or failed.
    /// Returns true exactly when a download was started.
    pub fn start_background_download(&mut self) -> (r: bool)
        ensures
            final(self).cache_dir == old(self).cache_dir,
            final(self).version == old(self).version,
            final(self).repomix_entry == old(self).repomix_entry,
            r == (old(self).download_status is NotStarted || old(self).download_status is Failed),
            r ==> (final(self).download_status matches DownloadStatus::Downloading(m) && m@
                == "Initializing..."@),
            !r ==> final(self).download_status == old(self).download_status,
    {
        match &self.download_status {
            DownloadStatus::NotStarted | DownloadStatus::Failed(_) => {
                self.download_status = DownloadStatus::Downloading(
                    String::from_str("Initializing..."),
                );
                true
            },
            _ => false,
        }
    }

    /// Records the outcome of one download attempt. Only an in-flight
    /// download changes state; the return value reports whether it did.
    pub fn update_background_download(&mut self, outcome: Result<(), String>) -> (r: bool)
        ensures
            final(self).cache_dir == old(self).cache_dir,
            final(self).version == old(self).version,
            final(self).repomix_entry == old(self).repomix_entry,
            r == (old(self).download_status is Downloading),
            !r ==> final(self).download_status == old(self).download_status,
            r && outcome is Ok ==> final(self).download_status is Ready,
            r && outcome is Err ==> (final(self).download_status matches DownloadStatus::Failed(
                e,
            ) && e == outcome->Err_0),
    {
        match &self.download_status {
            DownloadStatus::Downloading(_) => {
                match outcome {
                    Ok(()) => {
                        self.download_status = DownloadStatus::Ready;
                    },
                    Err(e) => {
                        self.download_status = DownloadStatus::Failed(e);
                    },
                }
                true
            },
            _ => false,
        }
    }

    /// Hands out the path of the repomix entry point if the installation
    /// is ready, and explains what is missing otherwise. A reportedly
    /// ready installation whose entry point has vanished falls back to
    /// not-started so the download can be retried.
    pub fn ensure_repomix(&mut self, entry_exists: bool) -> (r: Result<String, String>)
        ensures
            final(self).cache_dir == old(self).cache_dir,
            final(self).version == old(self).version,
            final(self).repomix_entry == old(self).repomix_entry,
            r is Ok <==> (old(self).download_status is Ready && entry_exists),
            r is Ok ==> r->Ok_0 == old(self).repomix_entry && final(self).download_status == old(self).download_status,
            old(self).download_status is Ready && !entry_exists ==> final(self).download_status is NotStarted && r->Err_0@
                == "Repomix cache was deleted, restarting download..."@,
            old(self).download_status matches DownloadStatus::Downloading(m) ==> final(self).download_status == old(self).download_status && r->Err_0@
                == "Repomix is still downloading: "@ + m@,
            old(self).download_status matches DownloadStatus::Failed(e) ==> final(self).download_status == old(self).download_status && r->Err_0@
                == "Repomix download failed: "@ + e@,
            old(self).download_status is NotStarted ==> final(self).download_status == old(self).download_status && r->Err_0@ == "Repomix download not started yet"@,
    {
        match &self.download_status {
            DownloadStatus::Ready => {
                if entry_exists {
                    return Ok(self.repomix_entry.clone());
                }
            },
            DownloadStatus::Downloading(msg) => {
                let mut e = String::from_str("Repomix is still downloading: ");
                e.append(msg.as_str());
                return Err(e);
            },
            DownloadStatus::Failed(err) => {
                let mut e = String::from_str("Repomix download failed: ");
                e.append(err.as_str());
                return Err(e);
            },
            DownloadStatus::NotStarted => {
                return Err(String::from_str("Repomix download not started yet"));
            },
        }
        self.download_status = DownloadStatus::NotStarted;
        Err(String::from_str("Repomix cache was deleted, restarting download..."))
    }
}

/// Validates run options for isolated repomix execution, returning the
/// warnings to surface before the run.
pub fn validate_isolated_repomix_options(
    options: &RepomixOptions,
    selected_files: &Vec<String>,
) -> (r: Vec<String>)
    ensures
        selected_files@.len() == 0 ==> r@.len() == 1 && r@[0]@
            == "No files selected for processing"@,
        0 < selected_files@.len() <= 100 ==> r@.len() == 0,
        selected_files@.len() > 100 ==> r@.len() == 1 && r@[0]@
            == "Large number of files selected ("@ + spec_decimal(selected_files@.len() as int)
            + "). May take a moment to process."@,
{
    let mut warnings: Vec<String> = Vec::new();
    if selected_files.len() == 0 {
        warnings.push(String::from_str("No files selected for processing"));
    }
    if selected_files.len() > 100 {
        let n = u64_to_string(selected_files.len() as u64);
        let mut w = String::from_str("Large number of files selected (");
        w.append(n.as_str());
        w.append("). May take a moment to process.");
        warnings.push(w);
    }
    warnings
}

/// A handle on the yek binary that the embedding application has
/// downloaded or located.
#[derive(Debug)]
pub struct Yek {
    /// path of the yek binary
    pub yek_binary_path: String,
}

impl Yek {
    /// Creates a new yek handle for the given binary location.
    pub fn new(yek_binary_path: String) -> (r: Yek)
        ensures
            r.yek_binary_path == yek_binary_path,
    {
        Yek { yek_binary_path }
    }
}

/// Validates the selected files for a yek run, returning the warnings to
/// surface before the run.
pub fn validate_yek_options(selected_files: &Vec<String>) -> (r: Vec<String>)
    ensures
        selected_files@.len() == 0 ==> r@.len() == 1 && r@[0]@ == "No files selected"@,
        0 < selected_files@.len() <= 1000 ==> r@.len() == 0,
        selected_files@.len() > 1000 ==> r@.len() == 1 && r@[0]@
            == "Large number of files selected, May take a moment to process"@,
{
    let mut warnings: Vec<String> = Vec::new();
    if selected_files.len() == 0 {
        warnings.push(String::from_str("No files selected"));
    }
    if selected_files.len() > 1000 {
        warnings.push(
            String::from_str("Large number of files selected, May take a moment to process"),
        );
    }
    warnings
}

} // verus!
