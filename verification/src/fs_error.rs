//! Errors of file system operations.

use vstd::prelude::*;

use crate::error::PathError;

verus! {

/// Errors of scanning, diffing and filtering.
#[derive(Debug)]
pub enum FileSystemError {
    /// A glob pattern could not be compiled.
    InvalidGlobPattern { pattern: String, reason: String },
    /// An I/O error at a path.
    IoError { path: String, source: std::io::Error },
    /// A path error.
    Path(PathError),
    /// A path lies outside the root it must be under.
    PathOutsideRoot { path: String, root: String },
    /// The operation was cancelled.
    Cancelled,
}

} // verus!
