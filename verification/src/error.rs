//! Shared error types.

use vstd::prelude::*;

use crate::text::{append_str, own, string_of};

verus! {

/// Path-related errors shared across the crate.
#[derive(Debug)]
pub enum PathError {
    /// Path is outside the expected root directory.
    PathOutsideRoot { path: String, root: String },
    /// Path is invalid or malformed.
    InvalidPath { path: String },
    /// Path does not match expected value.
    PathMismatch { expected: String, actual: String },
    /// IO error occurred while accessing path.
    IoError { path: String, message: String },
}

#[verifier::external_type_specification]
#[verifier::external_body]
pub struct ExIoError(std::io::Error);

/// The message of an I/O error, as its `Display` renders it. The text is
/// produced by std and is not described here.
#[verifier::external_body]
pub(crate) fn io_error_message(err: &std::io::Error) -> String {
    err.to_string()
}

impl PathError {
    /// Create an `IoError` from a `std::io::Error`, keeping the path and the
    /// error's message.
    pub fn from_io(path: &str, err: std::io::Error) -> (r: Self)
        ensures
            r matches PathError::IoError { path: p, .. } && p@ == path@,
    {
        let message = io_error_message(&err);
        PathError::IoError { path: own(path), message }
    }
}

/// Version compatibility error for features not supported in older manifest
/// versions.
#[derive(Debug)]
pub struct VersionNotCompatibleError {
    /// The feature that was requested.
    pub feature: &'static str,
    /// Minimum version required for this feature.
    pub min_version: &'static str,
}

impl VersionNotCompatibleError {
    /// Create a new version compatibility error.
    pub fn new(feature: &'static str, min_version: &'static str) -> (r: Self)
        ensures
            r.feature == feature,
            r.min_version == min_version,
    {
        VersionNotCompatibleError { feature, min_version }
    }
}

/// The displayed text of a path error.
pub open spec fn path_error_text(e: PathError) -> Seq<char> {
    match e {
        PathError::PathOutsideRoot { path, root } => "Path is outside root: "@ + path@ + " not in "@
            + root@,
        PathError::InvalidPath { path } => "Invalid path: "@ + path@,
        PathError::PathMismatch { expected, actual } => "Path mismatch - expected "@ + expected@
            + ", got "@ + actual@,
        PathError::IoError { path, message } => "IO error at "@ + path@ + ": "@ + message@,
    }
}

impl PathError {
    /// The error's displayed text.
    pub fn to_string(&self) -> (r: String)
        ensures
            r@ == path_error_text(*self),
    {
        let mut out: Vec<char> = Vec::new();
        match self {
            PathError::PathOutsideRoot { path, root } => {
                append_str(&mut out, "Path is outside root: ");
                append_str(&mut out, path.as_str());
                append_str(&mut out, " not in ");
                append_str(&mut out, root.as_str());
            },
            PathError::InvalidPath { path } => {
                append_str(&mut out, "Invalid path: ");
                append_str(&mut out, path.as_str());
            },
            PathError::PathMismatch { expected, actual } => {
                append_str(&mut out, "Path mismatch - expected ");
                append_str(&mut out, expected.as_str());
                append_str(&mut out, ", got ");
                append_str(&mut out, actual.as_str());
            },
            PathError::IoError { path, message } => {
                append_str(&mut out, "IO error at ");
                append_str(&mut out, path.as_str());
                append_str(&mut out, ": ");
                append_str(&mut out, message.as_str());
            },
        }
        assert(out@ =~= path_error_text(*self));
        string_of(&out)
    }
}

impl VersionNotCompatibleError {
    /// The error's displayed text: `{feature} requires manifest version
    /// {min_version} or later`.
    pub fn to_string(&self) -> (r: String)
        ensures
            r@ == self.feature@ + " requires manifest version "@ + self.min_version@
                + " or later"@,
    {
        let mut out: Vec<char> = Vec::new();
        append_str(&mut out, self.feature);
        append_str(&mut out, " requires manifest version ");
        append_str(&mut out, self.min_version);
        append_str(&mut out, " or later");
        string_of(&out)
    }
}

} // verus!
