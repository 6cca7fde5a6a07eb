//! Error types for storage operations.

use vstd::prelude::*;

use crate::error::io_error_message;
use crate::text::{append_str, dec_text, own, string_of, u64_text};

verus! {

/// Errors that can occur during storage operations.
#[derive(Debug)]
pub enum StorageError {
    /// Object not found in S3.
    NotFound { bucket: String, key: String },
    /// Access denied.
    AccessDenied { bucket: String, key: String, message: String },
    /// Size mismatch (corruption or incomplete upload).
    SizeMismatch { key: String, expected: u64, actual: u64 },
    /// Network error.
    NetworkError { message: String, retryable: bool },
    /// Local I/O error.
    IoError { path: String, message: String },
    /// Operation cancelled by user.
    Cancelled,
    /// Invalid configuration.
    InvalidConfig { message: String },
    /// Other error.
    Other { message: String },
}

/// The displayed text of a storage error.
pub open spec fn storage_error_text(e: StorageError) -> Seq<char> {
    match e {
        StorageError::NotFound { bucket, key } => "Object not found: s3://"@ + bucket@ + "/"@
            + key@,
        StorageError::AccessDenied { bucket, key, message } => "Access denied to s3://"@
            + bucket@ + "/"@ + key@ + ": "@ + message@,
        StorageError::SizeMismatch { key, expected, actual } => "Size mismatch for "@ + key@
            + ": expected "@ + dec_text(expected as nat) + " bytes, got "@ + dec_text(
            actual as nat,
        ),
        StorageError::NetworkError { message, .. } => "Network error: "@ + message@,
        StorageError::IoError { path, message } => "I/O error for "@ + path@ + ": "@ + message@,
        StorageError::Cancelled => "Operation cancelled"@,
        StorageError::InvalidConfig { message } => "Invalid configuration: "@ + message@,
        StorageError::Other { message } => message@,
    }
}

impl StorageError {
    /// Check if this error is retryable: only a network error marked
    /// retryable is.
    pub fn is_retryable(&self) -> (r: bool)
        ensures
            r == (*self matches StorageError::NetworkError { retryable, .. } && retryable),
    {
        match self {
            StorageError::NetworkError { retryable, .. } => *retryable,
            StorageError::NotFound { .. } => false,
            StorageError::AccessDenied { .. } => false,
            StorageError::SizeMismatch { .. } => false,
            StorageError::IoError { .. } => false,
            StorageError::Cancelled => false,
            StorageError::InvalidConfig { .. } => false,
            StorageError::Other { .. } => false,
        }
    }

    /// The error's displayed text.
    pub fn to_string(&self) -> (r: String)
        ensures
            r@ == storage_error_text(*self),
    {
        let mut out: Vec<char> = Vec::new();
        match self {
            StorageError::NotFound { bucket, key } => {
                append_str(&mut out, "Object not found: s3://");
                append_str(&mut out, bucket.as_str());
                append_str(&mut out, "/");
                append_str(&mut out, key.as_str());
            },
            StorageError::AccessDenied { bucket, key, message } => {
                append_str(&mut out, "Access denied to s3://");
                append_str(&mut out, bucket.as_str());
                append_str(&mut out, "/");
                append_str(&mut out, key.as_str());
                append_str(&mut out, ": ");
                append_str(&mut out, message.as_str());
            },
            StorageError::SizeMismatch { key, expected, actual } => {
                append_str(&mut out, "Size mismatch for ");
                append_str(&mut out, key.as_str());
                append_str(&mut out, ": expected ");
                append_str(&mut out, u64_text(*expected).as_str());
                append_str(&mut out, " bytes, got ");
                append_str(&mut out, u64_text(*actual).as_str());
            },
            StorageError::NetworkError { message, .. } => {
                append_str(&mut out, "Network error: ");
                append_str(&mut out, message.as_str());
            },
            StorageError::IoError { path, message } => {
                append_str(&mut out, "I/O error for ");
                append_str(&mut out, path.as_str());
                append_str(&mut out, ": ");
                append_str(&mut out, message.as_str());
            },
            StorageError::Cancelled => {
                append_str(&mut out, "Operation cancelled");
            },
            StorageError::InvalidConfig { message } => {
                append_str(&mut out, "Invalid configuration: ");
                append_str(&mut out, message.as_str());
            },
            StorageError::Other { message } => {
                append_str(&mut out, message.as_str());
            },
        }
        assert(out@ =~= storage_error_text(*self));
        string_of(&out)
    }

    /// An I/O error with an empty path and the given message (what
    /// converting a `std::io::Error` gives).
    pub fn from_io_message(message: String) -> (r: Self)
        ensures
            r matches StorageError::IoError { path, message: m } && path@.len() == 0 && m@
                == message@,
    {
        StorageError::IoError { path: String::new(), message }
    }

}

impl StorageError {
    /// Convert a `std::io::Error`: an I/O error with an empty path and the
    /// error's message.
    pub fn from_io(err: std::io::Error) -> (r: Self)
        ensures
            r matches StorageError::IoError { path, .. } && path@.len() == 0,
    {
        StorageError::from_io_message(io_error_message(&err))
    }
}

/// Non-fatal error encountered during batch transfer.
#[derive(Debug)]
pub struct TransferError {
    /// The key/path that failed.
    pub key: String,
    /// The error that occurred.
    pub error: StorageError,
}

impl TransferError {
    /// Create a new transfer error.
    pub fn new(key: &str, error: StorageError) -> (r: Self)
        ensures
            r.key@ == key@,
            r.error == error,
    {
        TransferError { key: own(key), error }
    }
}

/// Errors specific to the CRT storage client.
#[derive(Debug)]
pub enum CrtError {
    /// AWS SDK error.
    SdkError { message: String, retryable: bool },
    /// Configuration error.
    ConfigError(String),
    /// I/O error.
    IoError(std::io::Error),
}

impl CrtError {
    /// The storage error a CRT error converts to: an SDK error becomes a
    /// network error (retryable as it was), a configuration error an
    /// invalid configuration, an I/O error an I/O error with an empty path.
    pub fn into_storage_error(self) -> (r: StorageError)
        ensures
            match self {
                CrtError::SdkError { message, retryable } => r matches StorageError::NetworkError {
                    message: m,
                    retryable: rt,
                } && m@ == message@ && rt == retryable,
                CrtError::ConfigError(message) => r matches StorageError::InvalidConfig {
                    message: m,
                } && m@ == message@,
                CrtError::IoError(_) => r matches StorageError::IoError { path, .. } && path@.len()
                    == 0,
            },
    {
        match self {
            CrtError::SdkError { message, retryable } => StorageError::NetworkError {
                message,
                retryable,
            },
            CrtError::ConfigError(message) => StorageError::InvalidConfig { message },
            CrtError::IoError(e) => StorageError::from_io(e),
        }
    }
}

} // verus!
