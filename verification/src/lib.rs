//! Verified core of the Job Attachments toolkit: path handling, asset
//! grouping by storage profile, chunking decisions, S3 key layout and the
//! bookkeeping that surrounds uploads and downloads.

pub mod error;
pub mod path_model;
pub mod path_utils;
pub mod text;
pub mod profile_types;
pub mod order;
pub mod grouping;
pub mod constants;
pub mod cas;
pub mod hash;
pub mod storage_error;
pub mod storage_types;
pub mod manifest_storage;
pub mod fs_error;
pub mod glob;
pub mod manifest_data;
pub mod keyed;
pub mod diff;
pub mod progress;
pub mod scanner;
pub mod hash_upload;
pub mod caches;
pub mod download;
pub mod upload;
pub mod data_cache;
pub mod machine_id;
