//! Naming of objects in content-addressed data caches.

use vstd::prelude::*;

use crate::path_model::push_text;
use crate::path_utils::{is_absolute_text, push_path_text};
use crate::storage_error::StorageError;
use crate::storage_types::{algorithm_extension, HashAlgorithm};
use crate::text::{append_str, chars_of, own, string_of};

verus! {

/// The name of a cached object: `{hash}.{extension}`.
pub open spec fn object_name(hash: Seq<char>, algorithm: HashAlgorithm) -> Seq<char> {
    hash + "."@ + algorithm_extension(algorithm)
}

/// The S3 key of a cached object under a key prefix:
/// `{key_prefix}/{hash}.{extension}`.
pub fn s3_cache_object_key(key_prefix: &str, hash: &str, algorithm: HashAlgorithm) -> (r: String)
    ensures
        r@ == key_prefix@ + "/"@ + object_name(hash@, algorithm),
{
    let mut out: Vec<char> = Vec::new();
    append_str(&mut out, key_prefix);
    append_str(&mut out, "/");
    append_str(&mut out, hash);
    append_str(&mut out, ".");
    append_str(&mut out, algorithm.extension());
    string_of(&out)
}

/// A data cache on the local file system, rooted at an absolute path.
pub struct FileSystemDataCache {
    root_path: String,
}

impl FileSystemDataCache {
    /// The cache's root directory.
    pub closed spec fn root(&self) -> Seq<char> {
        self.root_path@
    }

    /// Create a cache rooted at a path, which must be absolute; otherwise
    /// an `InvalidConfig` error naming the path.
    pub fn new(root_path: &str) -> (r: Result<Self, StorageError>)
        ensures
            is_absolute_text(root_path@) <==> r is Ok,
            r matches Ok(c) ==> c.root() == root_path@,
            r matches Err(e) ==> e matches StorageError::InvalidConfig { message } && message@
                == "FileSystemDataCache root must be absolute: "@ + root_path@,
    {
        let c = chars_of(root_path);
        if !(c.len() > 0 && c[0] == '/') {
            let mut out: Vec<char> = Vec::new();
            append_str(&mut out, "FileSystemDataCache root must be absolute: ");
            append_str(&mut out, root_path);
            return Err(StorageError::InvalidConfig { message: string_of(&out) });
        }
        Ok(FileSystemDataCache { root_path: own(root_path) })
    }

    /// The key of an object: `{hash}.{extension}`.
    pub fn get_object_key(&self, hash: &str, algorithm: HashAlgorithm) -> (r: String)
        ensures
            r@ == object_name(hash@, algorithm),
    {
        let mut out: Vec<char> = Vec::new();
        append_str(&mut out, hash);
        append_str(&mut out, ".");
        append_str(&mut out, algorithm.extension());
        string_of(&out)
    }

    /// The file holding an object: its key joined onto the root.
    pub fn get_full_path(&self, hash: &str, algorithm: HashAlgorithm) -> (r: String)
        ensures
            r@ == push_text(self.root(), object_name(hash@, algorithm)),
    {
        let mut p = chars_of(self.root_path.as_str());
        let name = chars_of(self.get_object_key(hash, algorithm).as_str());
        push_path_text(&mut p, &name);
        string_of(&p)
    }
}

} // verus!
