//! Storage profile data structures.

use vstd::prelude::*;
use vstd::utf8::encode_utf8;

use crate::path_model::path_starts_with_spec;
use crate::path_utils::path_starts_with;
use crate::text::{chars_of, str_eq, string_of};

verus! {

/// Classification of a file system location.
#[derive(PartialEq, Eq, Structural, Clone, Copy, Debug)]
pub enum FileSystemLocationType {
    /// Files are local to the submitter and must be uploaded.
    Local,
    /// Files are on shared storage accessible to workers (skip upload).
    Shared,
}

/// A named file system location with a root path and type.
pub struct FileSystemLocation {
    /// Human-readable name for this location.
    pub name: String,
    /// Root path of this location.
    pub path: String,
    /// Whether this location is local or shared.
    pub location_type: FileSystemLocationType,
}

/// A storage profile containing multiple file system locations.
pub struct StorageProfile {
    /// List of file system locations in this profile.
    pub file_system_locations: Vec<FileSystemLocation>,
}

/// The UTF-8 length of text, which is what `str::len` returns.
pub open spec fn byte_len(s: Seq<char>) -> usize {
    encode_utf8(s).len() as usize
}

/// A (path, name) table built from the locations of one type, in order of
/// first appearance; a later location with the same path replaces the name
/// (what collecting into a map does).
pub open spec fn location_table(
    locs: Seq<FileSystemLocation>,
    kind: FileSystemLocationType,
) -> Seq<(Seq<char>, Seq<char>)>
    decreases locs.len(),
{
    if locs.len() == 0 {
        Seq::empty()
    } else {
        let t = location_table(locs.drop_last(), kind);
        let l = locs.last();
        if l.location_type != kind {
            t
        } else {
            let k = table_index(t, l.path@);
            if k >= 0 {
                t.update(k, (l.path@, l.name@))
            } else {
                t.push((l.path@, l.name@))
            }
        }
    }
}

/// The position of `key` in a table, or -1.
pub open spec fn table_index(t: Seq<(Seq<char>, Seq<char>)>, key: Seq<char>) -> int
    decreases t.len(),
{
    if t.len() == 0 {
        -1
    } else if t.last().0 == key {
        t.len() - 1
    } else {
        table_index(t.drop_last(), key)
    }
}

pub proof fn lemma_table_index_range(t: Seq<(Seq<char>, Seq<char>)>, key: Seq<char>)
    ensures
        -1 <= table_index(t, key) < t.len(),
        table_index(t, key) >= 0 ==> t[table_index(t, key)].0 == key,
        table_index(t, key) == -1 ==> forall|i: int| 0 <= i < t.len() ==> t[i].0 != key,
    decreases t.len(),
{
    if t.len() > 0 && t.last().0 != key {
        lemma_table_index_range(t.drop_last(), key);
        assert forall|i: int| 0 <= i < t.len() - 1 implies t[i] == t.drop_last()[i] by {}
    }
}

/// Whether `path` lies under a location of the given type.
pub open spec fn under_location(
    locs: Seq<FileSystemLocation>,
    kind: FileSystemLocationType,
    path: Seq<char>,
) -> bool {
    exists|i: int|
        0 <= i < locs.len() && locs[i].location_type == kind && #[trigger] path_starts_with_spec(
            path,
            locs[i].path@,
        )
}

/// Among the LOCAL locations containing `path`, the one with the longest
/// path text; of several equally long ones, the last.
pub open spec fn best_local_index(locs: Seq<FileSystemLocation>, path: Seq<char>, i: int) -> bool {
    &&& 0 <= i < locs.len()
    &&& locs[i].location_type == FileSystemLocationType::Local
    &&& path_starts_with_spec(path, locs[i].path@)
    &&& forall|j: int|
        0 <= j < locs.len() && locs[j].location_type == FileSystemLocationType::Local
            && path_starts_with_spec(path, locs[j].path@) ==> byte_len(locs[j].path@) <= byte_len(
            locs[i].path@,
        ) && (j > i ==> byte_len(locs[j].path@) < byte_len(locs[i].path@))
}

pub open spec fn table_view(v: Seq<(String, String)>) -> Seq<(Seq<char>, Seq<char>)> {
    Seq::new(v.len(), |i: int| (v[i].0@, v[i].1@))
}

/// A copy of a location.
pub fn copy_location(l: &FileSystemLocation) -> (r: FileSystemLocation)
    ensures
        r.name@ == l.name@,
        r.path@ == l.path@,
        r.location_type == l.location_type,
{
    FileSystemLocation {
        name: string_of(&chars_of(l.name.as_str())),
        path: string_of(&chars_of(l.path.as_str())),
        location_type: l.location_type,
    }
}

/// Copies of a list of locations.
pub fn copy_locations(v: &Vec<FileSystemLocation>) -> (r: Vec<FileSystemLocation>)
    ensures
        r@.len() == v@.len(),
        forall|i: int|
            0 <= i < v@.len() ==> (#[trigger] r@[i]).name@ == v@[i].name@ && r@[i].path@
                == v@[i].path@ && r@[i].location_type == v@[i].location_type,
{
    let mut r: Vec<FileSystemLocation> = Vec::new();
    let mut i: usize = 0;
    while i < v.len()
        invariant
            i <= v.len(),
            r@.len() == i,
            forall|k: int|
                0 <= k < i ==> (#[trigger] r@[k]).name@ == v@[k].name@ && r@[k].path@
                    == v@[k].path@ && r@[k].location_type == v@[k].location_type,
        decreases v.len() - i,
    {
        r.push(copy_location(&v[i]));
        i = i + 1;
    }
    r
}

proof fn lemma_table_view_push(v: Seq<(String, String)>, x: (String, String))
    ensures
        table_view(v.push(x)) == table_view(v).push((x.0@, x.1@)),
{
    assert(table_view(v.push(x)) =~= table_view(v).push((x.0@, x.1@)));
}

proof fn lemma_table_view_update(v: Seq<(String, String)>, k: int, x: (String, String))
    requires
        0 <= k < v.len(),
    ensures
        table_view(v.update(k, x)) == table_view(v).update(k, (x.0@, x.1@)),
{
    assert(table_view(v.update(k, x)) =~= table_view(v).update(k, (x.0@, x.1@)));
}

/// Finds `key` in a table (the position, or -1).
fn find_in_table(t: &Vec<(String, String)>, key: &str) -> (r: Option<usize>)
    ensures
        match r {
            Some(k) => k == table_index(table_view(t@), key@),
            None => table_index(table_view(t@), key@) == -1,
        },
{
    let mut i = t.len();
    assert(t@.subrange(0, i as int) =~= t@);
    while i > 0
        invariant
            i <= t.len(),
            table_index(table_view(t@), key@) == table_index(
                table_view(t@.subrange(0, i as int)),
                key@,
            ),
        decreases i,
    {
        let ghost tv = table_view(t@.subrange(0, i as int));
        assert(tv.last() == (t@[i - 1].0@, t@[i - 1].1@));
        if str_eq(t[i - 1].0.as_str(), key) {
            return Some(i - 1);
        }
        assert(tv.drop_last() =~= table_view(t@.subrange(0, i - 1)));
        i = i - 1;
    }
    assert(table_view(t@.subrange(0, 0)) =~= Seq::<(Seq<char>, Seq<char>)>::empty());
    None
}

/// The (path, name) table of the locations of one type.
pub fn locations_of_type(locs: &Vec<FileSystemLocation>, kind: FileSystemLocationType) -> (r: Vec<
    (String, String),
>)
    ensures
        table_view(r@) == location_table(locs@, kind),
{
    let mut t: Vec<(String, String)> = Vec::new();
    let mut i: usize = 0;
    assert(locs@.subrange(0, 0) =~= Seq::<FileSystemLocation>::empty());
    assert(table_view(t@) =~= Seq::<(Seq<char>, Seq<char>)>::empty());
    while i < locs.len()
        invariant
            i <= locs.len(),
            table_view(t@) == location_table(locs@.subrange(0, i as int), kind),
        decreases locs.len() - i,
    {
        let l = &locs[i];
        proof {
            assert(locs@.subrange(0, i + 1).drop_last() =~= locs@.subrange(0, i as int));
            assert(locs@.subrange(0, i + 1).last() == locs@[i as int]);
        }
        if l.location_type == kind {
            let k = find_in_table(&t, l.path.as_str());
            let entry = (string_of(&chars_of(l.path.as_str())), string_of(&chars_of(l.name.as_str())));
            match k {
                Some(k) => {
                    proof {
                        lemma_table_index_range(table_view(t@), l.path@);
                    }
                    let ghost before = t@;
                    t.set(k, entry);
                    proof {
                        lemma_table_view_update(before, k as int, entry);
                    }
                },
                None => {
                    let ghost before = t@;
                    t.push(entry);
                    proof {
                        lemma_table_view_push(before, entry);
                    }
                },
            }
        }
        i = i + 1;
    }
    assert(locs@.subrange(0, i as int) =~= locs@);
    t
}

impl StorageProfile {
    /// Create a new empty storage profile.
    pub fn new() -> (r: Self)
        ensures
            r.file_system_locations@.len() == 0,
    {
        StorageProfile { file_system_locations: Vec::new() }
    }

    /// Create a storage profile with the given locations.
    pub fn with_locations(locations: Vec<FileSystemLocation>) -> (r: Self)
        ensures
            r.file_system_locations@ == locations@,
    {
        StorageProfile { file_system_locations: locations }
    }

    /// All LOCAL locations as (path, name) pairs; a later location with the
    /// same path replaces an earlier one's name.
    pub fn local_locations(&self) -> (r: Vec<(String, String)>)
        ensures
            table_view(r@) == location_table(
                self.file_system_locations@,
                FileSystemLocationType::Local,
            ),
    {
        locations_of_type(&self.file_system_locations, FileSystemLocationType::Local)
    }

    /// All SHARED locations as (path, name) pairs; a later location with the
    /// same path replaces an earlier one's name.
    pub fn shared_locations(&self) -> (r: Vec<(String, String)>)
        ensures
            table_view(r@) == location_table(
                self.file_system_locations@,
                FileSystemLocationType::Shared,
            ),
    {
        locations_of_type(&self.file_system_locations, FileSystemLocationType::Shared)
    }

    /// Check if a path is under any SHARED location (component-wise).
    pub fn is_shared(&self, path: &str) -> (r: bool)
        ensures
            r == under_location(
                self.file_system_locations@,
                FileSystemLocationType::Shared,
                path@,
            ),
    {
        let locs = &self.file_system_locations;
        let mut i: usize = 0;
        while i < locs.len()
            invariant
                i <= locs.len(),
                locs == &self.file_system_locations,
                forall|j: int|
                    0 <= j < i ==> !(locs@[j].location_type == FileSystemLocationType::Shared
                        && #[trigger] path_starts_with_spec(path@, locs@[j].path@)),
            decreases locs.len() - i,
        {
            if locs[i].location_type == FileSystemLocationType::Shared && path_starts_with(
                path,
                locs[i].path.as_str(),
            ) {
                return true;
            }
            i = i + 1;
        }
        false
    }

    /// Find the most specific LOCAL location containing a path: the one
    /// with the longest path text, the last of equally long ones.
    ///
    /// Returns `(location_path, location_name)`, or `None` if the path is
    /// under no LOCAL location.
    pub fn find_local_location(&self, path: &str) -> (r: Option<(&str, &str)>)
        ensures
            match r {
                Some((p, n)) => exists|i: int|
                    best_local_index(self.file_system_locations@, path@, i) && p@
                        == self.file_system_locations@[i].path@ && n@
                        == self.file_system_locations@[i].name@,
                None => !under_location(
                    self.file_system_locations@,
                    FileSystemLocationType::Local,
                    path@,
                ),
            },
    {
        let locs = &self.file_system_locations;
        let mut best: Option<usize> = None;
        let mut i: usize = 0;
        while i < locs.len()
            invariant
                i <= locs.len(),
                locs == &self.file_system_locations,
                match best {
                    None => forall|j: int|
                        0 <= j < i ==> !(locs@[j].location_type == FileSystemLocationType::Local
                            && #[trigger] path_starts_with_spec(path@, locs@[j].path@)),
                    Some(b) => {
                        &&& b < i
                        &&& locs@[b as int].location_type == FileSystemLocationType::Local
                        &&& path_starts_with_spec(path@, locs@[b as int].path@)
                        &&& forall|j: int|
                            0 <= j < i && locs@[j].location_type == FileSystemLocationType::Local
                                && #[trigger] path_starts_with_spec(path@, locs@[j].path@)
                                ==> byte_len(locs@[j].path@) <= byte_len(locs@[b as int].path@)
                                && (j > b ==> byte_len(locs@[j].path@) < byte_len(
                                locs@[b as int].path@,
                            ))
                    },
                },
            decreases locs.len() - i,
        {
            let l = &locs[i];
            let m = l.location_type == FileSystemLocationType::Local && path_starts_with(
                path,
                l.path.as_str(),
            );
            assert(m == (locs@[i as int].location_type == FileSystemLocationType::Local
                && path_starts_with_spec(path@, locs@[i as int].path@)));
            if m {
                match best {
                    None => {
                        best = Some(i);
                    },
                    Some(b) => {
                        if l.path.as_str().len() >= locs[b].path.as_str().len() {
                            best = Some(i);
                        }
                    },
                }
            } else {
                assert forall|j: int|
                    0 <= j < i + 1 && locs@[j].location_type == FileSystemLocationType::Local
                        && #[trigger] path_starts_with_spec(path@, locs@[j].path@) implies j < i by {
                    if j == i {
                        assert(!m);
                    }
                }
            }
            i = i + 1;
        }
        match best {
            None => {
                assert(!under_location(locs@, FileSystemLocationType::Local, path@));
                None
            },
            Some(b) => {
                let l = &locs[b];
                assert(best_local_index(locs@, path@, b as int));
                Some((l.path.as_str(), l.name.as_str()))
            },
        }
    }
}

/// Operating system family for a storage profile.
#[derive(PartialEq, Eq, Structural, Clone, Copy, Debug)]
pub enum StorageProfileOsFamily {
    Windows,
    Linux,
    Macos,
}

impl StorageProfileOsFamily {
    /// Check if this OS family uses POSIX-style paths.
    pub fn is_posix(&self) -> (r: bool)
        ensures
            r == (*self == StorageProfileOsFamily::Linux || *self == StorageProfileOsFamily::Macos),
    {
        match self {
            StorageProfileOsFamily::Windows => false,
            _ => true,
        }
    }
}

/// Extended storage profile with identifier and OS family.
pub struct StorageProfileWithId {
    /// Unique identifier for this storage profile.
    pub storage_profile_id: String,
    /// Human-readable display name.
    pub display_name: String,
    /// Operating system family.
    pub os_family: StorageProfileOsFamily,
    /// File system locations in this profile.
    pub file_system_locations: Vec<FileSystemLocation>,
}

impl StorageProfileWithId {
    /// Convert to a basic StorageProfile (without ID/OS info): the same
    /// locations, in the same order.
    pub fn to_storage_profile(&self) -> (r: StorageProfile)
        ensures
            r.file_system_locations@.len() == self.file_system_locations@.len(),
            forall|i: int|
                0 <= i < self.file_system_locations@.len() ==> (
                #[trigger] r.file_system_locations@[i]).name@
                    == self.file_system_locations@[i].name@ && r.file_system_locations@[i].path@
                    == self.file_system_locations@[i].path@
                    && r.file_system_locations@[i].location_type
                    == self.file_system_locations@[i].location_type,
    {
        StorageProfile { file_system_locations: copy_locations(&self.file_system_locations) }
    }
}

} // verus!
