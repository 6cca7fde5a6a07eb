//! Asset path grouping by storage profile locations.
//!
//! Paths are grouped under an asset root: the most specific LOCAL location
//! of the storage profile that contains them, or else their top-level
//! directory. Paths under SHARED locations are left out. Each group's root
//! path is then narrowed to the common path of its members.

use vstd::prelude::*;

use crate::path_model::{comp_text, components, join_comps, Comp};
use crate::path_utils::{
    comps_view, component_eq, component_text, copy_component, join_components,
    lemma_comps_view_push, parse_components, PathComponent,
};
use crate::order::{compare_opt_str, compare_str, lemma_pair_order_antisym, lemma_pair_order_trans, pair_order};
use crate::path_model::lexically_normalized;
use crate::path_utils::{absolute_text, lexical_normalize, to_absolute};
use crate::profile_types::{
    best_local_index, under_location, FileSystemLocation, FileSystemLocationType, StorageProfile,
};
use crate::text::{
    append_str, chars_of, copy_strings, contains_text, lemma_strs_push, opt_str_text, opt_text, own, string_of,
    strs,
};

verus! {

// ---------------------------------------------------------------------------
// Disk queries
// ---------------------------------------------------------------------------

/// `std::path::Path::is_file`: whether the path names an existing regular
/// file (following symlinks). The answer depends on the disk at the moment
/// of the call, so nothing is stated of it.
#[verifier::external_body]
pub(crate) fn path_is_file(path: &str) -> bool {
    std::path::Path::new(path).is_file()
}

/// `std::path::Path::exists`: whether anything exists at the path. The
/// answer depends on the disk, so nothing is stated of it.
#[verifier::external_body]
pub(crate) fn path_exists(path: &str) -> bool {
    std::path::Path::new(path).exists()
}

/// `std::path::Path::is_dir`: whether the path names an existing directory.
/// The answer depends on the disk, so nothing is stated of it.
#[verifier::external_body]
pub(crate) fn path_is_dir(path: &str) -> bool {
    std::path::Path::new(path).is_dir()
}

// ---------------------------------------------------------------------------
// Common path
// ---------------------------------------------------------------------------

/// The number of leading components two component lists share.
pub open spec fn match_len(a: Seq<Comp>, b: Seq<Comp>) -> nat
    decreases a.len(),
{
    if a.len() == 0 || b.len() == 0 || a[0] != b[0] {
        0
    } else {
        1 + match_len(a.drop_first(), b.drop_first())
    }
}

/// The number of leading components of the first path that every path
/// shares.
pub open spec fn common_count(paths: Seq<Seq<char>>) -> nat
    decreases paths.len(),
{
    if paths.len() == 0 {
        0
    } else if paths.len() == 1 {
        components(paths[0]).len()
    } else {
        let prev = common_count(paths.drop_last());
        let m = match_len(components(paths[0]), components(paths.last()));
        if m < prev {
            m
        } else {
            prev
        }
    }
}

/// The parent of a path: the text of all its components but the last, or
/// nothing when the path is empty or is the root.
pub open spec fn parent_text(t: Seq<char>) -> Option<Seq<char>> {
    let cs = components(t);
    if cs.len() == 0 || cs.last() is Root {
        None
    } else {
        Some(join_comps(cs.drop_last()))
    }
}

/// What `common_path` returns, given whether the common prefix it built
/// names a file on disk.
pub open spec fn common_path_spec(paths: Seq<Seq<char>>, common_is_file: bool) -> Option<
    Seq<char>,
> {
    if paths.len() == 0 {
        None
    } else if paths.len() == 1 {
        Some(paths[0])
    } else {
        let n = common_count(paths);
        if n == 0 {
            None
        } else {
            let t = join_comps(components(paths[0]).subrange(0, n as int));
            if common_is_file {
                parent_text(t)
            } else if t.len() == 0 {
                Some(seq!['/'])
            } else {
                Some(t)
            }
        }
    }
}

/// The root path of a group whose members are `all`, given whether the
/// common prefix names a file (`prefix_is_file`) and whether the common
/// path itself names a file (`common_is_file`).
pub open spec fn group_root_spec(
    all: Seq<Seq<char>>,
    prefix_is_file: bool,
    common_is_file: bool,
) -> Seq<char> {
    match common_path_spec(all, prefix_is_file) {
        None => Seq::<char>::empty(),
        Some(c) => if common_is_file {
            match parent_text(c) {
                Some(p) => p,
                None => c,
            }
        } else {
            c
        },
    }
}

/// The number of leading components two component vectors share.
fn matching_prefix(a: &Vec<PathComponent>, b: &Vec<PathComponent>) -> (r: usize)
    ensures
        r == match_len(comps_view(a@), comps_view(b@)),
        r <= a.len(),
{
    let ghost av = comps_view(a@);
    let ghost bv = comps_view(b@);
    let mut k: usize = 0;
    assert(av.skip(0) =~= av && bv.skip(0) =~= bv);
    while k < a.len() && k < b.len() && component_eq(&a[k], &b[k])
        invariant
            k <= a.len(),
            k <= b.len(),
            av == comps_view(a@),
            bv == comps_view(b@),
            match_len(av, bv) == k + match_len(av.skip(k as int), bv.skip(k as int)),
        decreases a.len() - k,
    {
        assert(av.skip(k as int).drop_first() =~= av.skip(k + 1));
        assert(bv.skip(k as int).drop_first() =~= bv.skip(k + 1));
        assert(av.skip(k as int)[0] == av[k as int]);
        assert(bv.skip(k as int)[0] == bv[k as int]);
        k = k + 1;
    }
    proof {
        if k < a.len() && k < b.len() {
            assert(av.skip(k as int)[0] == av[k as int]);
            assert(bv.skip(k as int)[0] == bv[k as int]);
        }
    }
    k
}

/// The parent of a path (see `parent_text`).
pub fn parent_path(t: &str) -> (r: Option<String>)
    ensures
        opt_text(r) == parent_text(t@),
{
    let cs = parse_components(&chars_of(t));
    if cs.len() == 0 {
        return None;
    }
    let last = cs.len() - 1;
    match &cs[last] {
        PathComponent::RootDir => {
            return None;
        },
        _ => {},
    }
    let ghost cv = comps_view(cs@);
    let mut front: Vec<PathComponent> = Vec::new();
    let mut i: usize = 0;
    while i < last
        invariant
            last == cs.len() - 1,
            i <= last,
            cv == comps_view(cs@),
            comps_view(front@) == cv.subrange(0, i as int),
        decreases last - i,
    {
        let c = copy_component(&cs[i]);
        proof {
            lemma_comps_view_push(front@, c);
        }
        front.push(c);
        assert(cv.subrange(0, i + 1) =~= cv.subrange(0, i as int).push(cv[i as int]));
        i = i + 1;
    }
    assert(cv.subrange(0, last as int) =~= cv.drop_last());
    let text = join_components(&front);
    Some(string_of(&text))
}

/// The joined components that several paths all share: the path whose
/// kind `common_path` asks the disk about. `None` for fewer than two paths
/// or when they share no component.
pub open spec fn common_prefix_spec(paths: Seq<Seq<char>>) -> Option<Seq<char>> {
    if paths.len() < 2 {
        None
    } else {
        let n = common_count(paths);
        if n == 0 {
            None
        } else {
            Some(join_comps(components(paths[0]).subrange(0, n as int)))
        }
    }
}

/// The joined components that several paths all share (see
/// `common_prefix_spec`).
pub fn common_prefix(paths: &Vec<String>) -> (r: Option<String>)
    ensures
        opt_text(r) == common_prefix_spec(strs(paths@)),
{
    let ghost ps = strs(paths@);
    if paths.len() == 0 {
        return None;
    }
    if paths.len() == 1 {
        return None;
    }
    let first = parse_components(&chars_of(paths[0].as_str()));
    let mut count: usize = first.len();
    let mut i: usize = 1;
    assert(ps.subrange(0, 1).len() == 1 && ps.subrange(0, 1)[0] == ps[0]);
    while i < paths.len()
        invariant
            1 <= i <= paths.len(),
            ps == strs(paths@),
            comps_view(first@) == components(ps[0]),
            count <= first.len(),
            count == common_count(ps.subrange(0, i as int)),
        decreases paths.len() - i,
    {
        let comps = parse_components(&chars_of(paths[i].as_str()));
        let matching = matching_prefix(&first, &comps);
        proof {
            let s = ps.subrange(0, i + 1);
            assert(s.drop_last() =~= ps.subrange(0, i as int));
            assert(s[0] == ps[0]);
            assert(s.last() == ps[i as int]);
        }
        if matching < count {
            count = matching;
        }
        i = i + 1;
    }
    assert(ps.subrange(0, i as int) =~= ps);
    if count == 0 {
        return None;
    }
    let ghost fv = comps_view(first@);
    let mut prefix: Vec<PathComponent> = Vec::new();
    let mut k: usize = 0;
    while k < count
        invariant
            count <= first.len(),
            k <= count,
            fv == comps_view(first@),
            comps_view(prefix@) == fv.subrange(0, k as int),
        decreases count - k,
    {
        let c = copy_component(&first[k]);
        proof {
            lemma_comps_view_push(prefix@, c);
        }
        prefix.push(c);
        assert(fv.subrange(0, k + 1) =~= fv.subrange(0, k as int).push(fv[k as int]));
        k = k + 1;
    }
    let ctext = join_components(&prefix);
    Some(string_of(&ctext))
}

/// The common path of a list of paths, given whether their shared prefix
/// (`common_prefix`) names a file (see `common_path_spec`).
pub fn common_path_with(paths: &Vec<String>, prefix_is_file: bool) -> (r: Option<String>)
    ensures
        opt_text(r) == common_path_spec(strs(paths@), prefix_is_file),
{
    let ghost ps = strs(paths@);
    if paths.len() == 0 {
        return None;
    }
    if paths.len() == 1 {
        return Some(crate::text::own(paths[0].as_str()));
    }
    match common_prefix(paths) {
        None => None,
        Some(common) => {
            if prefix_is_file {
                parent_path(common.as_str())
            } else if common.unicode_len() == 0 {
                let mut root = String::new();
                root.push('/');
                assert(root@ =~= seq!['/']);
                Some(root)
            } else {
                Some(common)
            }
        },
    }
}

/// Find the common path prefix of a list of paths.
///
/// One path is returned as it is. For several, the components they all
/// share are joined; when that prefix names a file on disk, its parent is
/// returned instead. No shared component gives `None`. The disk is asked
/// about the prefix `common_prefix` gives, and `common_path_with` decides
/// from the answer.
pub fn common_path(paths: &Vec<String>) -> (r: Option<String>)
    ensures
        exists|prefix_is_file: bool| opt_text(r) == common_path_spec(strs(paths@), prefix_is_file),
{
    let prefix_is_file = match common_prefix(paths) {
        Some(t) => path_is_file(t.as_str()),
        None => false,
    };
    common_path_with(paths, prefix_is_file)
}

// ---------------------------------------------------------------------------
// Groups and their model
// ---------------------------------------------------------------------------

/// A group of paths sharing a common asset root.
#[derive(Debug)]
pub struct AssetRootGroup {
    /// The common root path for this group.
    pub root_path: String,
    /// Input files to be uploaded (each at most once).
    pub inputs: Vec<String>,
    /// Output directories, tracked but not uploaded (each at most once).
    pub outputs: Vec<String>,
    /// Referenced paths, which may not exist (each at most once).
    pub references: Vec<String>,
    /// File system location name (if matched to a LOCAL location).
    pub file_system_location_name: Option<String>,
}

/// What a group holds, as plain values.
pub struct GroupView {
    pub root: Seq<char>,
    pub name: Option<Seq<char>>,
    pub inputs: Seq<Seq<char>>,
    pub outputs: Seq<Seq<char>>,
    pub refs: Seq<Seq<char>>,
}

impl View for AssetRootGroup {
    type V = GroupView;

    open spec fn view(&self) -> GroupView {
        GroupView {
            root: self.root_path@,
            name: opt_text(self.file_system_location_name),
            inputs: strs(self.inputs@),
            outputs: strs(self.outputs@),
            refs: strs(self.references@),
        }
    }
}

impl AssetRootGroup {
    /// An empty group with an empty root path and no location name.
    pub fn new() -> (r: Self)
        ensures
            r@.root.len() == 0,
            r@.name is None,
            r@.inputs.len() == 0,
            r@.outputs.len() == 0,
            r@.refs.len() == 0,
    {
        AssetRootGroup {
            root_path: String::new(),
            inputs: Vec::new(),
            outputs: Vec::new(),
            references: Vec::new(),
            file_system_location_name: None,
        }
    }
}

/// The three kinds of paths a group holds.
#[derive(PartialEq, Eq, Structural, Clone, Copy, Debug)]
pub enum PathRole {
    Input,
    Output,
    Reference,
}

/// A group while paths are being placed: its key, the location name it was
/// created with, and its members in order of first appearance.
pub struct GroupModel {
    pub key: Seq<char>,
    pub name: Option<Seq<char>>,
    pub inputs: Seq<Seq<char>>,
    pub outputs: Seq<Seq<char>>,
    pub refs: Seq<Seq<char>>,
}

/// `p` appended to `s` unless `s` already holds it.
pub open spec fn add_unique(s: Seq<Seq<char>>, p: Seq<char>) -> Seq<Seq<char>> {
    if s.contains(p) {
        s
    } else {
        s.push(p)
    }
}

/// The group with `p` added to the members of the given role.
pub open spec fn add_member(g: GroupModel, role: PathRole, p: Seq<char>) -> GroupModel {
    match role {
        PathRole::Input => GroupModel {
            key: g.key,
            name: g.name,
            inputs: add_unique(g.inputs, p),
            outputs: g.outputs,
            refs: g.refs,
        },
        PathRole::Output => GroupModel {
            key: g.key,
            name: g.name,
            inputs: g.inputs,
            outputs: add_unique(g.outputs, p),
            refs: g.refs,
        },
        PathRole::Reference => GroupModel {
            key: g.key,
            name: g.name,
            inputs: g.inputs,
            outputs: g.outputs,
            refs: add_unique(g.refs, p),
        },
    }
}

/// The position of the group with the given key, or -1.
pub open spec fn key_index(gs: Seq<GroupModel>, key: Seq<char>) -> int
    decreases gs.len(),
{
    if gs.len() == 0 {
        -1
    } else if gs.last().key == key {
        gs.len() - 1
    } else {
        key_index(gs.drop_last(), key)
    }
}

/// Places `p` in the group with key `key`, creating the group (with the
/// location name `name`) when there is none yet.
pub open spec fn place_path(
    gs: Seq<GroupModel>,
    role: PathRole,
    p: Seq<char>,
    key: Seq<char>,
    name: Option<Seq<char>>,
) -> Seq<GroupModel> {
    let k = key_index(gs, key);
    if k >= 0 {
        gs.update(k, add_member(gs[k], role, p))
    } else {
        gs.push(
            add_member(
                GroupModel {
                    key,
                    name,
                    inputs: Seq::empty(),
                    outputs: Seq::empty(),
                    refs: Seq::empty(),
                },
                role,
                p,
            ),
        )
    }
}

/// The locations of an optional profile (none without a profile).
pub open spec fn profile_locations(profile: Option<&StorageProfile>) -> Seq<FileSystemLocation> {
    match profile {
        Some(p) => p.file_system_locations@,
        None => Seq::empty(),
    }
}

/// The absolute, lexically normalized form of a path; without a working
/// directory a relative path is normalized as it is.
pub open spec fn normalized_path(p: Seq<char>, cwd: Option<Seq<char>>) -> Seq<char> {
    match cwd {
        Some(c) => lexically_normalized(absolute_text(p, c)),
        None => lexically_normalized(p),
    }
}

/// The text of a path's first component, or the empty text.
pub open spec fn top_dir(np: Seq<char>) -> Seq<char> {
    let cs = components(np);
    if cs.len() == 0 {
        Seq::<char>::empty()
    } else {
        comp_text(cs[0])
    }
}

/// The grouping key of a path: the path of the most specific LOCAL
/// location containing it, or else its top-level directory.
pub open spec fn location_key(locs: Seq<FileSystemLocation>, np: Seq<char>) -> Seq<char> {
    if exists|i: int| best_local_index(locs, np, i) {
        locs[choose|i: int| best_local_index(locs, np, i)].path@
    } else {
        top_dir(np)
    }
}

/// The name of the most specific LOCAL location containing a path.
pub open spec fn location_name(locs: Seq<FileSystemLocation>, np: Seq<char>) -> Option<Seq<char>> {
    if exists|i: int| best_local_index(locs, np, i) {
        Some(locs[choose|i: int| best_local_index(locs, np, i)].name@)
    } else {
        None
    }
}

/// Places every path of the list, in order, skipping those under SHARED
/// locations.
pub open spec fn place_all(
    gs: Seq<GroupModel>,
    role: PathRole,
    paths: Seq<Seq<char>>,
    locs: Seq<FileSystemLocation>,
    cwd: Option<Seq<char>>,
) -> Seq<GroupModel>
    decreases paths.len(),
{
    if paths.len() == 0 {
        gs
    } else {
        let prev = place_all(gs, role, paths.drop_last(), locs, cwd);
        let np = normalized_path(paths.last(), cwd);
        if under_location(locs, FileSystemLocationType::Shared, np) {
            prev
        } else {
            place_path(prev, role, np, location_key(locs, np), location_name(locs, np))
        }
    }
}

/// The groups, in order of creation, that inputs, then outputs, then
/// references produce.
pub open spec fn grouping_model(
    inputs: Seq<Seq<char>>,
    outputs: Seq<Seq<char>>,
    refs: Seq<Seq<char>>,
    locs: Seq<FileSystemLocation>,
    cwd: Option<Seq<char>>,
) -> Seq<GroupModel> {
    let a = place_all(Seq::empty(), PathRole::Input, inputs, locs, cwd);
    let b = place_all(a, PathRole::Output, outputs, locs, cwd);
    place_all(b, PathRole::Reference, refs, locs, cwd)
}

/// The members of a group model: inputs, then outputs, then references.
pub open spec fn group_members(g: GroupModel) -> Seq<Seq<char>> {
    g.inputs + g.outputs + g.refs
}

/// An executable group holds what the model group holds.
pub open spec fn members_match(v: GroupView, g: GroupModel) -> bool {
    &&& v.name == g.name
    &&& v.inputs == g.inputs
    &&& v.outputs == g.outputs
    &&& v.refs == g.refs
}

/// The executable state while placing paths: one key and one group per
/// model group.
pub open spec fn holds_model(
    keys: Seq<String>,
    groups: Seq<AssetRootGroup>,
    m: Seq<GroupModel>,
) -> bool {
    &&& keys.len() == m.len()
    &&& groups.len() == m.len()
    &&& forall|j: int|
        0 <= j < m.len() ==> (#[trigger] keys[j])@ == m[j].key && members_match(groups[j]@, m[j])
}

/// Adds `p` to a member list unless it is there already.
fn add_unique_text(v: &mut Vec<String>, p: String)
    ensures
        strs(final(v)@) == add_unique(strs(old(v)@), p@),
{
    if !contains_text(v, p.as_str()) {
        proof {
            lemma_strs_push(v@, p);
        }
        v.push(p);
    }
}

/// Adds `p` to the members of the given role.
fn add_group_member(g: &mut AssetRootGroup, role: PathRole, p: String)
    ensures
        final(g)@.root == old(g)@.root,
        final(g)@.name == old(g)@.name,
        forall|m: GroupModel|
            members_match(old(g)@, m) ==> members_match(final(g)@, #[trigger] add_member(m, role, p@)),
{
    match role {
        PathRole::Input => add_unique_text(&mut g.inputs, p),
        PathRole::Output => add_unique_text(&mut g.outputs, p),
        PathRole::Reference => add_unique_text(&mut g.references, p),
    }
}

/// The position of the key among the keys, searching from the end.
fn find_key(keys: &Vec<String>, key: &str, Ghost(m): Ghost<Seq<GroupModel>>) -> (r: Option<usize>)
    requires
        keys.len() == m.len(),
        forall|j: int| 0 <= j < m.len() ==> (#[trigger] keys@[j])@ == m[j].key,
    ensures
        match r {
            Some(k) => k as int == key_index(m, key@) && k < keys.len(),
            None => key_index(m, key@) == -1,
        },
{
    let mut i: usize = keys.len();
    assert(m.subrange(0, i as int) =~= m);
    while i > 0
        invariant
            i <= keys.len(),
            keys.len() == m.len(),
            forall|j: int| 0 <= j < m.len() ==> (#[trigger] keys@[j])@ == m[j].key,
            key_index(m, key@) == key_index(m.subrange(0, i as int), key@),
        decreases i,
    {
        let ghost s = m.subrange(0, i as int);
        assert(s.last() == m[i - 1]);
        if crate::text::str_eq(keys[i - 1].as_str(), key) {
            return Some(i - 1);
        }
        assert(s.drop_last() =~= m.subrange(0, i - 1));
        i = i - 1;
    }
    None
}

/// Places `p` as `place_path` does.
fn place(
    keys: &mut Vec<String>,
    groups: &mut Vec<AssetRootGroup>,
    role: PathRole,
    p: String,
    key: String,
    name: Option<String>,
    Ghost(m): Ghost<Seq<GroupModel>>,
)
    requires
        holds_model(old(keys)@, old(groups)@, m),
    ensures
        holds_model(final(keys)@, final(groups)@, place_path(m, role, p@, key@, opt_text(name))),
{
    let ghost pv = p@;
    match find_key(keys, key.as_str(), Ghost(m)) {
        Some(k) => {
            let ghost old_groups = groups@;
            add_group_member(&mut groups[k], role, p);
            proof {
                let m2 = place_path(m, role, pv, key@, opt_text(name));
                assert(m2 == m.update(k as int, add_member(m[k as int], role, pv)));
                assert forall|j: int| 0 <= j < m2.len() implies (#[trigger] keys@[j])@ == m2[j].key
                    && members_match(groups@[j]@, m2[j]) by {
                    assert(old(keys)@[j]@ == m[j].key);
                    if j != k {
                        assert(groups@[j] == old_groups[j]);
                    } else {
                        assert(old(keys)@[j]@ == m[j].key);
                        assert(members_match(old_groups[j]@, m[j]));
                        assert(members_match(groups@[j]@, add_member(m[j], role, pv)));
                    }
                }
                assert(holds_model(keys@, groups@, m2));
            }
        },
        None => {
            let mut g = AssetRootGroup::new();
            g.file_system_location_name = name;
            let ghost fresh = GroupModel {
                key: key@,
                name: opt_text(name),
                inputs: Seq::empty(),
                outputs: Seq::empty(),
                refs: Seq::empty(),
            };
            assert(g@.inputs =~= fresh.inputs && g@.outputs =~= fresh.outputs && g@.refs
                =~= fresh.refs);
            add_group_member(&mut g, role, p);
            assert(members_match(g@, add_member(fresh, role, pv)));
            let ghost old_keys = keys@;
            let ghost old_groups = groups@;
            keys.push(key);
            groups.push(g);
            proof {
                let m2 = place_path(m, role, pv, key@, opt_text(name));
                assert(m2 == m.push(add_member(fresh, role, pv)));
                assert forall|j: int| 0 <= j < m2.len() implies (#[trigger] keys@[j])@ == m2[j].key
                    && members_match(groups@[j]@, m2[j]) by {
                    if j < m.len() {
                        assert(old(keys)@[j]@ == m[j].key);
                        assert(keys@[j] == old_keys[j]);
                        assert(groups@[j] == old_groups[j]);
                    }
                }
                assert(holds_model(keys@, groups@, m2));
            }
        },
    }
}

/// Normalize a path: absolute without resolving symlinks, with `.` and
/// `..` removed. Without a working directory, a relative path is only
/// normalized.
pub fn normalize_path(path: &str, cwd: Option<&str>) -> (r: String)
    ensures
        r@ == normalized_path(path@, opt_str_text(cwd)),
{
    match cwd {
        Some(c) => {
            let abs = to_absolute(path, c);
            lexical_normalize(abs.as_str())
        },
        None => lexical_normalize(path),
    }
}

/// The text of the first component of a path, or the empty string.
fn top_dir_of(np: &str) -> (r: String)
    ensures
        r@ == top_dir(np@),
{
    let cs = parse_components(&chars_of(np));
    if cs.len() == 0 {
        String::new()
    } else {
        string_of(&component_text(&cs[0]))
    }
}

/// At most one location is the most specific LOCAL one for a path.
pub proof fn lemma_best_local_unique(
    locs: Seq<FileSystemLocation>,
    path: Seq<char>,
    i: int,
    j: int,
)
    requires
        best_local_index(locs, path, i),
        best_local_index(locs, path, j),
    ensures
        i == j,
{
    if i < j {
        assert(crate::path_model::path_starts_with_spec(path, locs[j].path@));
        assert(crate::path_model::path_starts_with_spec(path, locs[i].path@));
    } else if j < i {
        assert(crate::path_model::path_starts_with_spec(path, locs[j].path@));
        assert(crate::path_model::path_starts_with_spec(path, locs[i].path@));
    }
}

/// Whether a path is under any SHARED location of the profile.
fn is_under_shared(np: &str, profile: Option<&StorageProfile>) -> (r: bool)
    ensures
        r == under_location(profile_locations(profile), FileSystemLocationType::Shared, np@),
{
    match profile {
        Some(p) => p.is_shared(np),
        None => false,
    }
}

/// Find the grouping key for a path: the most specific LOCAL location
/// containing it (with its name), or else its top-level directory.
fn find_root_for_path(np: &str, profile: Option<&StorageProfile>) -> (r: (String, Option<String>))
    ensures
        r.0@ == location_key(profile_locations(profile), np@),
        opt_text(r.1) == location_name(profile_locations(profile), np@),
{
    let ghost locs = profile_locations(profile);
    let found = match profile {
        Some(p) => p.find_local_location(np),
        None => None,
    };
    match found {
        Some((lp, ln)) => {
            proof {
                let i = choose|i: int|
                    best_local_index(locs, np@, i) && lp@ == locs[i].path@ && ln@ == locs[i].name@;
                lemma_best_local_unique(locs, np@, i, choose|i: int| best_local_index(locs, np@, i));
            }
            (own(lp), Some(own(ln)))
        },
        None => {
            proof {
                if exists|i: int| best_local_index(locs, np@, i) {
                    let i = choose|i: int| best_local_index(locs, np@, i);
                    assert(crate::path_model::path_starts_with_spec(np@, locs[i].path@));
                }
            }
            (top_dir_of(np), None)
        },
    }
}

/// Places every path of the list, as `place_all` does.
fn place_paths(
    keys: &mut Vec<String>,
    groups: &mut Vec<AssetRootGroup>,
    paths: &Vec<String>,
    role: PathRole,
    profile: Option<&StorageProfile>,
    cwd: Option<&str>,
    Ghost(m0): Ghost<Seq<GroupModel>>,
)
    requires
        holds_model(old(keys)@, old(groups)@, m0),
    ensures
        holds_model(
            final(keys)@,
            final(groups)@,
            place_all(m0, role, strs(paths@), profile_locations(profile), opt_str_text(cwd)),
        ),
{
    let ghost ps = strs(paths@);
    let ghost locs = profile_locations(profile);
    let ghost cw = opt_str_text(cwd);
    let mut i: usize = 0;
    assert(ps.subrange(0, 0) =~= Seq::<Seq<char>>::empty());
    while i < paths.len()
        invariant
            i <= paths.len(),
            ps == strs(paths@),
            locs == profile_locations(profile),
            cw == opt_str_text(cwd),
            holds_model(keys@, groups@, place_all(m0, role, ps.subrange(0, i as int), locs, cw)),
        decreases paths.len() - i,
    {
        let ghost m = place_all(m0, role, ps.subrange(0, i as int), locs, cw);
        proof {
            let s = ps.subrange(0, i + 1);
            assert(s.drop_last() =~= ps.subrange(0, i as int));
            assert(s.last() == paths@[i as int]@);
        }
        let np = normalize_path(paths[i].as_str(), cwd);
        if !is_under_shared(np.as_str(), profile) {
            let (key, name) = find_root_for_path(np.as_str(), profile);
            place(keys, groups, role, np, key, name, Ghost(m));
        }
        i = i + 1;
    }
    assert(ps.subrange(0, i as int) =~= ps);
}

// ---------------------------------------------------------------------------
// Roots, order and the result
// ---------------------------------------------------------------------------

/// A group view realizes a model group: the same members and name, and a
/// root computed from the members for some answers of the disk queries.
pub open spec fn realizes(v: GroupView, g: GroupModel) -> bool {
    &&& members_match(v, g)
    &&& exists|prefix_is_file: bool, common_is_file: bool|
        v.root == group_root_spec(group_members(g), prefix_is_file, common_is_file)
}

/// Groups are ordered by root path, then by location name (`None` first).
pub open spec fn group_order(a: GroupView, b: GroupView) -> int {
    pair_order(a.root, a.name, b.root, b.name)
}

pub open spec fn sorted_views(vs: Seq<GroupView>) -> bool {
    forall|i: int, j: int| 0 <= i < j < vs.len() ==> group_order(#[trigger] vs[i], #[trigger] vs[j]) <= 0
}

pub open spec fn views(r: Seq<AssetRootGroup>) -> Seq<GroupView> {
    Seq::new(r.len(), |i: int| r[i]@)
}

/// The result of grouping: sorted, and made of exactly the model groups,
/// each with a root computed from its members.
pub open spec fn grouping_ok(r: Seq<AssetRootGroup>, m: Seq<GroupModel>) -> bool {
    &&& sorted_views(views(r))
    &&& exists|vs: Seq<GroupView>|
        {
            &&& vs.len() == m.len()
            &&& forall|j: int| 0 <= j < m.len() ==> realizes(#[trigger] vs[j], m[j])
            &&& views(r).to_multiset() == vs.to_multiset()
        }
}

/// Appends copies of the strings of `b` to `a`.
fn append_strings(a: &mut Vec<String>, b: &Vec<String>)
    ensures
        strs(final(a)@) == strs(old(a)@) + strs(b@),
{
    let mut i: usize = 0;
    while i < b.len()
        invariant
            i <= b.len(),
            strs(a@) == strs(old(a)@) + strs(b@).subrange(0, i as int),
        decreases b.len() - i,
    {
        let c = own(b[i].as_str());
        proof {
            lemma_strs_push(a@, c);
        }
        a.push(c);
        assert(strs(b@).subrange(0, i + 1) =~= strs(b@).subrange(0, i as int).push(b@[i as int]@));
        assert(strs(old(a)@) + strs(b@).subrange(0, i + 1) =~= (strs(old(a)@) + strs(b@).subrange(
            0,
            i as int,
        )).push(b@[i as int]@));
        i = i + 1;
    }
    assert(strs(b@).subrange(0, i as int) =~= strs(b@));
}

/// The root path of a group with the given members, given whether their
/// shared prefix names a file (`prefix_is_file`, asked about
/// `common_prefix`) and whether their common path names a file
/// (`common_is_file`, asked about `common_path_with`): see
/// `group_root_spec`.
pub fn group_root_with(all: &Vec<String>, prefix_is_file: bool, common_is_file: bool) -> (r: String)
    ensures
        r@ == group_root_spec(strs(all@), prefix_is_file, common_is_file),
{
    match common_path_with(all, prefix_is_file) {
        None => String::new(),
        Some(t) => {
            if common_is_file {
                match parent_path(t.as_str()) {
                    Some(p) => p,
                    None => t,
                }
            } else {
                t
            }
        },
    }
}

/// The root path of a group with the given members: their common path,
/// or its parent when the common path names a file, or empty when there is
/// no common path. The disk is asked about the shared prefix
/// (`common_prefix`) and then about the common path (`common_path_with`);
/// `group_root_with` decides from the answers.
fn group_root(all: &Vec<String>) -> (r: String)
    ensures
        exists|prefix_is_file: bool, common_is_file: bool|
            r@ == group_root_spec(strs(all@), prefix_is_file, common_is_file),
{
    let prefix_is_file = match common_prefix(all) {
        Some(t) => path_is_file(t.as_str()),
        None => false,
    };
    let common_is_file = match common_path_with(all, prefix_is_file) {
        Some(c) => path_is_file(c.as_str()),
        None => false,
    };
    group_root_with(all, prefix_is_file, common_is_file)
}

/// Three-way comparison of groups by root path, then location name.
fn compare_groups(a: &AssetRootGroup, b: &AssetRootGroup) -> (r: i8)
    ensures
        r as int == group_order(a@, b@),
{
    let c = compare_str(a.root_path.as_str(), b.root_path.as_str());
    if c != 0 {
        c
    } else {
        compare_opt_str(&a.file_system_location_name, &b.file_system_location_name)
    }
}

proof fn lemma_views_push(r: Seq<AssetRootGroup>, g: AssetRootGroup)
    ensures
        views(r.push(g)) == views(r).push(g@),
{
    assert(views(r.push(g)) =~= views(r).push(g@));
}

/// Sorts groups by root path, then location name.
fn sort_groups(gs: Vec<AssetRootGroup>) -> (r: Vec<AssetRootGroup>)
    ensures
        sorted_views(views(r@)),
        views(r@).to_multiset() == views(gs@).to_multiset(),
{
    broadcast use vstd::multiset::group_multiset_axioms;

    let ghost total = views(gs@).to_multiset();
    let mut src = gs;
    let mut out: Vec<AssetRootGroup> = Vec::new();
    proof {
        vstd::seq_lib::to_multiset_len(views(out@));
        vstd::multiset::lemma_multiset_empty_len(views(out@).to_multiset());
    }
    while src.len() > 0
        invariant
            views(out@).to_multiset().add(views(src@).to_multiset()) == total,
            sorted_views(views(out@)),
        decreases src.len(),
    {
        let ghost before_src = src@;
        let g = src.pop().unwrap();
        proof {
            assert(before_src == src@.push(g));
            lemma_views_push(src@, g);
            vstd::seq_lib::to_multiset_build(views(src@), g@);
        }
        let mut k: usize = 0;
        while k < out.len() && compare_groups(&out[k], &g) <= 0
            invariant
                k <= out.len(),
                forall|i: int| 0 <= i < k ==> group_order(#[trigger] views(out@)[i], g@) <= 0,
            decreases out.len() - k,
        {
            assert(views(out@)[k as int] == out@[k as int]@);
            k = k + 1;
        }
        let ghost ov = views(out@);
        proof {
            if k < out.len() {
                assert(ov[k as int] == out@[k as int]@);
                assert(group_order(ov[k as int], g@) > 0);
            }
        }
        out.insert(k, g);
        proof {
            let nv = views(out@);
            assert(nv =~= ov.insert(k as int, g@));
            vstd::seq_lib::to_multiset_insert(ov, k as int, g@);
            assert forall|i: int, j: int| 0 <= i < j < nv.len() implies group_order(
                #[trigger] nv[i],
                #[trigger] nv[j],
            ) <= 0 by {
                if j < k {
                    assert(nv[i] == ov[i] && nv[j] == ov[j]);
                } else if j == k {
                    assert(nv[i] == ov[i]);
                } else if i == k {
                    assert(nv[j] == ov[j - 1]);
                    let x = ov[k as int];
                    lemma_pair_order_antisym(x.root, x.name, g@.root, g@.name);
                    if j - 1 > k {
                        lemma_pair_order_trans(
                            g@.root,
                            g@.name,
                            x.root,
                            x.name,
                            ov[j - 1].root,
                            ov[j - 1].name,
                        );
                    }
                } else if i < k {
                    assert(nv[i] == ov[i] && nv[j] == ov[j - 1]);
                    let x = ov[k as int];
                    lemma_pair_order_antisym(x.root, x.name, g@.root, g@.name);
                    lemma_pair_order_trans(
                        ov[i].root,
                        ov[i].name,
                        g@.root,
                        g@.name,
                        x.root,
                        x.name,
                    );
                    if j - 1 > k {
                        lemma_pair_order_trans(
                            ov[i].root,
                            ov[i].name,
                            x.root,
                            x.name,
                            ov[j - 1].root,
                            ov[j - 1].name,
                        );
                    }
                } else {
                    assert(nv[i] == ov[i - 1] && nv[j] == ov[j - 1]);
                }
            }
        }
    }
    proof {
        vstd::seq_lib::to_multiset_len(views(src@));
        vstd::multiset::lemma_multiset_empty_len(views(src@).to_multiset());
    }
    out
}

/// Sets each group's root path from its members.
fn set_roots(groups: &mut Vec<AssetRootGroup>, Ghost(m): Ghost<Seq<GroupModel>>)
    requires
        old(groups)@.len() == m.len(),
        forall|j: int| 0 <= j < m.len() ==> members_match(#[trigger] old(groups)@[j]@, m[j]),
    ensures
        final(groups)@.len() == m.len(),
        forall|j: int| 0 <= j < m.len() ==> realizes(#[trigger] final(groups)@[j]@, m[j]),
{
    let mut i: usize = 0;
    while i < groups.len()
        invariant
            i <= groups.len(),
            groups@.len() == m.len(),
            forall|j: int| 0 <= j < m.len() ==> members_match(#[trigger] groups@[j]@, m[j]),
            forall|j: int| 0 <= j < i ==> realizes(#[trigger] groups@[j]@, m[j]),
        decreases groups.len() - i,
    {
        let mut all = crate::text::copy_strings(&groups[i].inputs);
        append_strings(&mut all, &groups[i].outputs);
        append_strings(&mut all, &groups[i].references);
        assert(members_match(groups@[i as int]@, m[i as int]));
        assert(strs(all@) == group_members(m[i as int]));
        let root = group_root(&all);
        let ghost before = groups@;
        groups[i].root_path = root;
        proof {
            assert forall|j: int| 0 <= j < m.len() implies members_match(
                #[trigger] groups@[j]@,
                m[j],
            ) by {
                if j != i {
                    assert(groups@[j] == before[j]);
                }
                assert(members_match(before[j]@, m[j]));
            }
            assert forall|j: int| 0 <= j < i + 1 implies realizes(#[trigger] groups@[j]@, m[j]) by {
                if j != i {
                    assert(groups@[j] == before[j]);
                }
            }
        }
        i = i + 1;
    }
}

/// Group paths by asset root, respecting storage profile locations.
///
/// Inputs, outputs and referenced paths are made absolute against `cwd`
/// (when it is known) and lexically normalized. Paths under SHARED
/// locations are skipped. Each remaining path joins the group of the most
/// specific LOCAL location containing it, or else of its top-level
/// directory; a group takes the location name of the path that created it.
/// Each group's root path is the common path of its members (its parent
/// where that names a file). The groups come sorted by root path, then by
/// location name.
pub fn group_asset_paths(
    input_paths: &Vec<String>,
    output_paths: &Vec<String>,
    referenced_paths: &Vec<String>,
    storage_profile: Option<&StorageProfile>,
    cwd: Option<&str>,
) -> (r: Vec<AssetRootGroup>)
    ensures
        grouping_ok(
            r@,
            grouping_model(
                strs(input_paths@),
                strs(output_paths@),
                strs(referenced_paths@),
                profile_locations(storage_profile),
                opt_str_text(cwd),
            ),
        ),
{
    let ghost locs = profile_locations(storage_profile);
    let ghost cw = opt_str_text(cwd);
    let ghost m0 = Seq::<GroupModel>::empty();
    let ghost m1 = place_all(m0, PathRole::Input, strs(input_paths@), locs, cw);
    let ghost m2 = place_all(m1, PathRole::Output, strs(output_paths@), locs, cw);
    let mut keys: Vec<String> = Vec::new();
    let mut groups: Vec<AssetRootGroup> = Vec::new();
    place_paths(&mut keys, &mut groups, input_paths, PathRole::Input, storage_profile, cwd, Ghost(m0));
    place_paths(
        &mut keys,
        &mut groups,
        output_paths,
        PathRole::Output,
        storage_profile,
        cwd,
        Ghost(m1),
    );
    place_paths(
        &mut keys,
        &mut groups,
        referenced_paths,
        PathRole::Reference,
        storage_profile,
        cwd,
        Ghost(m2),
    );
    let ghost m = grouping_model(
        strs(input_paths@),
        strs(output_paths@),
        strs(referenced_paths@),
        locs,
        cw,
    );
    assert forall|j: int| 0 <= j < m.len() implies members_match(#[trigger] groups@[j]@, m[j]) by {
        assert(keys@[j]@ == m[j].key);
    }
    set_roots(&mut groups, Ghost(m));
    let ghost vs = views(groups@);
    let r = sort_groups(groups);
    assert(vs.len() == m.len());
    assert forall|j: int| 0 <= j < m.len() implies realizes(#[trigger] vs[j], m[j]) by {
        assert(vs[j] == groups@[j]@);
    }
    assert(views(r@).to_multiset() == vs.to_multiset());
    r
}

// ---------------------------------------------------------------------------
// Validated grouping
// ---------------------------------------------------------------------------

/// Options for path validation during grouping.
#[derive(Clone, Copy, Debug)]
pub struct PathValidationMode {
    /// If true, missing input paths cause an error.
    /// If false, missing paths are demoted to referenced paths.
    pub require_paths_exist: bool,
}

impl Default for PathValidationMode {
    fn default() -> (r: Self)
        ensures
            !r.require_paths_exist,
    {
        PathValidationMode { require_paths_exist: false }
    }
}

/// Errors for misconfigured inputs.
#[derive(Debug)]
pub enum PathGroupingError {
    /// Input files that do not exist.
    MissingInputFiles { missing: Vec<String> },
    /// Directories specified as input files.
    DirectoriesAsFiles { directories: Vec<String> },
    /// Combined error for multiple issues.
    MisconfiguredInputs { message: String, missing: Vec<String>, directories: Vec<String> },
}

/// Result of path grouping with validation info.
#[derive(Debug)]
pub struct PathGroupingResult {
    /// Successfully grouped asset roots.
    pub groups: Vec<AssetRootGroup>,
    /// Paths that were demoted to references (when paths need not exist).
    pub demoted_to_references: Vec<String>,
    /// Paths under SHARED locations that were skipped.
    pub skipped_shared: Vec<String>,
}

/// Each path on a line of its own, after a tab.
pub open spec fn tab_lines(ps: Seq<Seq<char>>) -> Seq<char>
    decreases ps.len(),
{
    if ps.len() == 0 {
        Seq::<char>::empty()
    } else if ps.len() == 1 {
        seq!['\t'] + ps[0]
    } else {
        tab_lines(ps.drop_last()) + seq!['\n', '\t'] + ps.last()
    }
}

/// Format a list of paths for error display.
pub fn format_paths(paths: &Vec<String>) -> (r: String)
    ensures
        r@ == tab_lines(strs(paths@)),
{
    let ghost ps = strs(paths@);
    let mut out: Vec<char> = Vec::new();
    let mut i: usize = 0;
    assert(ps.subrange(0, 0) =~= Seq::<Seq<char>>::empty());
    while i < paths.len()
        invariant
            i <= paths.len(),
            ps == strs(paths@),
            out@ == tab_lines(ps.subrange(0, i as int)),
        decreases paths.len() - i,
    {
        let ghost before = out@;
        if i > 0 {
            out.push('\n');
        }
        out.push('\t');
        append_str(&mut out, paths[i].as_str());
        proof {
            let s = ps.subrange(0, i + 1);
            assert(s.drop_last() =~= ps.subrange(0, i as int));
            assert(s.last() == paths@[i as int]@);
            if i == 0 {
                assert(out@ =~= seq!['\t'] + s[0]);
            } else {
                assert(out@ =~= before + seq!['\n', '\t'] + s.last());
            }
        }
        i = i + 1;
    }
    assert(ps.subrange(0, i as int) =~= ps);
    string_of(&out)
}

/// The text of a misconfigured-inputs report.
pub open spec fn misconfigured_text(missing: Seq<Seq<char>>, directories: Seq<Seq<char>>) -> Seq<
    char,
> {
    let a = "Missing input files:\n"@ + tab_lines(missing);
    let b = "Directories classified as files:\n"@ + tab_lines(directories);
    if missing.len() > 0 && directories.len() > 0 {
        a + seq!['\n'] + b
    } else if missing.len() > 0 {
        a
    } else if directories.len() > 0 {
        b
    } else {
        Seq::<char>::empty()
    }
}

/// Format misconfigured inputs for error display: the missing files and
/// the directories, each part present only when it lists something.
pub fn format_misconfigured(missing: &Vec<String>, directories: &Vec<String>) -> (r: String)
    ensures
        r@ == misconfigured_text(strs(missing@), strs(directories@)),
{
    let mut out: Vec<char> = Vec::new();
    if missing.len() > 0 {
        append_str(&mut out, "Missing input files:\n");
        append_str(&mut out, format_paths(missing).as_str());
    }
    if directories.len() > 0 {
        if missing.len() > 0 {
            out.push('\n');
        }
        append_str(&mut out, "Directories classified as files:\n");
        append_str(&mut out, format_paths(directories).as_str());
    }
    assert(out@ =~= misconfigured_text(strs(missing@), strs(directories@)));
    string_of(&out)
}

/// The message of a combined report.
pub open spec fn misconfigured_message() -> Seq<char> {
    "Job submission contains missing input files or directories specified as files."@
}

/// The displayed text of an error.
pub open spec fn grouping_error_text(e: PathGroupingError) -> Seq<char> {
    match e {
        PathGroupingError::MissingInputFiles { missing } => "Missing input files:\n"@ + tab_lines(
            strs(missing@),
        ),
        PathGroupingError::DirectoriesAsFiles { directories } =>
            "Directories specified as input files:\n"@ + tab_lines(strs(directories@)),
        PathGroupingError::MisconfiguredInputs { message, missing, directories } => message@
            + seq!['\n'] + misconfigured_text(strs(missing@), strs(directories@)),
    }
}

impl PathGroupingError {
    /// The error's displayed text.
    pub fn to_string(&self) -> (r: String)
        ensures
            r@ == grouping_error_text(*self),
    {
        let mut out: Vec<char> = Vec::new();
        match self {
            PathGroupingError::MissingInputFiles { missing } => {
                append_str(&mut out, "Missing input files:\n");
                append_str(&mut out, format_paths(missing).as_str());
            },
            PathGroupingError::DirectoriesAsFiles { directories } => {
                append_str(&mut out, "Directories specified as input files:\n");
                append_str(&mut out, format_paths(directories).as_str());
            },
            PathGroupingError::MisconfiguredInputs { message, missing, directories } => {
                append_str(&mut out, message.as_str());
                out.push('\n');
                append_str(&mut out, format_misconfigured(missing, directories).as_str());
            },
        }
        assert(out@ =~= grouping_error_text(*self));
        string_of(&out)
    }
}

/// How input paths were sorted out before grouping.
#[verifier::ext_equal]
pub struct InputTriage {
    pub valid: Seq<Seq<char>>,
    pub missing: Seq<Seq<char>>,
    pub directories: Seq<Seq<char>>,
    pub demoted: Seq<Seq<char>>,
    pub skipped: Seq<Seq<char>>,
}

/// Sorts out the input paths, given for each input whether it exists
/// (`exists`) and whether it is a directory (`is_dir`): a path under a
/// SHARED location is skipped; a missing one is an error when paths must
/// exist and is demoted to a reference otherwise; a directory is an error;
/// anything else is a valid input.
pub open spec fn triage_inputs(
    inputs: Seq<Seq<char>>,
    locs: Seq<FileSystemLocation>,
    cwd: Option<Seq<char>>,
    require: bool,
    exists: Seq<bool>,
    is_dir: Seq<bool>,
) -> InputTriage
    decreases inputs.len(),
{
    if inputs.len() == 0 {
        InputTriage {
            valid: Seq::empty(),
            missing: Seq::empty(),
            directories: Seq::empty(),
            demoted: Seq::empty(),
            skipped: Seq::empty(),
        }
    } else {
        let t = triage_inputs(inputs.drop_last(), locs, cwd, require, exists, is_dir);
        let i = inputs.len() - 1;
        let np = normalized_path(inputs.last(), cwd);
        if under_location(locs, FileSystemLocationType::Shared, np) {
            InputTriage { skipped: t.skipped.push(np), ..t }
        } else if !exists[i] {
            if require {
                InputTriage { missing: t.missing.push(np), ..t }
            } else {
                InputTriage { demoted: t.demoted.push(np), ..t }
            }
        } else if is_dir[i] {
            InputTriage { directories: t.directories.push(np), ..t }
        } else {
            InputTriage { valid: t.valid.push(np), ..t }
        }
    }
}

/// What `group_asset_paths_validated` returns for given answers of the
/// disk queries.
pub open spec fn validated_ok(
    r: Result<PathGroupingResult, PathGroupingError>,
    inputs: Seq<Seq<char>>,
    outputs: Seq<Seq<char>>,
    refs: Seq<Seq<char>>,
    locs: Seq<FileSystemLocation>,
    cwd: Option<Seq<char>>,
    require: bool,
    exists: Seq<bool>,
    is_dir: Seq<bool>,
) -> bool {
    let t = triage_inputs(inputs, locs, cwd, require, exists, is_dir);
    if require && (t.missing.len() > 0 || t.directories.len() > 0) {
        &&& r matches Err(PathGroupingError::MisconfiguredInputs { message, missing, directories })
        &&& message@ == misconfigured_message()
        &&& strs(missing@) == t.missing
        &&& strs(directories@) == t.directories
    } else {
        &&& r matches Ok(res)
        &&& strs(res.demoted_to_references@) == t.demoted
        &&& strs(res.skipped_shared@) == t.skipped
        &&& grouping_ok(res.groups@, grouping_model(t.valid, outputs, refs + t.demoted, locs, cwd))
    }
}

struct Triage {
    valid: Vec<String>,
    missing: Vec<String>,
    directories: Vec<String>,
    demoted: Vec<String>,
    skipped: Vec<String>,
}

spec fn triage_view(t: Triage) -> InputTriage {
    InputTriage {
        valid: strs(t.valid@),
        missing: strs(t.missing@),
        directories: strs(t.directories@),
        demoted: strs(t.demoted@),
        skipped: strs(t.skipped@),
    }
}

/// Group paths with validation and error handling, given the disk's
/// answers for each input: whether the path `input_check_path` gives for
/// it exists (`exists`) and whether it is a directory (`is_dir`); answers
/// for inputs under a SHARED location are not read, nor `is_dir` for a
/// path that does not exist.
///
/// Each input path is normalized; one under a SHARED location is recorded
/// as skipped; one that does not exist is an error when
/// `validation.require_paths_exist` holds and is otherwise demoted to a
/// referenced path; a directory is an error. With errors under strict
/// validation the result is `MisconfiguredInputs`; otherwise the valid
/// inputs, the outputs and the references (with the demoted paths appended)
/// are grouped as `group_asset_paths` does.
pub fn group_asset_paths_validated_with(
    input_paths: &Vec<String>,
    output_paths: &Vec<String>,
    referenced_paths: &Vec<String>,
    storage_profile: Option<&StorageProfile>,
    validation: PathValidationMode,
    cwd: Option<&str>,
    exists: &Vec<bool>,
    is_dir: &Vec<bool>,
) -> (r: Result<PathGroupingResult, PathGroupingError>)
    requires
        exists.len() == input_paths.len(),
        is_dir.len() == input_paths.len(),
    ensures
        validated_ok(
            r,
            strs(input_paths@),
            strs(output_paths@),
            strs(referenced_paths@),
            profile_locations(storage_profile),
            opt_str_text(cwd),
            validation.require_paths_exist,
            exists@,
            is_dir@,
        ),
{
    let ghost ps = strs(input_paths@);
    let ghost locs = profile_locations(storage_profile);
    let ghost cw = opt_str_text(cwd);
    let require = validation.require_paths_exist;
    let mut t = Triage {
        valid: Vec::new(),
        missing: Vec::new(),
        directories: Vec::new(),
        demoted: Vec::new(),
        skipped: Vec::new(),
    };
    let mut augmented_references = copy_strings(referenced_paths);
    let mut i: usize = 0;
    proof {
        assert(ps.subrange(0, 0) =~= Seq::<Seq<char>>::empty());
        assert(triage_view(t) =~= triage_inputs(Seq::empty(), locs, cw, require, exists@, is_dir@));
        assert(strs(augmented_references@) =~= strs(referenced_paths@) + triage_view(t).demoted);
    }
    while i < input_paths.len()
        invariant
            i <= input_paths.len(),
            ps == strs(input_paths@),
            locs == profile_locations(storage_profile),
            cw == opt_str_text(cwd),
            require == validation.require_paths_exist,
            exists.len() == input_paths.len(),
            is_dir.len() == input_paths.len(),
            triage_view(t) == triage_inputs(ps.subrange(0, i as int), locs, cw, require, exists@, is_dir@),
            strs(augmented_references@) == strs(referenced_paths@) + triage_view(t).demoted,
        decreases input_paths.len() - i,
    {
        let ghost t0 = triage_view(t);
        let np = normalize_path(input_paths[i].as_str(), cwd);
        if is_under_shared(np.as_str(), storage_profile) {
            proof {
                lemma_strs_push(t.skipped@, np);
            }
            t.skipped.push(np);
        } else {
            if !exists[i] {
                if require {
                    proof {
                        lemma_strs_push(t.missing@, np);
                    }
                    t.missing.push(np);
                } else {
                    let c = own(np.as_str());
                    proof {
                        lemma_strs_push(t.demoted@, np);
                        lemma_strs_push(augmented_references@, c);
                    }
                    t.demoted.push(np);
                    augmented_references.push(c);
                }
            } else {
                if is_dir[i] {
                    proof {
                        lemma_strs_push(t.directories@, np);
                    }
                    t.directories.push(np);
                } else {
                    proof {
                        lemma_strs_push(t.valid@, np);
                    }
                    t.valid.push(np);
                }
            }
        }
        proof {
            let s = ps.subrange(0, i + 1);
            assert(s.drop_last() =~= ps.subrange(0, i as int));
            assert(s.last() == input_paths@[i as int]@);
            assert(triage_view(t) =~= triage_inputs(s, locs, cw, require, exists@, is_dir@));
        }
        i = i + 1;
    }
    assert(ps.subrange(0, i as int) =~= ps);
    if require && (t.missing.len() > 0 || t.directories.len() > 0) {
        let message = own("Job submission contains missing input files or directories specified as files.");
        let r = Err(
            PathGroupingError::MisconfiguredInputs {
                message,
                missing: t.missing,
                directories: t.directories,
            },
        );
        assert(validated_ok(
            r,
            ps,
            strs(output_paths@),
            strs(referenced_paths@),
            locs,
            cw,
            require,
            exists@,
            is_dir@,
        ));
        return r;
    }
    let groups = group_asset_paths(
        &t.valid,
        output_paths,
        &augmented_references,
        storage_profile,
        cwd,
    );
    let r = Ok(
        PathGroupingResult {
            groups,
            demoted_to_references: t.demoted,
            skipped_shared: t.skipped,
        },
    );
    assert(validated_ok(
        r,
        ps,
        strs(output_paths@),
        strs(referenced_paths@),
        locs,
        cw,
        require,
        exists@,
        is_dir@,
    ));
    r
}

/// The path the disk is asked about for an input: its normalized form, or
/// `None` when it lies under a SHARED location (it is then skipped, and
/// nothing is asked).
pub fn input_check_path(input: &str, storage_profile: Option<&StorageProfile>, cwd: Option<&str>) -> (r:
    Option<String>)
    ensures
        match r {
            Some(np) => np@ == normalized_path(input@, opt_str_text(cwd)) && !under_location(
                profile_locations(storage_profile),
                FileSystemLocationType::Shared,
                np@,
            ),
            None => under_location(
                profile_locations(storage_profile),
                FileSystemLocationType::Shared,
                normalized_path(input@, opt_str_text(cwd)),
            ),
        },
{
    let np = normalize_path(input, cwd);
    if is_under_shared(np.as_str(), storage_profile) {
        None
    } else {
        Some(np)
    }
}

/// Group paths with validation and error handling.
///
/// Each input path is normalized; one under a SHARED location is recorded
/// as skipped; one that does not exist is an error when
/// `validation.require_paths_exist` holds and is otherwise demoted to a
/// referenced path; a directory is an error. With errors under strict
/// validation the result is `MisconfiguredInputs`; otherwise the valid
/// inputs, the outputs and the references (with the demoted paths appended)
/// are grouped as `group_asset_paths` does. The disk is asked about the
/// paths `input_check_path` gives, and `group_asset_paths_validated_with`
/// decides from the answers.
pub fn group_asset_paths_validated(
    input_paths: &Vec<String>,
    output_paths: &Vec<String>,
    referenced_paths: &Vec<String>,
    storage_profile: Option<&StorageProfile>,
    validation: PathValidationMode,
    cwd: Option<&str>,
) -> (r: Result<PathGroupingResult, PathGroupingError>)
    ensures
        exists|exists: Seq<bool>, is_dir: Seq<bool>|
            {
                &&& exists.len() == input_paths@.len()
                &&& is_dir.len() == input_paths@.len()
                &&& validated_ok(
                    r,
                    strs(input_paths@),
                    strs(output_paths@),
                    strs(referenced_paths@),
                    profile_locations(storage_profile),
                    opt_str_text(cwd),
                    validation.require_paths_exist,
                    exists,
                    is_dir,
                )
            },
{
    let mut exists: Vec<bool> = Vec::new();
    let mut is_dir: Vec<bool> = Vec::new();
    let mut i: usize = 0;
    while i < input_paths.len()
        invariant
            i <= input_paths.len(),
            exists.len() == i,
            is_dir.len() == i,
        decreases input_paths.len() - i,
    {
        match input_check_path(input_paths[i].as_str(), storage_profile, cwd) {
            Some(np) => {
                let e = path_exists(np.as_str());
                let d = if e {
                    path_is_dir(np.as_str())
                } else {
                    false
                };
                exists.push(e);
                is_dir.push(d);
            },
            None => {
                exists.push(true);
                is_dir.push(false);
            },
        }
        i = i + 1;
    }
    let r = group_asset_paths_validated_with(
        input_paths,
        output_paths,
        referenced_paths,
        storage_profile,
        validation,
        cwd,
        &exists,
        &is_dir,
    );
    assert(exists@.len() == input_paths@.len() && is_dir@.len() == input_paths@.len());
    r
}

// ---------------------------------------------------------------------------
// Laws of grouping
// ---------------------------------------------------------------------------

/// The members of one role.
pub open spec fn role_members(g: GroupModel, role: PathRole) -> Seq<Seq<char>> {
    match role {
        PathRole::Input => g.inputs,
        PathRole::Output => g.outputs,
        PathRole::Reference => g.refs,
    }
}

/// Keys are distinct; every member lies under no SHARED location and has
/// the key of its group; no member list holds a path twice.
pub open spec fn model_wf(gs: Seq<GroupModel>, locs: Seq<FileSystemLocation>) -> bool {
    &&& forall|i: int, j: int| 0 <= i < j < gs.len() ==> #[trigger] gs[i].key != #[trigger] gs[j].key
    &&& forall|j: int, role: PathRole, x: Seq<char>|
        0 <= j < gs.len() && #[trigger] role_members(gs[j], role).contains(x) ==> {
            &&& !under_location(locs, FileSystemLocationType::Shared, x)
            &&& location_key(locs, x) == gs[j].key
        }
    &&& forall|j: int, role: PathRole| 0 <= j < gs.len() ==> #[trigger] role_members(gs[j], role).no_duplicates()
}

/// Every member of `a` is still a member of the group at the same place in
/// `b`.
pub open spec fn members_kept(a: Seq<GroupModel>, b: Seq<GroupModel>) -> bool {
    &&& a.len() <= b.len()
    &&& forall|j: int| 0 <= j < a.len() ==> (#[trigger] b[j]).key == a[j].key
    &&& forall|j: int, role: PathRole, x: Seq<char>|
        0 <= j < a.len() && #[trigger] role_members(a[j], role).contains(x) ==> role_members(
            b[j],
            role,
        ).contains(x)
}

proof fn lemma_key_index(gs: Seq<GroupModel>, key: Seq<char>)
    ensures
        -1 <= key_index(gs, key) < gs.len(),
        key_index(gs, key) >= 0 ==> gs[key_index(gs, key)].key == key,
        key_index(gs, key) == -1 ==> forall|j: int| 0 <= j < gs.len() ==> gs[j].key != key,
    decreases gs.len(),
{
    if gs.len() > 0 && gs.last().key != key {
        lemma_key_index(gs.drop_last(), key);
        assert forall|j: int| 0 <= j < gs.len() - 1 implies gs[j] == gs.drop_last()[j] by {}
    }
}

proof fn lemma_add_unique(s: Seq<Seq<char>>, p: Seq<char>)
    requires
        s.no_duplicates(),
    ensures
        add_unique(s, p).no_duplicates(),
        add_unique(s, p).contains(p),
        forall|x: Seq<char>| #[trigger] add_unique(s, p).contains(x) <==> s.contains(x) || x == p,
{
    if !s.contains(p) {
        let t = s.push(p);
        assert(t[t.len() - 1] == p);
        assert forall|x: Seq<char>| #[trigger] t.contains(x) <==> s.contains(x) || x == p by {
            if t.contains(x) {
                let i = choose|i: int| 0 <= i < t.len() && t[i] == x;
                if i < s.len() {
                    assert(s[i] == x);
                }
            }
            if s.contains(x) {
                let i = choose|i: int| 0 <= i < s.len() && s[i] == x;
                assert(t[i] == x);
            }
        }
        assert forall|i: int, j: int| 0 <= i < t.len() && 0 <= j < t.len() && i != j implies t[i]
            != t[j] by {
            if i == s.len() as int {
                assert(s[j] == t[j]);
            } else if j == s.len() as int {
                assert(s[i] == t[i]);
            }
        }
    }
}

proof fn lemma_add_member(g: GroupModel, role: PathRole, p: Seq<char>)
    requires
        forall|r: PathRole| #[trigger] role_members(g, r).no_duplicates(),
    ensures
        add_member(g, role, p).key == g.key,
        add_member(g, role, p).name == g.name,
        forall|r: PathRole| #[trigger] role_members(add_member(g, role, p), r).no_duplicates(),
        role_members(add_member(g, role, p), role).contains(p),
        forall|r: PathRole, x: Seq<char>|
            #[trigger] role_members(add_member(g, role, p), r).contains(x) <==> role_members(
                g,
                r,
            ).contains(x) || (r == role && x == p),
{
    lemma_add_unique(role_members(g, role), p);
    assert(role_members(g, PathRole::Input).no_duplicates());
    assert(role_members(g, PathRole::Output).no_duplicates());
    assert(role_members(g, PathRole::Reference).no_duplicates());
}

proof fn lemma_place_path(
    gs: Seq<GroupModel>,
    role: PathRole,
    p: Seq<char>,
    locs: Seq<FileSystemLocation>,
)
    requires
        model_wf(gs, locs),
        !under_location(locs, FileSystemLocationType::Shared, p),
    ensures
        model_wf(place_path(gs, role, p, location_key(locs, p), location_name(locs, p)), locs),
        members_kept(gs, place_path(gs, role, p, location_key(locs, p), location_name(locs, p))),
        exists|j: int|
            0 <= j < place_path(gs, role, p, location_key(locs, p), location_name(locs, p)).len()
                && #[trigger] role_members(
                place_path(gs, role, p, location_key(locs, p), location_name(locs, p))[j],
                role,
            ).contains(p),
{
    let key = location_key(locs, p);
    let name = location_name(locs, p);
    let r = place_path(gs, role, p, key, name);
    lemma_key_index(gs, key);
    let k = key_index(gs, key);
    if k >= 0 {
        let g = gs[k];
        assert(forall|rr: PathRole| #[trigger] role_members(g, rr).no_duplicates());
        lemma_add_member(g, role, p);
        assert(r[k] == add_member(g, role, p));
        assert forall|i: int, j: int| 0 <= i < j < r.len() implies #[trigger] r[i].key
            != #[trigger] r[j].key by {
            assert(gs[i].key != gs[j].key);
        }
        assert forall|j: int, rl: PathRole, x: Seq<char>|
            0 <= j < r.len() && #[trigger] role_members(r[j], rl).contains(x) implies {
            &&& !under_location(locs, FileSystemLocationType::Shared, x)
            &&& location_key(locs, x) == r[j].key
        } by {
            if j == k {
                if !(rl == role && x == p) {
                    assert(role_members(g, rl).contains(x));
                }
            } else {
                assert(r[j] == gs[j]);
            }
        }
        assert forall|j: int, rl: PathRole| 0 <= j < r.len() implies #[trigger] role_members(
            r[j],
            rl,
        ).no_duplicates() by {
            if j != k {
                assert(r[j] == gs[j]);
            }
        }
        assert forall|j: int, rl: PathRole, x: Seq<char>|
            0 <= j < gs.len() && #[trigger] role_members(gs[j], rl).contains(x) implies role_members(
            r[j],
            rl,
        ).contains(x) by {
            if j == k {
                assert(role_members(add_member(g, role, p), rl).contains(x));
            }
        }
        assert(role_members(r[k], role).contains(p));
    } else {
        let fresh = GroupModel {
            key,
            name,
            inputs: Seq::empty(),
            outputs: Seq::empty(),
            refs: Seq::empty(),
        };
        assert forall|rr: PathRole| #[trigger] role_members(fresh, rr).no_duplicates() by {
            assert(role_members(fresh, rr) =~= Seq::<Seq<char>>::empty());
        }
        lemma_add_member(fresh, role, p);
        let n = gs.len() as int;
        assert(r[n] == add_member(fresh, role, p));
        assert forall|i: int, j: int| 0 <= i < j < r.len() implies #[trigger] r[i].key
            != #[trigger] r[j].key by {
            if j < n {
                assert(gs[i].key != gs[j].key);
            } else {
                assert(r[i] == gs[i]);
            }
        }
        assert forall|j: int, rl: PathRole, x: Seq<char>|
            0 <= j < r.len() && #[trigger] role_members(r[j], rl).contains(x) implies {
            &&& !under_location(locs, FileSystemLocationType::Shared, x)
            &&& location_key(locs, x) == r[j].key
        } by {
            if j == n {
                if !(rl == role && x == p) {
                    assert(role_members(fresh, rl) =~= Seq::<Seq<char>>::empty());
                    assert(role_members(fresh, rl).contains(x));
                }
            } else {
                assert(r[j] == gs[j]);
            }
        }
        assert forall|j: int, rl: PathRole| 0 <= j < r.len() implies #[trigger] role_members(
            r[j],
            rl,
        ).no_duplicates() by {
            if j != n {
                assert(r[j] == gs[j]);
            }
        }
        assert forall|j: int| 0 <= j < gs.len() implies (#[trigger] r[j]).key == gs[j].key by {
            assert(r[j] == gs[j]);
        }
        assert forall|j: int, rl: PathRole, x: Seq<char>|
            0 <= j < gs.len() && #[trigger] role_members(gs[j], rl).contains(x) implies role_members(
            r[j],
            rl,
        ).contains(x) by {
            assert(r[j] == gs[j]);
        }
        assert(role_members(r[n], role).contains(p));
    }
}

proof fn lemma_members_kept_trans(a: Seq<GroupModel>, b: Seq<GroupModel>, c: Seq<GroupModel>)
    requires
        members_kept(a, b),
        members_kept(b, c),
    ensures
        members_kept(a, c),
{
    assert forall|j: int, role: PathRole, x: Seq<char>|
        0 <= j < a.len() && #[trigger] role_members(a[j], role).contains(x) implies role_members(
        c[j],
        role,
    ).contains(x) by {
        assert(role_members(b[j], role).contains(x));
    }
    assert forall|j: int| 0 <= j < a.len() implies (#[trigger] c[j]).key == a[j].key by {
        assert(b[j].key == a[j].key);
    }
}

/// Placing paths keeps the model well formed, keeps every member, and puts
/// every path not under a SHARED location into some group's members of
/// the role.
proof fn lemma_place_all(
    gs: Seq<GroupModel>,
    role: PathRole,
    paths: Seq<Seq<char>>,
    locs: Seq<FileSystemLocation>,
    cwd: Option<Seq<char>>,
)
    requires
        model_wf(gs, locs),
    ensures
        model_wf(place_all(gs, role, paths, locs, cwd), locs),
        members_kept(gs, place_all(gs, role, paths, locs, cwd)),
        forall|i: int|
            0 <= i < paths.len() && !under_location(
                locs,
                FileSystemLocationType::Shared,
                #[trigger] normalized_path(paths[i], cwd),
            ) ==> exists|j: int|
                0 <= j < place_all(gs, role, paths, locs, cwd).len() && role_members(
                    place_all(gs, role, paths, locs, cwd)[j],
                    role,
                ).contains(normalized_path(paths[i], cwd)),
    decreases paths.len(),
{
    let r = place_all(gs, role, paths, locs, cwd);
    if paths.len() == 0 {
        assert(members_kept(gs, r));
    } else {
        let prev_paths = paths.drop_last();
        lemma_place_all(gs, role, prev_paths, locs, cwd);
        let prev = place_all(gs, role, prev_paths, locs, cwd);
        let np = normalized_path(paths.last(), cwd);
        if !under_location(locs, FileSystemLocationType::Shared, np) {
            lemma_place_path(prev, role, np, locs);
            lemma_members_kept_trans(gs, prev, r);
        } else {
            assert(members_kept(prev, r));
        }
        assert(members_kept(prev, r));
        assert forall|i: int|
            0 <= i < paths.len() && !under_location(
                locs,
                FileSystemLocationType::Shared,
                #[trigger] normalized_path(paths[i], cwd),
            ) implies exists|j: int|
            0 <= j < r.len() && role_members(r[j], role).contains(normalized_path(paths[i], cwd)) by {
            let x = normalized_path(paths[i], cwd);
            if i < paths.len() - 1 {
                assert(prev_paths[i] == paths[i]);
                let j = choose|j: int| 0 <= j < prev.len() && role_members(prev[j], role).contains(x);
                assert(role_members(r[j], role).contains(x));
            } else {
                let j = choose|j: int| 0 <= j < r.len() && #[trigger] role_members(r[j], role).contains(x);
            }
        }
    }
}

/// The law of grouping: group keys are distinct; every path that is not
/// under a SHARED location lands, normalized, in the members of its role of
/// exactly one group (the one whose key is its location key); no group
/// holds a path under a SHARED location; and no member list holds a path
/// twice.
pub proof fn lemma_grouping_partition(
    inputs: Seq<Seq<char>>,
    outputs: Seq<Seq<char>>,
    refs: Seq<Seq<char>>,
    locs: Seq<FileSystemLocation>,
    cwd: Option<Seq<char>>,
)
    ensures
        model_wf(grouping_model(inputs, outputs, refs, locs, cwd), locs),
        forall|i: int|
            0 <= i < inputs.len() && !under_location(
                locs,
                FileSystemLocationType::Shared,
                #[trigger] normalized_path(inputs[i], cwd),
            ) ==> exists|j: int|
                0 <= j < grouping_model(inputs, outputs, refs, locs, cwd).len() && grouping_model(
                    inputs,
                    outputs,
                    refs,
                    locs,
                    cwd,
                )[j].inputs.contains(normalized_path(inputs[i], cwd)),
        forall|i: int|
            0 <= i < outputs.len() && !under_location(
                locs,
                FileSystemLocationType::Shared,
                #[trigger] normalized_path(outputs[i], cwd),
            ) ==> exists|j: int|
                0 <= j < grouping_model(inputs, outputs, refs, locs, cwd).len() && grouping_model(
                    inputs,
                    outputs,
                    refs,
                    locs,
                    cwd,
                )[j].outputs.contains(normalized_path(outputs[i], cwd)),
        forall|i: int|
            0 <= i < refs.len() && !under_location(
                locs,
                FileSystemLocationType::Shared,
                #[trigger] normalized_path(refs[i], cwd),
            ) ==> exists|j: int|
                0 <= j < grouping_model(inputs, outputs, refs, locs, cwd).len() && grouping_model(
                    inputs,
                    outputs,
                    refs,
                    locs,
                    cwd,
                )[j].refs.contains(normalized_path(refs[i], cwd)),
{
    let m0 = Seq::<GroupModel>::empty();
    let a = place_all(m0, PathRole::Input, inputs, locs, cwd);
    let b = place_all(a, PathRole::Output, outputs, locs, cwd);
    let c = place_all(b, PathRole::Reference, refs, locs, cwd);
    lemma_place_all(m0, PathRole::Input, inputs, locs, cwd);
    lemma_place_all(a, PathRole::Output, outputs, locs, cwd);
    lemma_place_all(b, PathRole::Reference, refs, locs, cwd);
    lemma_members_kept_trans(a, b, c);
    assert forall|i: int|
        0 <= i < inputs.len() && !under_location(
            locs,
            FileSystemLocationType::Shared,
            #[trigger] normalized_path(inputs[i], cwd),
        ) implies exists|j: int| 0 <= j < c.len() && c[j].inputs.contains(normalized_path(inputs[i], cwd)) by {
        let x = normalized_path(inputs[i], cwd);
        let j = choose|j: int| 0 <= j < a.len() && role_members(a[j], PathRole::Input).contains(x);
        assert(role_members(c[j], PathRole::Input).contains(x));
    }
    assert forall|i: int|
        0 <= i < outputs.len() && !under_location(
            locs,
            FileSystemLocationType::Shared,
            #[trigger] normalized_path(outputs[i], cwd),
        ) implies exists|j: int| 0 <= j < c.len() && c[j].outputs.contains(normalized_path(outputs[i], cwd)) by {
        let x = normalized_path(outputs[i], cwd);
        let j = choose|j: int| 0 <= j < b.len() && role_members(b[j], PathRole::Output).contains(x);
        assert(role_members(c[j], PathRole::Output).contains(x));
    }
    assert forall|i: int|
        0 <= i < refs.len() && !under_location(
            locs,
            FileSystemLocationType::Shared,
            #[trigger] normalized_path(refs[i], cwd),
        ) implies exists|j: int| 0 <= j < c.len() && c[j].refs.contains(normalized_path(refs[i], cwd)) by {
        let x = normalized_path(refs[i], cwd);
        let j = choose|j: int| 0 <= j < c.len() && role_members(c[j], PathRole::Reference).contains(x);
    }
}

} // verus!
