//! Path normalization utilities for manifest operations.
//!
//! Paths are handled as POSIX text. Every routine here follows the model in
//! `path_model`: it parses the text into components the way
//! `Path::components` does and rebuilds text the way `PathBuf::push` does.

use vstd::prelude::*;

use crate::error::PathError;
use crate::path_model::{
    comp_text, components, comps_prefix, dot, dot_dot, join_comps, lemma_join_push,
    lemma_normalize_push, lemma_segs_comps_push, lemma_split_push, lexically_normalized,
    normalize_comps, path_starts_with_spec, push_text, seg_comp, segs_comps, split_slash, Comp,
};
use crate::text::{append_chars, chars_eq, chars_of, copy_chars, own, string_of};

verus! {

/// An executable path component.
pub enum PathComponent {
    RootDir,
    CurDir,
    ParentDir,
    Normal(Vec<char>),
}

impl View for PathComponent {
    type V = Comp;

    open spec fn view(&self) -> Comp {
        match self {
            PathComponent::RootDir => Comp::Root,
            PathComponent::CurDir => Comp::Cur,
            PathComponent::ParentDir => Comp::Parent,
            PathComponent::Normal(t) => Comp::Normal(t@),
        }
    }
}

pub open spec fn comps_view(v: Seq<PathComponent>) -> Seq<Comp> {
    Seq::new(v.len(), |i: int| v[i]@)
}

pub proof fn lemma_comps_view_push(v: Seq<PathComponent>, c: PathComponent)
    ensures
        comps_view(v.push(c)) == comps_view(v).push(c@),
{
    assert(comps_view(v.push(c)) =~= comps_view(v).push(c@));
}

pub proof fn lemma_comps_view_drop_last(v: Seq<PathComponent>)
    requires
        v.len() > 0,
    ensures
        comps_view(v.drop_last()) == comps_view(v).drop_last(),
        comps_view(v).last() == v.last()@,
{
    assert(comps_view(v.drop_last()) =~= comps_view(v).drop_last());
}

pub proof fn lemma_comps_view_append(a: Seq<PathComponent>, b: Seq<PathComponent>)
    ensures
        comps_view(a + b) == comps_view(a) + comps_view(b),
{
    assert(comps_view(a + b) =~= comps_view(a) + comps_view(b));
}

/// A copy of a component.
pub fn copy_component(c: &PathComponent) -> (r: PathComponent)
    ensures
        r@ == c@,
{
    match c {
        PathComponent::RootDir => PathComponent::RootDir,
        PathComponent::CurDir => PathComponent::CurDir,
        PathComponent::ParentDir => PathComponent::ParentDir,
        PathComponent::Normal(t) => PathComponent::Normal(copy_chars(t)),
    }
}

/// Whether two components are the same.
pub fn component_eq(a: &PathComponent, b: &PathComponent) -> (r: bool)
    ensures
        r == (a@ == b@),
{
    match (a, b) {
        (PathComponent::RootDir, PathComponent::RootDir) => true,
        (PathComponent::CurDir, PathComponent::CurDir) => true,
        (PathComponent::ParentDir, PathComponent::ParentDir) => true,
        (PathComponent::Normal(x), PathComponent::Normal(y)) => chars_eq(x, y),
        _ => false,
    }
}

fn is_dot(seg: &Vec<char>) -> (r: bool)
    ensures
        r == (seg@ == dot()),
{
    let r = seg.len() == 1 && seg[0] == '.';
    proof {
        if r {
            assert(seg@ =~= dot());
        }
    }
    r
}

/// The component a segment contributes, if any.
fn segment_component(seg: Vec<char>) -> (r: Option<PathComponent>)
    ensures
        match r {
            None => seg_comp(seg@) == Seq::<Comp>::empty(),
            Some(c) => seg_comp(seg@) == seq![c@],
        },
{
    if seg.len() == 0 || is_dot(&seg) {
        None
    } else if seg.len() == 2 && seg[0] == '.' && seg[1] == '.' {
        assert(seg@ =~= dot_dot());
        Some(PathComponent::ParentDir)
    } else {
        assert(seg@ != dot_dot()) by {
            if seg@ == dot_dot() {
                assert(seg@[0] == '.' && seg@[1] == '.');
            }
        }
        Some(PathComponent::Normal(seg))
    }
}

/// Parses path text into components (what `Path::components` yields).
pub fn parse_components(s: &Vec<char>) -> (r: Vec<PathComponent>)
    ensures
        comps_view(r@) == components(s@),
{
    let n = s.len();
    let mut body: Vec<PathComponent> = Vec::new();
    let mut cur: Vec<char> = Vec::new();
    let ghost mut done: Seq<Seq<char>> = Seq::empty();
    let mut first_done = false;
    let mut first_dot = false;
    let mut i: usize = 0;
    assert(s@.subrange(0, 0) =~= Seq::<char>::empty());
    assert(Seq::<Seq<char>>::empty().push(Seq::<char>::empty()) =~= seq![Seq::<char>::empty()]);
    while i < n
        invariant
            n == s.len(),
            i <= n,
            split_slash(s@.subrange(0, i as int)) == done.push(cur@),
            comps_view(body@) == segs_comps(done),
            first_done == (done.len() > 0),
            first_done ==> first_dot == (done[0] == dot()),
        decreases n - i,
    {
        let ch = s[i];
        proof {
            assert(s@.subrange(0, i + 1) =~= s@.subrange(0, i as int).push(ch));
            lemma_split_push(s@.subrange(0, i as int), ch);
        }
        if ch == '/' {
            let ghost seg = cur@;
            if !first_done {
                first_dot = is_dot(&cur);
                first_done = true;
            }
            let taken = cur;
            cur = Vec::new();
            let c = segment_component(taken);
            proof {
                lemma_segs_comps_push(done, seg);
            }
            match c {
                Some(c) => {
                    let ghost before = body@;
                    body.push(c);
                    proof {
                        lemma_comps_view_push(before, c);
                        assert(comps_view(body@) =~= segs_comps(done) + seg_comp(seg));
                    }
                },
                None => {
                    assert(segs_comps(done) + seg_comp(seg) =~= segs_comps(done));
                },
            }
            proof {
                assert(done.push(seg)[0] == (if done.len() > 0 { done[0] } else { seg }));
                done = done.push(seg);
            }
        } else {
            let ghost old_cur = cur@;
            cur.push(ch);
            proof {
                let d = done.push(old_cur);
                assert(d.update(d.len() - 1, d.last().push(ch)) =~= done.push(cur@));
            }
        }
        i = i + 1;
    }
    assert(s@.subrange(0, n as int) =~= s@);
    let ghost segs = done.push(cur@);
    let lead_dot = if first_done { first_dot } else { is_dot(&cur) };
    assert(lead_dot == (segs[0] == dot()));
    let ghost last_seg = cur@;
    let c = segment_component(cur);
    proof {
        lemma_segs_comps_push(done, last_seg);
    }
    match c {
        Some(c) => {
            let ghost before = body@;
            body.push(c);
            proof {
                lemma_comps_view_push(before, c);
                assert(comps_view(body@) =~= segs_comps(done) + seg_comp(last_seg));
            }
        },
        None => {
            assert(segs_comps(done) + seg_comp(last_seg) =~= segs_comps(done));
        },
    }
    assert(comps_view(body@) == segs_comps(split_slash(s@)));
    let mut r: Vec<PathComponent> = Vec::new();
    if n > 0 && s[0] == '/' {
        r.push(PathComponent::RootDir);
    } else if lead_dot {
        r.push(PathComponent::CurDir);
    }
    let ghost head = r@;
    let ghost tail = body@;
    r.append(&mut body);
    proof {
        lemma_comps_view_append(head, tail);
    }
    assert(comps_view(r@) =~= components(s@));
    r
}

/// The text of one component.
pub fn component_text(c: &PathComponent) -> (r: Vec<char>)
    ensures
        r@ == comp_text(c@),
{
    match c {
        PathComponent::RootDir => {
            let mut v = Vec::new();
            v.push('/');
            assert(v@ =~= seq!['/']);
            v
        },
        PathComponent::CurDir => {
            let mut v = Vec::new();
            v.push('.');
            assert(v@ =~= dot());
            v
        },
        PathComponent::ParentDir => {
            let mut v = Vec::new();
            v.push('.');
            v.push('.');
            assert(v@ =~= dot_dot());
            v
        },
        PathComponent::Normal(t) => copy_chars(t),
    }
}

/// Appends `t` to `p` as `PathBuf::push` does.
pub fn push_path_text(p: &mut Vec<char>, t: &Vec<char>)
    ensures
        final(p)@ == push_text(old(p)@, t@),
{
    if t.len() > 0 && t[0] == '/' {
        p.clear();
        append_chars(p, t);
        assert(p@ =~= t@);
    } else if p.len() == 0 || p[p.len() - 1] == '/' {
        append_chars(p, t);
    } else {
        p.push('/');
        append_chars(p, t);
    }
}

/// The text of collected components (what collecting into a `PathBuf` gives).
pub fn join_components(cs: &Vec<PathComponent>) -> (r: Vec<char>)
    ensures
        r@ == join_comps(comps_view(cs@)),
{
    let mut r: Vec<char> = Vec::new();
    let mut i: usize = 0;
    assert(comps_view(cs@.subrange(0, 0)) =~= Seq::<Comp>::empty());
    while i < cs.len()
        invariant
            i <= cs.len(),
            r@ == join_comps(comps_view(cs@.subrange(0, i as int))),
        decreases cs.len() - i,
    {
        let t = component_text(&cs[i]);
        push_path_text(&mut r, &t);
        proof {
            assert(cs@.subrange(0, i + 1) =~= cs@.subrange(0, i as int).push(cs@[i as int]));
            lemma_comps_view_push(cs@.subrange(0, i as int), cs@[i as int]);
            lemma_join_push(comps_view(cs@.subrange(0, i as int)), cs@[i as int]@);
        }
        i = i + 1;
    }
    assert(cs@.subrange(0, i as int) =~= cs@);
    r
}

/// Lexical normalization of a component list.
pub fn normalize_components(cs: &Vec<PathComponent>) -> (r: Vec<PathComponent>)
    ensures
        comps_view(r@) == normalize_comps(comps_view(cs@)),
{
    let mut out: Vec<PathComponent> = Vec::new();
    let mut i: usize = 0;
    assert(comps_view(cs@.subrange(0, 0)) =~= Seq::<Comp>::empty());
    assert(comps_view(out@) =~= Seq::<Comp>::empty());
    while i < cs.len()
        invariant
            i <= cs.len(),
            comps_view(out@) == normalize_comps(comps_view(cs@.subrange(0, i as int))),
        decreases cs.len() - i,
    {
        let ghost before = out@;
        proof {
            assert(cs@.subrange(0, i + 1) =~= cs@.subrange(0, i as int).push(cs@[i as int]));
            lemma_comps_view_push(cs@.subrange(0, i as int), cs@[i as int]);
            lemma_normalize_push(comps_view(cs@.subrange(0, i as int)), cs@[i as int]@);
        }
        match &cs[i] {
            PathComponent::CurDir => {},
            PathComponent::ParentDir => {
                let n = out.len();
                let can_pop = n > 0 && match &out[n - 1] {
                    PathComponent::ParentDir => false,
                    PathComponent::RootDir => false,
                    _ => true,
                };
                if can_pop {
                    proof {
                        lemma_comps_view_drop_last(before);
                    }
                    out.pop();
                    assert(out@ =~= before.drop_last());
                } else {
                    proof {
                        if n > 0 {
                            lemma_comps_view_drop_last(before);
                        }
                    }
                    out.push(PathComponent::ParentDir);
                    proof {
                        lemma_comps_view_push(before, PathComponent::ParentDir);
                    }
                }
            },
            c => {
                let cc = copy_component(c);
                out.push(cc);
                proof {
                    lemma_comps_view_push(before, cc);
                }
            },
        }
        i = i + 1;
    }
    assert(cs@.subrange(0, i as int) =~= cs@);
    out
}

/// Lexical path normalization without filesystem access.
///
/// Removes `.` components and resolves `..` components lexically: a `..`
/// removes the name before it, and is kept when there is none (after the
/// root, or after other `..`). Does not access the filesystem or resolve
/// symlinks.
pub fn lexical_normalize(path: &str) -> (r: String)
    ensures
        r@ == lexically_normalized(path@),
{
    let chars = chars_of(path);
    let comps = parse_components(&chars);
    let norm = normalize_components(&comps);
    let text = join_components(&norm);
    string_of(&text)
}

/// Whether `base`'s components are a prefix of `p`'s.
pub fn components_prefix(base: &Vec<PathComponent>, p: &Vec<PathComponent>) -> (r: bool)
    ensures
        r == comps_prefix(comps_view(base@), comps_view(p@)),
{
    if base.len() > p.len() {
        return false;
    }
    let mut i: usize = 0;
    while i < base.len()
        invariant
            base.len() <= p.len(),
            i <= base.len(),
            comps_view(p@).subrange(0, i as int) == comps_view(base@).subrange(0, i as int),
        decreases base.len() - i,
    {
        if !component_eq(&base[i], &p[i]) {
            assert(comps_view(p@)[i as int] != comps_view(base@)[i as int]);
            assert(comps_view(p@).subrange(0, base.len() as int)[i as int] == comps_view(
                p@,
            )[i as int]);
            return false;
        }
        assert(comps_view(p@).subrange(0, i + 1) =~= comps_view(p@).subrange(0, i as int).push(
            comps_view(p@)[i as int],
        ));
        assert(comps_view(base@).subrange(0, i + 1) =~= comps_view(base@).subrange(
            0,
            i as int,
        ).push(comps_view(base@)[i as int]));
        i = i + 1;
    }
    assert(comps_view(base@).subrange(0, i as int) =~= comps_view(base@));
    true
}

/// Component-wise prefix test on path text (what `Path::starts_with` does).
pub fn path_starts_with(p: &str, base: &str) -> (r: bool)
    ensures
        r == path_starts_with_spec(p@, base@),
{
    let pc = parse_components(&chars_of(p));
    let bc = parse_components(&chars_of(base));
    components_prefix(&bc, &pc)
}

/// Check if a path is within a root directory (security validation).
///
/// Uses lexical comparison, does not access filesystem: both paths are
/// normalized and the root's components must lead the path's.
pub fn is_within_root(path: &str, root: &str) -> (r: bool)
    ensures
        r == path_starts_with_spec(lexically_normalized(path@), lexically_normalized(root@)),
{
    let norm_path = lexical_normalize(path);
    let norm_root = lexical_normalize(root);
    path_starts_with(norm_path.as_str(), norm_root.as_str())
}

/// The component texts joined by `/`.
pub open spec fn slash_join(parts: Seq<Seq<char>>) -> Seq<char>
    decreases parts.len(),
{
    if parts.len() == 0 {
        Seq::<char>::empty()
    } else if parts.len() == 1 {
        parts[0]
    } else {
        slash_join(parts.drop_last()).push('/') + parts.last()
    }
}

pub open spec fn comp_texts(cs: Seq<Comp>) -> Seq<Seq<char>> {
    Seq::new(cs.len(), |i: int| comp_text(cs[i]))
}

/// What `to_posix_path` produces for path text.
pub open spec fn posix_text(s: Seq<char>) -> Seq<char> {
    slash_join(comp_texts(components(s)))
}

/// Joins the texts of the components with `/`.
pub fn components_to_posix(cs: &Vec<PathComponent>) -> (r: Vec<char>)
    ensures
        r@ == slash_join(comp_texts(comps_view(cs@))),
{
    let mut r: Vec<char> = Vec::new();
    let mut i: usize = 0;
    assert(comp_texts(comps_view(cs@.subrange(0, 0))) =~= Seq::<Seq<char>>::empty());
    while i < cs.len()
        invariant
            i <= cs.len(),
            r@ == slash_join(comp_texts(comps_view(cs@.subrange(0, i as int)))),
        decreases cs.len() - i,
    {
        let t = component_text(&cs[i]);
        let ghost parts = comp_texts(comps_view(cs@.subrange(0, i as int)));
        if i > 0 {
            r.push('/');
        }
        append_chars(&mut r, &t);
        proof {
            let next = comp_texts(comps_view(cs@.subrange(0, i + 1)));
            assert(next =~= parts.push(t@));
            assert(next.drop_last() =~= parts);
            if i == 0 {
                assert(r@ =~= t@);
            }
        }
        i = i + 1;
    }
    assert(cs@.subrange(0, i as int) =~= cs@);
    r
}

/// Convert a path to POSIX-style string (forward slashes).
///
/// The texts of the path's components are joined with `/`.
pub fn to_posix_path(path: &str) -> (r: String)
    ensures
        r@ == posix_text(path@),
{
    let cs = parse_components(&chars_of(path));
    let v = components_to_posix(&cs);
    string_of(&v)
}

/// The path obtained by pushing every non-empty segment onto `base`.
pub open spec fn push_segments(base: Seq<char>, segs: Seq<Seq<char>>) -> Seq<char>
    decreases segs.len(),
{
    if segs.len() == 0 {
        base
    } else {
        let b = push_segments(base, segs.drop_last());
        if segs.last().len() == 0 {
            b
        } else {
            push_text(b, segs.last())
        }
    }
}

/// What `from_posix_path` produces.
pub open spec fn from_posix_spec(manifest_path: Seq<char>, root: Seq<char>) -> Seq<char> {
    push_segments(root, split_slash(manifest_path))
}

proof fn lemma_push_segments_push(base: Seq<char>, segs: Seq<Seq<char>>, seg: Seq<char>)
    ensures
        push_segments(base, segs.push(seg)) == (if seg.len() == 0 {
            push_segments(base, segs)
        } else {
            push_text(push_segments(base, segs), seg)
        }),
{
    assert(segs.push(seg).drop_last() =~= segs);
}

/// Convert a manifest path (POSIX format) to a path under a destination
/// root: each non-empty `/`-separated segment is pushed onto the root.
pub fn from_posix_path(manifest_path: &str, destination_root: &str) -> (r: String)
    ensures
        r@ == from_posix_spec(manifest_path@, destination_root@),
{
    let s = chars_of(manifest_path);
    let mut result = chars_of(destination_root);
    let mut cur: Vec<char> = Vec::new();
    let ghost mut done: Seq<Seq<char>> = Seq::empty();
    let n = s.len();
    let mut i: usize = 0;
    assert(s@.subrange(0, 0) =~= Seq::<char>::empty());
    assert(Seq::<Seq<char>>::empty().push(Seq::<char>::empty()) =~= seq![Seq::<char>::empty()]);
    while i < n
        invariant
            n == s.len(),
            i <= n,
            split_slash(s@.subrange(0, i as int)) == done.push(cur@),
            result@ == push_segments(destination_root@, done),
        decreases n - i,
    {
        let ch = s[i];
        proof {
            assert(s@.subrange(0, i + 1) =~= s@.subrange(0, i as int).push(ch));
            lemma_split_push(s@.subrange(0, i as int), ch);
        }
        if ch == '/' {
            proof {
                lemma_push_segments_push(destination_root@, done, cur@);
            }
            if cur.len() > 0 {
                push_path_text(&mut result, &cur);
            }
            proof {
                done = done.push(cur@);
            }
            cur = Vec::new();
        } else {
            let ghost old_cur = cur@;
            cur.push(ch);
            proof {
                let d = done.push(old_cur);
                assert(d.update(d.len() - 1, d.last().push(ch)) =~= done.push(cur@));
            }
        }
        i = i + 1;
    }
    assert(s@.subrange(0, n as int) =~= s@);
    proof {
        lemma_push_segments_push(destination_root@, done, cur@);
    }
    if cur.len() > 0 {
        push_path_text(&mut result, &cur);
    }
    string_of(&result)
}

/// Whether path text is absolute (has a root).
pub open spec fn is_absolute_text(p: Seq<char>) -> bool {
    p.len() > 0 && p[0] == '/'
}

/// The absolute form of `path` relative to the working directory `cwd`.
pub open spec fn absolute_text(path: Seq<char>, cwd: Seq<char>) -> Seq<char> {
    if is_absolute_text(path) {
        path
    } else {
        push_text(cwd, path)
    }
}

/// Convert a path to absolute without resolving symlinks.
///
/// An absolute path is returned unchanged; a relative one is joined onto
/// the working directory `cwd`.
pub fn to_absolute(path: &str, cwd: &str) -> (r: String)
    ensures
        r@ == absolute_text(path@, cwd@),
{
    let p = chars_of(path);
    if p.len() > 0 && p[0] == '/' {
        string_of(&p)
    } else {
        let mut c = chars_of(cwd);
        push_path_text(&mut c, &p);
        string_of(&c)
    }
}

/// What `normalize_for_manifest` returns.
pub open spec fn manifest_path_spec(path: Seq<char>, root: Seq<char>, cwd: Seq<char>) -> Result<
    Seq<char>,
    (Seq<char>, Seq<char>),
> {
    let np = lexically_normalized(absolute_text(path, cwd));
    let nr = lexically_normalized(absolute_text(root, cwd));
    let pc = components(np);
    let rc = components(nr);
    if comps_prefix(rc, pc) {
        Ok(slash_join(comp_texts(pc.subrange(rc.len() as int, pc.len() as int))))
    } else {
        Err((np, nr))
    }
}

/// Normalize a path for storage in manifests.
///
/// This function:
/// 1. Converts to absolute path against `cwd` WITHOUT resolving symlinks
/// 2. Removes `.` and `..` components via lexical normalization
/// 3. Returns the components below the root, joined with `/`
///
/// Errors with `PathOutsideRoot` (carrying both normalized paths) when the
/// path is not under the root.
pub fn normalize_for_manifest(path: &str, root: &str, cwd: &str) -> (r: Result<String, PathError>)
    ensures
        match manifest_path_spec(path@, root@, cwd@) {
            Ok(rel) => r matches Ok(s) && s@ == rel,
            Err((np, nr)) => r matches Err(PathError::PathOutsideRoot { path, root }) && path@
                == np && root@ == nr,
        },
{
    let abs_path = to_absolute(path, cwd);
    let normalized = lexical_normalize(abs_path.as_str());
    let abs_root = to_absolute(root, cwd);
    let normalized_root = lexical_normalize(abs_root.as_str());
    let pc = parse_components(&chars_of(normalized.as_str()));
    let rc = parse_components(&chars_of(normalized_root.as_str()));
    if !components_prefix(&rc, &pc) {
        return Err(PathError::PathOutsideRoot { path: normalized, root: normalized_root });
    }
    let mut rest: Vec<PathComponent> = Vec::new();
    let mut i: usize = rc.len();
    let ghost pcv = comps_view(pc@);
    assert(comps_view(rest@) =~= pcv.subrange(rc.len() as int, rc.len() as int));
    while i < pc.len()
        invariant
            rc.len() <= i <= pc.len(),
            pcv == comps_view(pc@),
            comps_view(rest@) == pcv.subrange(rc.len() as int, i as int),
        decreases pc.len() - i,
    {
        let c = copy_component(&pc[i]);
        let ghost before = rest@;
        rest.push(c);
        proof {
            lemma_comps_view_push(before, c);
            assert(pcv.subrange(rc.len() as int, i + 1) =~= pcv.subrange(
                rc.len() as int,
                i as int,
            ).push(pcv[i as int]));
        }
        i = i + 1;
    }
    let v = components_to_posix(&rest);
    Ok(string_of(&v))
}

/// Convert a path to Windows long path format if needed.
///
/// On POSIX hosts the path is returned unchanged.
pub fn to_long_path(path: &str) -> (r: String)
    ensures
        r@ == path@,
{
    own(path)
}

} // verus!
