//! A model of POSIX path text: how a path string splits into components,
//! how components are joined back into text (the way `PathBuf::push`
//! builds a path), and the executable routines that follow that model.

use vstd::prelude::*;

verus! {

/// One component of a path, as a value of the model.
pub enum Comp {
    /// The leading `/`.
    Root,
    /// A leading `.`.
    Cur,
    /// A `..` component.
    Parent,
    /// Any other name.
    Normal(Seq<char>),
}

/// Splits text at every `/`; `"a//b"` gives `["a", "", "b"]`, and the empty
/// text gives one empty segment.
pub open spec fn split_slash(s: Seq<char>) -> Seq<Seq<char>>
    decreases s.len(),
{
    if s.len() == 0 {
        seq![Seq::<char>::empty()]
    } else {
        let pre = split_slash(s.drop_last());
        if s.last() == '/' {
            pre.push(Seq::<char>::empty())
        } else {
            pre.update(pre.len() - 1, pre.last().push(s.last()))
        }
    }
}

pub open spec fn dot() -> Seq<char> {
    seq!['.']
}

pub open spec fn dot_dot() -> Seq<char> {
    seq!['.', '.']
}

/// The component a segment contributes: empty segments and `.` vanish.
pub open spec fn seg_comp(seg: Seq<char>) -> Seq<Comp> {
    if seg.len() == 0 || seg == dot() {
        Seq::<Comp>::empty()
    } else if seg == dot_dot() {
        seq![Comp::Parent]
    } else {
        seq![Comp::Normal(seg)]
    }
}

pub open spec fn segs_comps(segs: Seq<Seq<char>>) -> Seq<Comp>
    decreases segs.len(),
{
    if segs.len() == 0 {
        Seq::<Comp>::empty()
    } else {
        segs_comps(segs.drop_last()) + seg_comp(segs.last())
    }
}

/// The components of a path text, as `Path::components` yields them on a
/// POSIX system: a root for a leading `/`, a current-directory marker for a
/// leading `.` segment of a relative path, then every name and `..`;
/// repeated separators and inner `.` segments are ignored.
pub open spec fn components(s: Seq<char>) -> Seq<Comp> {
    let segs = split_slash(s);
    let head = if s.len() > 0 && s[0] == '/' {
        seq![Comp::Root]
    } else if segs[0] == dot() {
        seq![Comp::Cur]
    } else {
        Seq::<Comp>::empty()
    };
    head + segs_comps(segs)
}

/// The text of one component.
pub open spec fn comp_text(c: Comp) -> Seq<char> {
    match c {
        Comp::Root => seq!['/'],
        Comp::Cur => dot(),
        Comp::Parent => dot_dot(),
        Comp::Normal(t) => t,
    }
}

/// Appends `t` to the path text `p` the way `PathBuf::push` does: an
/// absolute `t` replaces `p`; otherwise a separator is put between them
/// unless `p` is empty or already ends with one.
pub open spec fn push_text(p: Seq<char>, t: Seq<char>) -> Seq<char> {
    if t.len() > 0 && t[0] == '/' {
        t
    } else if p.len() == 0 || p.last() == '/' {
        p + t
    } else {
        p.push('/') + t
    }
}

/// The text that collecting the components into a `PathBuf` produces.
pub open spec fn join_comps(cs: Seq<Comp>) -> Seq<char>
    decreases cs.len(),
{
    if cs.len() == 0 {
        Seq::<char>::empty()
    } else {
        push_text(join_comps(cs.drop_last()), comp_text(cs.last()))
    }
}

/// One step of lexical normalization: `.` is dropped, `..` removes the
/// previous name when there is one, and is kept otherwise.
pub open spec fn norm_step(acc: Seq<Comp>, c: Comp) -> Seq<Comp> {
    match c {
        Comp::Cur => acc,
        Comp::Parent => {
            if acc.len() > 0 && !(acc.last() is Parent) && !(acc.last() is Root) {
                acc.drop_last()
            } else {
                acc.push(Comp::Parent)
            }
        },
        _ => acc.push(c),
    }
}

pub open spec fn normalize_comps(cs: Seq<Comp>) -> Seq<Comp>
    decreases cs.len(),
{
    if cs.len() == 0 {
        Seq::<Comp>::empty()
    } else {
        norm_step(normalize_comps(cs.drop_last()), cs.last())
    }
}

/// The lexically normalized text of a path.
pub open spec fn lexically_normalized(s: Seq<char>) -> Seq<char> {
    join_comps(normalize_comps(components(s)))
}

/// `base`'s components are a prefix of `p`'s (what `Path::starts_with` checks).
pub open spec fn comps_prefix(base: Seq<Comp>, p: Seq<Comp>) -> bool {
    base.len() <= p.len() && p.subrange(0, base.len() as int) == base
}

pub open spec fn path_starts_with_spec(p: Seq<char>, base: Seq<char>) -> bool {
    comps_prefix(components(base), components(p))
}

/// A name that a `Normal` component can carry.
pub open spec fn valid_name(t: Seq<char>) -> bool {
    t.len() > 0 && !t.contains('/') && t != dot() && t != dot_dot()
}

/// Components that `components` can produce after its first element.
pub open spec fn comps_ok(cs: Seq<Comp>) -> bool {
    &&& forall|i: int| 0 < i < cs.len() ==> !(#[trigger] cs[i] is Root) && !(cs[i] is Cur)
    &&& forall|i: int|
        0 <= i < cs.len() && (#[trigger] cs[i] is Normal) ==> valid_name(cs[i]->Normal_0)
}

/// The shape of a normalized component list: an optional root, then `..`
/// components, then names.
pub open spec fn norm_shape(cs: Seq<Comp>) -> bool {
    &&& forall|i: int| 0 <= i < cs.len() ==> !(#[trigger] cs[i] is Cur)
    &&& forall|i: int| 0 < i < cs.len() ==> !(#[trigger] cs[i] is Root)
    &&& forall|i: int, j: int|
        0 <= i < j < cs.len() && (#[trigger] cs[j] is Parent) ==> !(#[trigger] cs[i] is Normal)
    &&& forall|i: int|
        0 <= i < cs.len() && (#[trigger] cs[i] is Normal) ==> valid_name(cs[i]->Normal_0)
}

// ---------------------------------------------------------------------------
// Lemmas about splitting
// ---------------------------------------------------------------------------

pub proof fn lemma_split_nonempty(s: Seq<char>)
    ensures
        split_slash(s).len() >= 1,
    decreases s.len(),
{
    if s.len() > 0 {
        lemma_split_nonempty(s.drop_last());
    }
}

pub proof fn lemma_split_push(s: Seq<char>, ch: char)
    ensures
        split_slash(s.push(ch)) == (if ch == '/' {
            split_slash(s).push(Seq::<char>::empty())
        } else {
            split_slash(s).update(
                split_slash(s).len() - 1,
                split_slash(s).last().push(ch),
            )
        }),
{
    assert(s.push(ch).drop_last() =~= s);
}

/// Appending text without a separator extends the last segment.
pub proof fn lemma_split_append_plain(s: Seq<char>, t: Seq<char>)
    requires
        !t.contains('/'),
    ensures
        split_slash(s + t) == split_slash(s).update(
            split_slash(s).len() - 1,
            split_slash(s).last() + t,
        ),
        split_slash(s + t).len() == split_slash(s).len(),
    decreases t.len(),
{
    lemma_split_nonempty(s);
    if t.len() == 0 {
        assert(s + t =~= s);
        assert(split_slash(s).last() + t =~= split_slash(s).last());
        assert(split_slash(s).update(split_slash(s).len() - 1, split_slash(s).last())
            =~= split_slash(s));
    } else {
        let t0 = t.drop_last();
        assert(!t0.contains('/')) by {
            if t0.contains('/') {
                let k = choose|k: int| 0 <= k < t0.len() && t0[k] == '/';
                assert(t[k] == '/');
            }
        }
        lemma_split_append_plain(s, t0);
        assert(s + t =~= (s + t0).push(t.last()));
        assert(t.last() != '/') by {
            assert(t[t.len() - 1] == t.last());
        }
        lemma_split_push(s + t0, t.last());
        let n = split_slash(s).len();
        assert(split_slash(s).last() + t =~= (split_slash(s).last() + t0).push(t.last()));
        assert(split_slash(s + t) =~= split_slash(s).update(n - 1, split_slash(s).last() + t));
    }
}

pub proof fn lemma_segs_comps_push(segs: Seq<Seq<char>>, seg: Seq<char>)
    ensures
        segs_comps(segs.push(seg)) == segs_comps(segs) + seg_comp(seg),
{
    assert(segs.push(seg).drop_last() =~= segs);
}

// ---------------------------------------------------------------------------
// Lemmas about joining
// ---------------------------------------------------------------------------

pub proof fn lemma_join_push(cs: Seq<Comp>, c: Comp)
    ensures
        join_comps(cs.push(c)) == push_text(join_comps(cs), comp_text(c)),
{
    assert(cs.push(c).drop_last() =~= cs);
}

/// Facts about the text of well-formed component lists.
pub proof fn lemma_join_facts(cs: Seq<Comp>)
    requires
        comps_ok(cs),
        forall|i: int| 0 <= i < cs.len() ==> !(#[trigger] cs[i] is Cur),
        cs.len() > 0,
    ensures
        join_comps(cs).len() > 0,
        (join_comps(cs)[0] == '/') == (cs[0] is Root),
        (join_comps(cs).last() == '/') == (cs.len() == 1 && cs[0] is Root),
    decreases cs.len(),
{
    let c = cs.last();
    let pre = cs.drop_last();
    assert(cs =~= pre.push(c));
    lemma_join_push(pre, c);
    if cs.len() == 1 {
        assert(pre =~= Seq::<Comp>::empty());
        assert(c == cs[0]);
        match c {
            Comp::Normal(t) => {
                assert(valid_name(t));
                assert(t[0] != '/') by {
                    if t[0] == '/' {
                        assert(t.contains('/'));
                    }
                }
                assert(t.last() != '/') by {
                    if t[t.len() - 1] == '/' {
                        assert(t.contains('/'));
                    }
                }
                assert(join_comps(cs) =~= t);
            },
            Comp::Parent => {
                assert(join_comps(cs) =~= dot_dot());
            },
            Comp::Root => {
                assert(join_comps(cs) =~= seq!['/']);
            },
            Comp::Cur => {
                assert(cs[0] is Cur);
            },
        }
    } else {
        assert(comps_ok(pre)) by {
            assert forall|i: int| 0 < i < pre.len() implies !(#[trigger] pre[i] is Root) && !(
            pre[i] is Cur) by {
                assert(pre[i] == cs[i]);
            }
            assert forall|i: int|
                0 <= i < pre.len() && (#[trigger] pre[i] is Normal) implies valid_name(
                pre[i]->Normal_0,
            ) by {
                assert(pre[i] == cs[i]);
            }
        }
        assert forall|i: int| 0 <= i < pre.len() implies !(#[trigger] pre[i] is Cur) by {
            assert(pre[i] == cs[i]);
        }
        lemma_join_facts(pre);
        assert(pre[0] == cs[0]);
        let p = join_comps(pre);
        assert(c == cs[cs.len() - 1]);
        assert(!(c is Root) && !(c is Cur));
        let t = comp_text(c);
        assert(t.len() > 0 && t[0] != '/' && t.last() != '/') by {
            match c {
                Comp::Normal(n) => {
                    assert(valid_name(n));
                    if n[0] == '/' {
                        assert(n.contains('/'));
                    }
                    if n[n.len() - 1] == '/' {
                        assert(n.contains('/'));
                    }
                },
                Comp::Parent => {},
                _ => {},
            }
        }
        let r = join_comps(cs);
        if p.last() == '/' {
            assert(r =~= p + t);
        } else {
            assert(r =~= p.push('/') + t);
        }
        assert(r[0] == p[0]);
        assert(r.last() == t.last());
    }
}

proof fn lemma_comp_text_plain(c: Comp)
    requires
        c is Parent || (c is Normal && valid_name(c->Normal_0)),
    ensures
        !comp_text(c).contains('/'),
        seg_comp(comp_text(c)) == seq![c],
        comp_text(c) != dot(),
        comp_text(c).len() > 0,
{
    match c {
        Comp::Parent => {
            assert(dot_dot() != dot()) by {
                assert(dot_dot().len() != dot().len());
            }
            assert(!dot_dot().contains('/')) by {
                if dot_dot().contains('/') {
                    let k = choose|k: int| 0 <= k < dot_dot().len() && dot_dot()[k] == '/';
                }
            }
        },
        Comp::Normal(t) => {},
        _ => {},
    }
}

/// Parsing the text of a well-formed component list gives that list back.
pub proof fn lemma_components_of_join(cs: Seq<Comp>)
    requires
        comps_ok(cs),
        forall|i: int| 0 <= i < cs.len() ==> !(#[trigger] cs[i] is Cur),
    ensures
        components(join_comps(cs)) == cs,
    decreases cs.len(),
{
    if cs.len() == 0 {
        let e = Seq::<char>::empty();
        assert(split_slash(e) =~= seq![Seq::<char>::empty()]);
        assert(segs_comps(split_slash(e)) =~= Seq::<Comp>::empty()) by {
            lemma_segs_comps_push(Seq::<Seq<char>>::empty(), Seq::<char>::empty());
            assert(Seq::<Seq<char>>::empty().push(Seq::<char>::empty()) =~= split_slash(e));
        }
        assert(Seq::<char>::empty() != dot()) by {
            assert(dot().len() == 1);
        }
        assert(components(e) =~= cs);
        return;
    }
    let c = cs.last();
    let pre = cs.drop_last();
    assert(cs =~= pre.push(c));
    lemma_join_push(pre, c);
    let r = join_comps(cs);
    if cs.len() == 1 {
        assert(pre =~= Seq::<Comp>::empty());
        assert(c == cs[0]);
        if c is Root {
            let sl = seq!['/'];
            assert(r =~= sl);
            assert(sl =~= Seq::<char>::empty().push('/'));
            lemma_split_push(Seq::<char>::empty(), '/');
            assert(split_slash(Seq::<char>::empty()) =~= seq![Seq::<char>::empty()]);
            let segs = split_slash(sl);
            assert(segs =~= seq![Seq::<char>::empty()].push(Seq::<char>::empty()));
            lemma_segs_comps_push(seq![Seq::<char>::empty()], Seq::<char>::empty());
            lemma_segs_comps_push(Seq::<Seq<char>>::empty(), Seq::<char>::empty());
            assert(Seq::<Seq<char>>::empty().push(Seq::<char>::empty()) =~= seq![
                Seq::<char>::empty(),
            ]);
            assert(segs_comps(segs) =~= Seq::<Comp>::empty());
            assert(components(sl) =~= cs);
        } else {
            assert(c is Parent || c is Normal);
            if c is Normal {
                assert(cs[0] is Normal);
                assert(valid_name(c->Normal_0));
            }
            lemma_comp_text_plain(c);
            let t = comp_text(c);
            assert(r =~= t);
            lemma_split_append_plain(Seq::<char>::empty(), t);
            assert(Seq::<char>::empty() + t =~= t);
            assert(split_slash(Seq::<char>::empty()) =~= seq![Seq::<char>::empty()]);
            assert(split_slash(t) =~= seq![t]);
            lemma_segs_comps_push(Seq::<Seq<char>>::empty(), t);
            assert(Seq::<Seq<char>>::empty().push(t) =~= seq![t]);
            assert(t[0] != '/') by {
                if t[0] == '/' {
                    assert(t.contains('/'));
                }
            }
            assert(components(t) =~= cs);
        }
        return;
    }
    // Inductive step.
    assert(comps_ok(pre)) by {
        assert forall|i: int| 0 < i < pre.len() implies !(#[trigger] pre[i] is Root) && !(
        pre[i] is Cur) by {
            assert(pre[i] == cs[i]);
        }
        assert forall|i: int|
            0 <= i < pre.len() && (#[trigger] pre[i] is Normal) implies valid_name(
            pre[i]->Normal_0,
        ) by {
            assert(pre[i] == cs[i]);
        }
    }
    assert forall|i: int| 0 <= i < pre.len() implies !(#[trigger] pre[i] is Cur) by {
        assert(pre[i] == cs[i]);
    }
    lemma_components_of_join(pre);
    lemma_join_facts(pre);
    assert(c == cs[cs.len() - 1]);
    assert(!(c is Root) && !(c is Cur));
    if c is Normal {
        assert(valid_name(c->Normal_0));
    }
    lemma_comp_text_plain(c);
    let p = join_comps(pre);
    let t = comp_text(c);
    assert(t[0] != '/') by {
        if t[0] == '/' {
            assert(t.contains('/'));
        }
    }
    lemma_split_nonempty(p);
    let sp = split_slash(p);
    if p.last() == '/' {
        // p is the lone root "/".
        assert(pre.len() == 1 && pre[0] is Root);
        assert(r =~= p + t);
        lemma_split_append_plain(p, t);
        assert(pre =~= seq![Comp::Root]);
        assert(p =~= seq!['/']);
        assert(seq!['/'] =~= Seq::<char>::empty().push('/'));
        lemma_split_push(Seq::<char>::empty(), '/');
        assert(split_slash(Seq::<char>::empty()) =~= seq![Seq::<char>::empty()]);
        assert(sp =~= seq![Seq::<char>::empty(), Seq::<char>::empty()]);
        let sr = split_slash(r);
        assert(sr =~= seq![Seq::<char>::empty(), t]);
        assert(sr =~= seq![Seq::<char>::empty()].push(t));
        lemma_segs_comps_push(seq![Seq::<char>::empty()], t);
        lemma_segs_comps_push(Seq::<Seq<char>>::empty(), Seq::<char>::empty());
        assert(Seq::<Seq<char>>::empty().push(Seq::<char>::empty()) =~= seq![
            Seq::<char>::empty(),
        ]);
        assert(r[0] == '/');
        assert(components(r) =~= seq![Comp::Root] + seq![c]);
        assert(cs =~= seq![Comp::Root, c]);
    } else {
        assert(r =~= p.push('/') + t);
        lemma_split_push(p, '/');
        lemma_split_append_plain(p.push('/'), t);
        let sq = split_slash(p.push('/'));
        assert(sq =~= sp.push(Seq::<char>::empty()));
        let sr = split_slash(r);
        assert(sr.len() == sq.len());
        assert(sq.last() + t =~= t);
        assert(sr =~= sp.push(t));
        lemma_segs_comps_push(sp, t);
        assert(sr[0] == sp[0]);
        assert(r[0] == p[0]);
        assert(components(r) =~= components(p) + seq![c]);
    }
}

// ---------------------------------------------------------------------------
// Lemmas about normalization
// ---------------------------------------------------------------------------

pub proof fn lemma_normalize_push(cs: Seq<Comp>, c: Comp)
    ensures
        normalize_comps(cs.push(c)) == norm_step(normalize_comps(cs), c),
{
    assert(cs.push(c).drop_last() =~= cs);
}

/// Components of a parsed path: a root or current-directory marker can only
/// lead, and names are valid.
pub proof fn lemma_components_ok(s: Seq<char>)
    ensures
        comps_ok(components(s)),
        forall|i: int| 0 < i < components(s).len() ==> !(#[trigger] components(s)[i] is Cur),
{
    lemma_split_nonempty(s);
    lemma_split_no_slash(s);
    lemma_segs_comps_ok(split_slash(s));
    let segs = split_slash(s);
    let body = segs_comps(segs);
    let cs = components(s);
    assert forall|i: int| 0 < i < cs.len() implies !(#[trigger] cs[i] is Root) && !(
    cs[i] is Cur) by {
        if cs.len() > body.len() {
            assert(cs[i] == body[i - 1]);
        } else {
            assert(cs[i] == body[i]);
        }
    }
    assert forall|i: int| 0 <= i < cs.len() && (#[trigger] cs[i] is Normal) implies valid_name(
        cs[i]->Normal_0,
    ) by {
        if cs.len() > body.len() {
            assert(cs[i] == body[i - 1]);
        } else {
            assert(cs[i] == body[i]);
        }
    }
}

/// The segments of a split never contain the separator.
pub proof fn lemma_split_no_slash(s: Seq<char>)
    ensures
        forall|k: int| 0 <= k < split_slash(s).len() ==> !(#[trigger] split_slash(s)[k]).contains('/'),
    decreases s.len(),
{
    if s.len() > 0 {
        let pre = s.drop_last();
        lemma_split_no_slash(pre);
        lemma_split_nonempty(pre);
        let sp = split_slash(pre);
        let ss = split_slash(s);
        assert forall|k: int| 0 <= k < ss.len() implies !(#[trigger] ss[k]).contains('/') by {
            if s.last() == '/' {
                if k < sp.len() {
                    assert(ss[k] == sp[k]);
                } else {
                    assert(ss[k] =~= Seq::<char>::empty());
                }
            } else {
                if k < sp.len() - 1 {
                    assert(ss[k] == sp[k]);
                } else {
                    let seg = sp.last().push(s.last());
                    assert(ss[k] == seg);
                    assert(!sp[sp.len() - 1].contains('/'));
                    if seg.contains('/') {
                        let j = choose|j: int| 0 <= j < seg.len() && seg[j] == '/';
                        if j < seg.len() - 1 {
                            assert(sp.last()[j] == '/');
                            assert(sp.last().contains('/'));
                        }
                    }
                }
            }
        }
    }
}

pub proof fn lemma_segs_comps_ok(segs: Seq<Seq<char>>)
    requires
        forall|k: int| 0 <= k < segs.len() ==> !(#[trigger] segs[k]).contains('/'),
    ensures
        forall|i: int| 0 <= i < segs_comps(segs).len() ==> {
            let c = #[trigger] segs_comps(segs)[i];
            &&& !(c is Root)
            &&& !(c is Cur)
            &&& (c is Normal ==> valid_name(c->Normal_0))
        },
    decreases segs.len(),
{
    if segs.len() > 0 {
        let pre = segs.drop_last();
        assert forall|k: int| 0 <= k < pre.len() implies !(#[trigger] pre[k]).contains('/') by {
            assert(pre[k] == segs[k]);
        }
        lemma_segs_comps_ok(pre);
        let a = segs_comps(pre);
        let b = seg_comp(segs.last());
        assert(!segs[segs.len() - 1].contains('/'));
        assert forall|i: int| 0 <= i < segs_comps(segs).len() implies {
            let c = #[trigger] segs_comps(segs)[i];
            &&& !(c is Root)
            &&& !(c is Cur)
            &&& (c is Normal ==> valid_name(c->Normal_0))
        } by {
            if i < a.len() {
                assert(segs_comps(segs)[i] == a[i]);
            } else {
                assert(segs_comps(segs)[i] == b[i - a.len()]);
            }
        }
    }
}

/// Normalizing the components of a parsed path gives the normalized shape.
pub proof fn lemma_normalize_shape(cs: Seq<Comp>)
    requires
        comps_ok(cs),
    ensures
        norm_shape(normalize_comps(cs)),
        normalize_comps(cs).len() > 0 && normalize_comps(cs)[0] is Root ==> cs.len() > 0 && cs[0] is Root,
    decreases cs.len(),
{
    if cs.len() > 0 {
        let pre = cs.drop_last();
        let c = cs.last();
        assert(cs =~= pre.push(c));
        assert(comps_ok(pre)) by {
            assert forall|i: int| 0 < i < pre.len() implies !(#[trigger] pre[i] is Root) && !(
            pre[i] is Cur) by {
                assert(pre[i] == cs[i]);
            }
            assert forall|i: int|
                0 <= i < pre.len() && (#[trigger] pre[i] is Normal) implies valid_name(
                pre[i]->Normal_0,
            ) by {
                assert(pre[i] == cs[i]);
            }
        }
        lemma_normalize_shape(pre);
        lemma_normalize_push(pre, c);
        let a = normalize_comps(pre);
        let r = normalize_comps(cs);
        assert(c == cs[cs.len() - 1]);
        match c {
            Comp::Cur => {
                assert(cs.len() == 1);
                assert(pre.len() == 0);
                assert(r =~= Seq::<Comp>::empty());
            },
            Comp::Parent => {
                if a.len() > 0 && !(a.last() is Parent) && !(a.last() is Root) {
                    assert(r =~= a.drop_last());
                    assert(norm_shape(r)) by {
                        assert forall|i: int| 0 <= i < r.len() implies !(#[trigger] r[i] is Cur) by {
                            assert(r[i] == a[i]);
                        }
                        assert forall|i: int| 0 < i < r.len() implies !(#[trigger] r[i] is Root) by {
                            assert(r[i] == a[i]);
                        }
                        assert forall|i: int, j: int|
                            0 <= i < j < r.len() && (#[trigger] r[j] is Parent) implies !(
                            #[trigger] r[i] is Normal) by {
                            assert(r[i] == a[i]);
                            assert(r[j] == a[j]);
                        }
                        assert forall|i: int|
                            0 <= i < r.len() && (#[trigger] r[i] is Normal) implies valid_name(
                            r[i]->Normal_0,
                        ) by {
                            assert(r[i] == a[i]);
                        }
                    }
                    if r.len() > 0 && r[0] is Root {
                        assert(a[0] is Root);
                        assert(pre[0] == cs[0]);
                    }
                } else {
                    assert(r =~= a.push(Comp::Parent));
                    assert(norm_shape(r)) by {
                        assert forall|i: int| 0 <= i < r.len() implies !(#[trigger] r[i] is Cur) by {
                            if i < a.len() {
                                assert(r[i] == a[i]);
                            }
                        }
                        assert forall|i: int| 0 < i < r.len() implies !(#[trigger] r[i] is Root) by {
                            if i < a.len() {
                                assert(r[i] == a[i]);
                            }
                        }
                        assert forall|i: int, j: int|
                            0 <= i < j < r.len() && (#[trigger] r[j] is Parent) implies !(
                            #[trigger] r[i] is Normal) by {
                            assert(r[i] == a[i]);
                            if j < a.len() {
                                assert(r[j] == a[j]);
                            } else {
                                // every earlier element is a root or a parent
                                let l = a.len() - 1;
                                assert(a[l] is Parent || a[l] is Root);
                                if i < l {
                                    if a[l] is Parent {
                                        assert(!(a[i] is Normal));
                                    } else {
                                        assert(l == 0);
                                    }
                                }
                            }
                        }
                        assert forall|i: int|
                            0 <= i < r.len() && (#[trigger] r[i] is Normal) implies valid_name(
                            r[i]->Normal_0,
                        ) by {
                            assert(r[i] == a[i]);
                        }
                    }
                    if r.len() > 0 && r[0] is Root {
                        assert(a.len() > 0);
                        assert(a[0] is Root);
                        assert(pre[0] == cs[0]);
                    }
                }
            },
            _ => {
                assert(r =~= a.push(c));
                if c is Root {
                    assert(cs.len() == 1);
                    assert(pre.len() == 0);
                    assert(r =~= seq![Comp::Root]);
                } else {
                    assert(c is Normal);
                    assert(valid_name(c->Normal_0));
                    assert(norm_shape(r)) by {
                        assert forall|i: int| 0 <= i < r.len() implies !(#[trigger] r[i] is Cur) by {
                            if i < a.len() {
                                assert(r[i] == a[i]);
                            }
                        }
                        assert forall|i: int| 0 < i < r.len() implies !(#[trigger] r[i] is Root) by {
                            if i < a.len() {
                                assert(r[i] == a[i]);
                            }
                        }
                        assert forall|i: int, j: int|
                            0 <= i < j < r.len() && (#[trigger] r[j] is Parent) implies !(
                            #[trigger] r[i] is Normal) by {
                            assert(r[i] == a[i]);
                            assert(r[j] == a[j]);
                        }
                        assert forall|i: int|
                            0 <= i < r.len() && (#[trigger] r[i] is Normal) implies valid_name(
                            r[i]->Normal_0,
                        ) by {
                            if i < a.len() {
                                assert(r[i] == a[i]);
                            }
                        }
                    }
                    if r.len() > 0 && r[0] is Root {
                        assert(a.len() > 0);
                        assert(a[0] is Root);
                        assert(pre[0] == cs[0]);
                    }
                }
            },
        }
    }
}

/// Normalization leaves a list of the normalized shape unchanged.
pub proof fn lemma_normalize_fixed(cs: Seq<Comp>)
    requires
        norm_shape(cs),
    ensures
        normalize_comps(cs) == cs,
    decreases cs.len(),
{
    if cs.len() > 0 {
        let pre = cs.drop_last();
        let c = cs.last();
        assert(cs =~= pre.push(c));
        assert(norm_shape(pre)) by {
            assert forall|i: int| 0 <= i < pre.len() implies !(#[trigger] pre[i] is Cur) by {
                assert(pre[i] == cs[i]);
            }
            assert forall|i: int| 0 < i < pre.len() implies !(#[trigger] pre[i] is Root) by {
                assert(pre[i] == cs[i]);
            }
            assert forall|i: int, j: int|
                0 <= i < j < pre.len() && (#[trigger] pre[j] is Parent) implies !(
                #[trigger] pre[i] is Normal) by {
                assert(pre[i] == cs[i]);
                assert(pre[j] == cs[j]);
            }
            assert forall|i: int|
                0 <= i < pre.len() && (#[trigger] pre[i] is Normal) implies valid_name(
                pre[i]->Normal_0,
            ) by {
                assert(pre[i] == cs[i]);
            }
        }
        lemma_normalize_fixed(pre);
        lemma_normalize_push(pre, c);
        let l = cs.len() - 1;
        assert(c == cs[l]);
        assert(!(c is Cur));
        if c is Parent {
            if pre.len() > 0 {
                assert(pre.last() == cs[l - 1]);
                assert(!(cs[l - 1] is Normal));
                assert(!(cs[l - 1] is Cur));
            }
        } else if c is Root {
            assert(l == 0);
        }
    }
}

/// Lexical normalization is idempotent, and the text of a normalized path
/// parses back into exactly its normalized components.
pub proof fn lemma_lexically_normalized_idempotent(s: Seq<char>)
    ensures
        components(lexically_normalized(s)) == normalize_comps(components(s)),
        lexically_normalized(lexically_normalized(s)) == lexically_normalized(s),
{
    lemma_components_ok(s);
    let cs = components(s);
    lemma_normalize_shape(cs);
    let n = normalize_comps(cs);
    assert(comps_ok(n));
    lemma_components_of_join(n);
    lemma_normalize_fixed(n);
}

} // verus!
