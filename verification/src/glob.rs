//! Glob pattern matching for file filtering.
//!
//! Include/exclude patterns use the glob syntax of `globset` (`**`,
//! `*.{png,jpg}`, `[abc]`). To match a literal path that holds glob
//! metacharacters, escape it with `escape_glob` first.

use vstd::prelude::*;

use globset::{Glob, GlobSet, GlobSetBuilder};

use crate::fs_error::FileSystemError;
use crate::text::{append_str, own, string_of, strs};

verus! {

// ---------------------------------------------------------------------------
// Escaping
// ---------------------------------------------------------------------------

/// A glob metacharacter: `*`, `?`, `[`, `]`, `{`, `}` or `!`.
pub open spec fn is_glob_meta(c: char) -> bool {
    c == '*' || c == '?' || c == '[' || c == ']' || c == '{' || c == '}' || c == '!'
}

/// The text with a backslash before every glob metacharacter.
pub open spec fn escaped_text(s: Seq<char>) -> Seq<char>
    decreases s.len(),
{
    if s.len() == 0 {
        Seq::<char>::empty()
    } else if is_glob_meta(s.last()) {
        escaped_text(s.drop_last()) + seq!['\\', s.last()]
    } else {
        escaped_text(s.drop_last()).push(s.last())
    }
}

/// Escape special glob characters in a string to treat it as a literal
/// path: each of `*`, `?`, `[`, `]`, `{`, `}`, `!` gets a backslash before it.
pub fn escape_glob(s: &str) -> (r: String)
    ensures
        r@ == escaped_text(s@),
{
    let chars = crate::text::chars_of(s);
    let mut escaped: Vec<char> = Vec::new();
    let mut i: usize = 0;
    assert(s@.subrange(0, 0) =~= Seq::<char>::empty());
    while i < chars.len()
        invariant
            i <= chars.len(),
            chars@ == s@,
            escaped@ == escaped_text(s@.subrange(0, i as int)),
        decreases chars.len() - i,
    {
        let ch = chars[i];
        let ghost before = escaped@;
        if ch == '*' || ch == '?' || ch == '[' || ch == ']' || ch == '{' || ch == '}' || ch == '!' {
            escaped.push('\\');
            escaped.push(ch);
        } else {
            escaped.push(ch);
        }
        proof {
            let t = s@.subrange(0, i + 1);
            assert(t.drop_last() =~= s@.subrange(0, i as int));
            assert(t.last() == ch);
            assert(escaped@ =~= escaped_text(t));
        }
        i = i + 1;
    }
    assert(s@.subrange(0, i as int) =~= s@);
    string_of(&escaped)
}

// ---------------------------------------------------------------------------
// globset
// ---------------------------------------------------------------------------

/// A parsed glob of `globset`.
#[verifier::external_type_specification]
#[verifier::external_body]
pub struct ExGlob(Glob);

/// A compiled set of globs of `globset`.
#[verifier::external_type_specification]
#[verifier::external_body]
pub struct ExGlobSet(GlobSet);

/// A builder of glob sets of `globset`.
#[verifier::external_type_specification]
#[verifier::external_body]
pub struct ExGlobSetBuilder(GlobSetBuilder);

/// The error of `globset`.
#[verifier::external_type_specification]
#[verifier::external_body]
pub struct ExGlobError(globset::Error);

/// Whether `globset` parses a pattern (its glob syntax).
pub uninterp spec fn glob_parses(pattern: Seq<char>) -> bool;

/// The pattern a glob was parsed from.
pub uninterp spec fn glob_text(g: Glob) -> Seq<char>;

/// The patterns of the globs added to a builder, in order.
pub uninterp spec fn builder_patterns(b: GlobSetBuilder) -> Seq<Seq<char>>;

/// The patterns of the globs a set was built from, in order.
pub uninterp spec fn set_patterns(s: GlobSet) -> Seq<Seq<char>>;

/// Whether `globset` compiles a set from valid patterns.
pub uninterp spec fn globset_builds(patterns: Seq<Seq<char>>) -> bool;

/// Whether any glob of the patterns matches the path, as `globset`
/// matches.
pub uninterp spec fn globset_is_match(patterns: Seq<Seq<char>>, path: Seq<char>) -> bool;

/// `Glob::new`: parses a pattern; the glob keeps the pattern text.
#[verifier::external_body]
fn glob_new(pattern: &str) -> (r: Result<Glob, globset::Error>)
    ensures
        r is Ok <==> glob_parses(pattern@),
        r matches Ok(g) ==> glob_text(g) == pattern@,
{
    Glob::new(pattern)
}

/// `GlobSetBuilder::new`: a builder with no globs.
#[verifier::external_body]
fn builder_new() -> (r: GlobSetBuilder)
    ensures
        builder_patterns(r) == Seq::<Seq<char>>::empty(),
{
    GlobSetBuilder::new()
}

/// `GlobSetBuilder::add`: appends the glob.
#[verifier::external_body]
fn builder_add(b: &mut GlobSetBuilder, g: Glob)
    ensures
        builder_patterns(*final(b)) == builder_patterns(*old(b)).push(glob_text(g)),
{
    b.add(g);
}

/// `GlobSetBuilder::build`: a set of the globs added so far, or an error
/// when they cannot be compiled together.
#[verifier::external_body]
fn builder_build(b: &GlobSetBuilder) -> (r: Result<GlobSet, globset::Error>)
    ensures
        r is Ok <==> globset_builds(builder_patterns(*b)),
        r matches Ok(s) ==> set_patterns(s) == builder_patterns(*b),
{
    b.build()
}

/// `GlobSet::is_match`: whether any glob of the set matches the path.
#[verifier::external_body]
fn set_is_match(s: &GlobSet, path: &str) -> (r: bool)
    ensures
        r == globset_is_match(set_patterns(*s), path@),
{
    s.is_match(path)
}

/// The `Display` text of a `globset` error; not described here.
#[verifier::external_body]
fn glob_error_text(e: &globset::Error) -> String {
    e.to_string()
}

// ---------------------------------------------------------------------------
// Filters
// ---------------------------------------------------------------------------

/// The patterns joined with `, `.
pub open spec fn joined_patterns(ps: Seq<Seq<char>>) -> Seq<char>
    decreases ps.len(),
{
    if ps.len() == 0 {
        Seq::<char>::empty()
    } else if ps.len() == 1 {
        ps[0]
    } else {
        joined_patterns(ps.drop_last()) + ", "@ + ps.last()
    }
}

/// The first pattern that does not parse, if any.
pub open spec fn first_bad_pattern(ps: Seq<Seq<char>>) -> Option<Seq<char>>
    decreases ps.len(),
{
    if ps.len() == 0 {
        None
    } else if !glob_parses(ps[0]) {
        Some(ps[0])
    } else {
        first_bad_pattern(ps.drop_first())
    }
}

/// The pattern text an error names for a list of patterns that fails to
/// compile: the first unparsable pattern, or all of them joined when the
/// set fails to build. `None` when the list compiles (an empty list always
/// does).
pub open spec fn compile_failure(ps: Seq<Seq<char>>) -> Option<Seq<char>> {
    if ps.len() == 0 {
        None
    } else {
        match first_bad_pattern(ps) {
            Some(p) => Some(p),
            None => if globset_builds(ps) {
                None
            } else {
                Some(joined_patterns(ps))
            },
        }
    }
}

/// Whether the path passes include and exclude patterns: it matches some
/// include pattern (or there are none) and no exclude pattern.
pub open spec fn filter_matches(
    includes: Seq<Seq<char>>,
    exclude: Seq<Seq<char>>,
    path: Seq<char>,
) -> bool {
    (includes.len() == 0 || globset_is_match(includes, path)) && !(exclude.len() > 0
        && globset_is_match(exclude, path))
}

/// Configuration for filtering files during directory operations.
pub struct GlobFilter {
    includes: Vec<String>,
    exclude: Vec<String>,
    include_set: Option<GlobSet>,
    exclude_set: Option<GlobSet>,
}

/// A compiled set is present exactly for a non-empty pattern list, and was
/// built from it.
pub open spec fn set_for(set: Option<GlobSet>, ps: Seq<Seq<char>>) -> bool {
    match set {
        Some(s) => ps.len() > 0 && set_patterns(s) == ps,
        None => ps.len() == 0,
    }
}

/// What a filter's constructor returns for the given patterns.
pub open spec fn filter_built(
    r: Result<GlobFilter, FileSystemError>,
    includes: Seq<Seq<char>>,
    exclude: Seq<Seq<char>>,
) -> bool {
    match compile_failure(includes) {
        Some(p) => r matches Err(FileSystemError::InvalidGlobPattern { pattern, .. }) && pattern@
            == p,
        None => match compile_failure(exclude) {
            Some(p) => r matches Err(FileSystemError::InvalidGlobPattern { pattern, .. })
                && pattern@ == p,
            None => r matches Ok(f) && f.include_view() == includes && f.exclude_view() == exclude,
        },
    }
}

proof fn lemma_first_bad_none(ps: Seq<Seq<char>>)
    ensures
        first_bad_pattern(ps) is None <==> forall|i: int| 0 <= i < ps.len() ==> glob_parses(
            #[trigger] ps[i],
        ),
    decreases ps.len(),
{
    if ps.len() > 0 {
        lemma_first_bad_none(ps.drop_first());
        if glob_parses(ps[0]) && first_bad_pattern(ps.drop_first()) is None {
            assert forall|i: int| 0 <= i < ps.len() implies glob_parses(#[trigger] ps[i]) by {
                if i > 0 {
                    assert(ps[i] == ps.drop_first()[i - 1]);
                }
            }
        }
        if forall|i: int| 0 <= i < ps.len() ==> glob_parses(#[trigger] ps[i]) {
            assert(glob_parses(ps[0]));
            assert forall|i: int| 0 <= i < ps.len() - 1 implies glob_parses(
                #[trigger] ps.drop_first()[i],
            ) by {
                assert(ps.drop_first()[i] == ps[i + 1]);
            }
        }
    }
}

/// Joins patterns with `, `.
fn join_patterns(ps: &Vec<String>) -> (r: String)
    ensures
        r@ == joined_patterns(strs(ps@)),
{
    let ghost v = strs(ps@);
    let mut out: Vec<char> = Vec::new();
    let mut i: usize = 0;
    assert(v.subrange(0, 0) =~= Seq::<Seq<char>>::empty());
    while i < ps.len()
        invariant
            i <= ps.len(),
            v == strs(ps@),
            out@ == joined_patterns(v.subrange(0, i as int)),
        decreases ps.len() - i,
    {
        let ghost before = out@;
        if i > 0 {
            append_str(&mut out, ", ");
        }
        append_str(&mut out, ps[i].as_str());
        proof {
            let t = v.subrange(0, i + 1);
            assert(t.drop_last() =~= v.subrange(0, i as int));
            assert(t.last() == ps@[i as int]@);
            if i == 0 {
                assert(out@ =~= t[0]);
            }
        }
        i = i + 1;
    }
    assert(v.subrange(0, i as int) =~= v);
    string_of(&out)
}

/// Compiles a non-empty pattern list into a set.
fn compile_set(ps: &Vec<String>) -> (r: Result<GlobSet, FileSystemError>)
    requires
        ps.len() > 0,
    ensures
        match compile_failure(strs(ps@)) {
            Some(p) => r matches Err(FileSystemError::InvalidGlobPattern { pattern, .. })
                && pattern@ == p,
            None => r matches Ok(s) && set_patterns(s) == strs(ps@),
        },
{
    let ghost v = strs(ps@);
    let mut builder = builder_new();
    let mut i: usize = 0;
    assert(v.subrange(0, 0) =~= Seq::<Seq<char>>::empty());
    while i < ps.len()
        invariant
            i <= ps.len(),
            v == strs(ps@),
            builder_patterns(builder) == v.subrange(0, i as int),
            forall|j: int| 0 <= j < i ==> glob_parses(#[trigger] v[j]),
        decreases ps.len() - i,
    {
        match glob_new(ps[i].as_str()) {
            Ok(g) => {
                builder_add(&mut builder, g);
                assert(v.subrange(0, i + 1) =~= v.subrange(0, i as int).push(v[i as int]));
            },
            Err(e) => {
                proof {
                    lemma_first_bad_at(v, i as int);
                }
                return Err(
                    FileSystemError::InvalidGlobPattern {
                        pattern: own(ps[i].as_str()),
                        reason: glob_error_text(&e),
                    },
                );
            },
        }
        i = i + 1;
    }
    assert(v.subrange(0, i as int) =~= v);
    proof {
        lemma_first_bad_none(v);
    }
    match builder_build(&builder) {
        Ok(s) => Ok(s),
        Err(e) => Err(
            FileSystemError::InvalidGlobPattern {
                pattern: join_patterns(ps),
                reason: glob_error_text(&e),
            },
        ),
    }
}

/// When every pattern before `i` parses and the one at `i` does not, it is
/// the first that does not.
proof fn lemma_first_bad_at(ps: Seq<Seq<char>>, i: int)
    requires
        0 <= i < ps.len(),
        forall|j: int| 0 <= j < i ==> glob_parses(#[trigger] ps[j]),
        !glob_parses(ps[i]),
    ensures
        first_bad_pattern(ps) == Some(ps[i]),
    decreases i,
{
    if i > 0 {
        assert(glob_parses(ps[0]));
        assert forall|j: int| 0 <= j < i - 1 implies glob_parses(#[trigger] ps.drop_first()[j]) by {
            assert(ps.drop_first()[j] == ps[j + 1]);
        }
        lemma_first_bad_at(ps.drop_first(), i - 1);
    }
}

impl GlobFilter {
    #[verifier::type_invariant]
    spec fn sets_compiled(&self) -> bool {
        &&& set_for(self.include_set, strs(self.includes@))
        &&& set_for(self.exclude_set, strs(self.exclude@))
    }

    /// The include patterns.
    pub closed spec fn include_view(&self) -> Seq<Seq<char>> {
        strs(self.includes@)
    }

    /// The exclude patterns.
    pub closed spec fn exclude_view(&self) -> Seq<Seq<char>> {
        strs(self.exclude@)
    }

    /// Create a new filter with no patterns (matches everything).
    pub fn new() -> (r: Self)
        ensures
            r.include_view().len() == 0,
            r.exclude_view().len() == 0,
    {
        let f = GlobFilter {
            includes: Vec::new(),
            exclude: Vec::new(),
            include_set: None,
            exclude_set: None,
        };
        assert(strs(f.includes@).len() == 0 && strs(f.exclude@).len() == 0);
        f
    }

    /// Create a filter with both include and exclude patterns. Fails with
    /// `InvalidGlobPattern` when a list does not compile (see
    /// `compile_failure`), the include list first.
    pub fn with_patterns(includes: Vec<String>, exclude: Vec<String>) -> (r: Result<
        Self,
        FileSystemError,
    >)
        ensures
            filter_built(r, strs(includes@), strs(exclude@)),
    {
        let include_set = if includes.len() > 0 {
            match compile_set(&includes) {
                Ok(s) => Some(s),
                Err(e) => {
                    return Err(e);
                },
            }
        } else {
            None
        };
        let exclude_set = if exclude.len() > 0 {
            match compile_set(&exclude) {
                Ok(s) => Some(s),
                Err(e) => {
                    return Err(e);
                },
            }
        } else {
            None
        };
        Ok(GlobFilter { includes, exclude, include_set, exclude_set })
    }

    /// Create a filter with include patterns only.
    pub fn include_only(patterns: Vec<String>) -> (r: Result<Self, FileSystemError>)
        ensures
            filter_built(r, strs(patterns@), Seq::empty()),
    {
        let e: Vec<String> = Vec::new();
        assert(strs(e@) =~= Seq::<Seq<char>>::empty());
        GlobFilter::with_patterns(patterns, e)
    }

    /// Create a filter with exclude patterns only.
    pub fn exclude(patterns: Vec<String>) -> (r: Result<Self, FileSystemError>)
        ensures
            filter_built(r, Seq::empty(), strs(patterns@)),
    {
        let e: Vec<String> = Vec::new();
        assert(strs(e@) =~= Seq::<Seq<char>>::empty());
        GlobFilter::with_patterns(e, patterns)
    }

    /// Check if a path matches the filter criteria: it must match an
    /// include pattern (when there are any) and no exclude pattern.
    pub fn matches(&self, path: &str) -> (r: bool)
        ensures
            r == filter_matches(self.include_view(), self.exclude_view(), path@),
    {
        proof {
            use_type_invariant(self);
        }
        let included: bool = match &self.include_set {
            Some(set) => set_is_match(set, path),
            None => true,
        };
        let excluded: bool = match &self.exclude_set {
            Some(set) => set_is_match(set, path),
            None => false,
        };
        included && !excluded
    }

    /// Check if the filter has any patterns.
    pub fn is_empty(&self) -> (r: bool)
        ensures
            r == (self.include_view().len() == 0 && self.exclude_view().len() == 0),
    {
        self.includes.len() == 0 && self.exclude.len() == 0
    }

    /// The include patterns.
    pub fn include_patterns(&self) -> (r: &[String])
        ensures
            strs(r@) == self.include_view(),
    {
        self.includes.as_slice()
    }

    /// The exclude patterns.
    pub fn exclude_patterns(&self) -> (r: &[String])
        ensures
            strs(r@) == self.exclude_view(),
    {
        self.exclude.as_slice()
    }
}

impl Default for GlobFilter {
    fn default() -> (r: Self)
        ensures
            r.include_view().len() == 0,
            r.exclude_view().len() == 0,
    {
        GlobFilter::new()
    }
}

/// A filter without patterns lets every path through.
pub proof fn lemma_empty_filter_matches_all(path: Seq<char>)
    ensures
        filter_matches(Seq::empty(), Seq::empty(), path),
{
}

} // verus!
