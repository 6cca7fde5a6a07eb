//! The machine identifier.

use vstd::prelude::*;

use crate::hash_upload::is_unicode_space;
use crate::text::{chars_of, own, string_of};

verus! {

/// The text with white space removed at both ends (what `str::trim`
/// gives).
pub open spec fn trimmed(s: Seq<char>) -> Seq<char>
    decreases s.len(),
{
    if s.len() > 0 && is_unicode_space(s[0]) {
        trimmed(s.drop_first())
    } else if s.len() > 0 && is_unicode_space(s.last()) {
        trimmed(s.drop_last())
    } else {
        s
    }
}

fn is_space(c: char) -> (r: bool)
    ensures
        r == is_unicode_space(c),
{
    let u = c as u32;
    (9 <= u && u <= 13) || u == 32 || u == 0x85 || u == 0xA0 || u == 0x1680 || (0x2000 <= u && u
        <= 0x200A) || u == 0x2028 || u == 0x2029 || u == 0x202F || u == 0x205F || u == 0x3000
}

/// Trims white space at both ends.
pub fn trim_text(s: &str) -> (r: String)
    ensures
        r@ == trimmed(s@),
{
    let c = chars_of(s);
    let mut lo: usize = 0;
    let mut hi: usize = c.len();
    assert(c@.subrange(0, c@.len() as int) =~= c@);
    while lo < hi && is_space(c[lo])
        invariant
            lo <= hi <= c.len(),
            hi == c.len(),
            trimmed(c@) == trimmed(c@.subrange(lo as int, hi as int)),
        decreases hi - lo,
    {
        assert(c@.subrange(lo as int, hi as int).drop_first() =~= c@.subrange(lo + 1, hi as int));
        lo = lo + 1;
    }
    while lo < hi && is_space(c[hi - 1])
        invariant
            lo <= hi <= c.len(),
            lo < hi ==> !is_unicode_space(c@[lo as int]),
            trimmed(c@) == trimmed(c@.subrange(lo as int, hi as int)),
        decreases hi - lo,
    {
        let ghost s = c@.subrange(lo as int, hi as int);
        assert(s[0] == c@[lo as int]);
        assert(s.last() == c@[hi - 1]);
        assert(s.drop_last() =~= c@.subrange(lo as int, hi - 1));
        hi = hi - 1;
    }
    let mut out: Vec<char> = Vec::new();
    let mut k: usize = lo;
    assert(c@.subrange(lo as int, lo as int) =~= Seq::<char>::empty());
    while k < hi
        invariant
            lo <= k <= hi <= c.len(),
            out@ == c@.subrange(lo as int, k as int),
        decreases hi - k,
    {
        out.push(c[k]);
        assert(c@.subrange(lo as int, k + 1) =~= c@.subrange(lo as int, k as int).push(c@[k as int]));
        k = k + 1;
    }
    proof {
        let s = c@.subrange(lo as int, hi as int);
        if s.len() > 0 {
            assert(s[0] == c@[lo as int]);
            assert(s.last() == c@[hi - 1]);
        }
    }
    string_of(&out)
}

/// The identifier used when none can be read.
pub const UNKNOWN_MACHINE_ID: &'static str = "unknown-machine-id";

/// The machine identifier from the contents of the machine-id file, if it
/// could be read: the trimmed contents, or `unknown-machine-id` when they
/// are missing or blank.
pub fn machine_id_from(contents: Option<&str>) -> (r: String)
    ensures
        r@ == match contents {
            Some(c) => if trimmed(c@).len() > 0 {
                trimmed(c@)
            } else {
                UNKNOWN_MACHINE_ID@
            },
            None => UNKNOWN_MACHINE_ID@,
        },
{
    match contents {
        Some(c) => {
            let t = trim_text(c);
            if t.as_str().unicode_len() > 0 {
                t
            } else {
                own(UNKNOWN_MACHINE_ID)
            }
        },
        None => own(UNKNOWN_MACHINE_ID),
    }
}

} // verus!
