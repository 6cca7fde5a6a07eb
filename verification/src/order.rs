//! Lexicographic ordering of text by code point (the order `String`'s
//! `Ord` gives, since UTF-8 preserves code point order).

use vstd::prelude::*;

use crate::text::chars_of;

verus! {

/// Three-way lexicographic comparison of character sequences: -1, 0 or 1.
pub open spec fn str_order(a: Seq<char>, b: Seq<char>) -> int
    decreases a.len(),
{
    if a.len() == 0 {
        if b.len() == 0 {
            0
        } else {
            -1
        }
    } else if b.len() == 0 {
        1
    } else if (a[0] as int) < (b[0] as int) {
        -1
    } else if (a[0] as int) > (b[0] as int) {
        1
    } else {
        str_order(a.drop_first(), b.drop_first())
    }
}

/// Comparison of optional text: `None` comes first.
pub open spec fn opt_str_order(a: Option<Seq<char>>, b: Option<Seq<char>>) -> int {
    match (a, b) {
        (None, None) => 0,
        (None, Some(_)) => -1,
        (Some(_), None) => 1,
        (Some(x), Some(y)) => str_order(x, y),
    }
}

pub proof fn lemma_str_order_range(a: Seq<char>, b: Seq<char>)
    ensures
        -1 <= str_order(a, b) <= 1,
    decreases a.len(),
{
    if a.len() > 0 && b.len() > 0 && a[0] == b[0] {
        lemma_str_order_range(a.drop_first(), b.drop_first());
    }
}

pub proof fn lemma_str_order_antisym(a: Seq<char>, b: Seq<char>)
    ensures
        str_order(a, b) == -str_order(b, a),
        (str_order(a, b) == 0) == (a == b),
    decreases a.len(),
{
    if a.len() > 0 && b.len() > 0 {
        if a[0] == b[0] {
            lemma_str_order_antisym(a.drop_first(), b.drop_first());
            if a.drop_first() == b.drop_first() {
                assert(a =~= seq![a[0]] + a.drop_first());
                assert(b =~= seq![b[0]] + b.drop_first());
            }
            if a == b {
                assert(a.drop_first() =~= b.drop_first());
            }
        } else {
            assert((a[0] as int) != (b[0] as int));
        }
    } else if a.len() == 0 && b.len() == 0 {
        assert(a =~= b);
    }
}

pub proof fn lemma_str_order_trans(a: Seq<char>, b: Seq<char>, c: Seq<char>)
    requires
        str_order(a, b) <= 0,
        str_order(b, c) <= 0,
    ensures
        str_order(a, c) <= 0,
        str_order(a, b) < 0 || str_order(b, c) < 0 ==> str_order(a, c) < 0,
    decreases a.len(),
{
    if a.len() > 0 && b.len() > 0 && c.len() > 0 {
        if a[0] == b[0] && b[0] == c[0] {
            lemma_str_order_trans(a.drop_first(), b.drop_first(), c.drop_first());
        }
    }
}

/// Three-way comparison of two strings by code point.
pub fn compare_str(a: &str, b: &str) -> (r: i8)
    ensures
        r as int == str_order(a@, b@),
{
    let x = chars_of(a);
    let y = chars_of(b);
    let mut i: usize = 0;
    assert(a@.skip(0) =~= a@ && b@.skip(0) =~= b@);
    while i < x.len() && i < y.len()
        invariant
            i <= x.len(),
            i <= y.len(),
            x@ == a@,
            y@ == b@,
            str_order(a@, b@) == str_order(a@.skip(i as int), b@.skip(i as int)),
        decreases x.len() - i,
    {
        let c = x[i];
        let d = y[i];
        let ghost sa = a@.skip(i as int);
        let ghost sb = b@.skip(i as int);
        assert(sa[0] == c && sb[0] == d);
        if c < d {
            return -1;
        }
        if c > d {
            return 1;
        }
        assert(sa.drop_first() =~= a@.skip(i + 1));
        assert(sb.drop_first() =~= b@.skip(i + 1));
        i = i + 1;
    }
    if x.len() == i && y.len() == i {
        assert(a@.skip(i as int).len() == 0 && b@.skip(i as int).len() == 0);
        0
    } else if x.len() == i {
        -1
    } else {
        1
    }
}

/// Three-way comparison of optional strings (`None` first).
pub fn compare_opt_str(a: &Option<String>, b: &Option<String>) -> (r: i8)
    ensures
        r as int == opt_str_order(
            match a {
                Some(s) => Some(s@),
                None => None,
            },
            match b {
                Some(s) => Some(s@),
                None => None,
            },
        ),
{
    match (a, b) {
        (None, None) => 0,
        (None, Some(_)) => -1,
        (Some(_), None) => 1,
        (Some(x), Some(y)) => compare_str(x.as_str(), y.as_str()),
    }
}

pub proof fn lemma_opt_str_order_antisym(a: Option<Seq<char>>, b: Option<Seq<char>>)
    ensures
        opt_str_order(a, b) == -opt_str_order(b, a),
        (opt_str_order(a, b) == 0) == (a == b),
{
    match (a, b) {
        (Some(x), Some(y)) => {
            lemma_str_order_antisym(x, y);
        },
        _ => {},
    }
}

pub proof fn lemma_opt_str_order_trans(
    a: Option<Seq<char>>,
    b: Option<Seq<char>>,
    c: Option<Seq<char>>,
)
    requires
        opt_str_order(a, b) <= 0,
        opt_str_order(b, c) <= 0,
    ensures
        opt_str_order(a, c) <= 0,
{
    match (a, b, c) {
        (Some(x), Some(y), Some(z)) => {
            lemma_str_order_trans(x, y, z);
        },
        _ => {},
    }
}

/// Lexicographic order on (text, optional text) pairs: -1, 0 or 1.
pub open spec fn pair_order(
    a: Seq<char>,
    an: Option<Seq<char>>,
    b: Seq<char>,
    bn: Option<Seq<char>>,
) -> int {
    let c = str_order(a, b);
    if c != 0 {
        c
    } else {
        opt_str_order(an, bn)
    }
}

pub proof fn lemma_pair_order_antisym(
    a: Seq<char>,
    an: Option<Seq<char>>,
    b: Seq<char>,
    bn: Option<Seq<char>>,
)
    ensures
        pair_order(a, an, b, bn) == -pair_order(b, bn, a, an),
{
    lemma_str_order_antisym(a, b);
    lemma_opt_str_order_antisym(an, bn);
}

pub proof fn lemma_pair_order_trans(
    a: Seq<char>,
    an: Option<Seq<char>>,
    b: Seq<char>,
    bn: Option<Seq<char>>,
    c: Seq<char>,
    cn: Option<Seq<char>>,
)
    requires
        pair_order(a, an, b, bn) <= 0,
        pair_order(b, bn, c, cn) <= 0,
    ensures
        pair_order(a, an, c, cn) <= 0,
{
    lemma_str_order_antisym(a, b);
    lemma_str_order_antisym(b, c);
    lemma_str_order_antisym(a, c);
    lemma_str_order_range(a, b);
    lemma_str_order_range(b, c);
    if str_order(a, b) <= 0 && str_order(b, c) <= 0 {
        lemma_str_order_trans(a, b, c);
    }
    if str_order(a, b) == 0 && str_order(b, c) == 0 {
        lemma_opt_str_order_trans(an, bn, cn);
    }
}

} // verus!
