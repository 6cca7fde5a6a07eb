//! Tables keyed by text, with the insertion rule of a map: inserting a key
//! that is present replaces its value in place, a new key goes last.

use vstd::prelude::*;

verus! {

/// The keys of a table.
pub open spec fn table_keys<V>(t: Seq<(String, V)>) -> Seq<Seq<char>> {
    Seq::new(t.len(), |i: int| t[i].0@)
}

/// The position of a key in a table (the last one holding it), or -1.
pub open spec fn key_pos<V>(t: Seq<(String, V)>, k: Seq<char>) -> int
    decreases t.len(),
{
    if t.len() == 0 {
        -1
    } else if t.last().0@ == k {
        t.len() - 1
    } else {
        key_pos(t.drop_last(), k)
    }
}

/// No key occurs twice.
pub open spec fn unique_keys<V>(t: Seq<(String, V)>) -> bool {
    forall|i: int, j: int| 0 <= i < j < t.len() ==> (#[trigger] t[i]).0@ != (#[trigger] t[j]).0@
}

/// Whether the table holds the key.
pub open spec fn has_key<V>(t: Seq<(String, V)>, k: Seq<char>) -> bool {
    exists|i: int| 0 <= i < t.len() && (#[trigger] t[i]).0@ == k
}

pub proof fn lemma_key_pos<V>(t: Seq<(String, V)>, k: Seq<char>)
    ensures
        -1 <= key_pos(t, k) < t.len(),
        key_pos(t, k) >= 0 ==> t[key_pos(t, k)].0@ == k,
        key_pos(t, k) == -1 <==> !has_key(t, k),
        unique_keys(t) && key_pos(t, k) >= 0 ==> forall|i: int|
            0 <= i < t.len() && (#[trigger] t[i]).0@ == k ==> i == key_pos(t, k),
    decreases t.len(),
{
    if t.len() > 0 {
        if t.last().0@ != k {
            lemma_key_pos(t.drop_last(), k);
            assert forall|i: int| 0 <= i < t.len() - 1 implies t[i] == t.drop_last()[i] by {}
            if has_key(t, k) {
                let i = choose|i: int| 0 <= i < t.len() && (#[trigger] t[i]).0@ == k;
                assert(t.drop_last()[i].0@ == k);
            }
            if has_key(t.drop_last(), k) {
                let i = choose|i: int| 0 <= i < t.len() - 1 && (#[trigger] t.drop_last()[i]).0@ == k;
                assert(t[i].0@ == k);
            }
            if unique_keys(t) {
                assert(unique_keys(t.drop_last()));
            }
        } else {
            assert(t[t.len() - 1].0@ == k);
        }
    }
}

/// Inserts a key with a value: replaces the value where the key is, or
/// appends the pair.
pub open spec fn keyed_insert<V>(t: Seq<(String, V)>, k: String, v: V) -> Seq<(String, V)> {
    let p = key_pos(t, k@);
    if p >= 0 {
        t.update(p, (k, v))
    } else {
        t.push((k, v))
    }
}

/// Inserting keeps the keys unique.
pub proof fn lemma_insert_unique<V>(t: Seq<(String, V)>, k: String, v: V)
    requires
        unique_keys(t),
    ensures
        unique_keys(keyed_insert(t, k, v)),
        has_key(keyed_insert(t, k, v), k@),
        forall|x: Seq<char>| #[trigger] has_key(keyed_insert(t, k, v), x) <==> has_key(t, x) || x == k@,
{
    lemma_key_pos(t, k@);
    let r = keyed_insert(t, k, v);
    let p = key_pos(t, k@);
    if p >= 0 {
        assert(r[p].0@ == k@);
        assert forall|x: Seq<char>| #[trigger] has_key(r, x) <==> has_key(t, x) || x == k@ by {
            if has_key(r, x) {
                let i = choose|i: int| 0 <= i < r.len() && (#[trigger] r[i]).0@ == x;
                if i != p {
                    assert(t[i].0@ == x);
                }
            }
            if has_key(t, x) {
                let i = choose|i: int| 0 <= i < t.len() && (#[trigger] t[i]).0@ == x;
                if i != p {
                    assert(r[i].0@ == x);
                } else {
                    assert(r[p].0@ == x);
                }
            }
        }
    } else {
        assert(r[t.len() as int].0@ == k@);
        assert forall|i: int, j: int| 0 <= i < j < r.len() implies (#[trigger] r[i]).0@
            != (#[trigger] r[j]).0@ by {
            if j == t.len() {
                assert(t[i].0@ != k@) by {
                    if t[i].0@ == k@ {
                        assert(has_key(t, k@));
                    }
                }
            }
        }
        assert forall|x: Seq<char>| #[trigger] has_key(r, x) <==> has_key(t, x) || x == k@ by {
            if has_key(r, x) {
                let i = choose|i: int| 0 <= i < r.len() && (#[trigger] r[i]).0@ == x;
                if i < t.len() {
                    assert(t[i].0@ == x);
                }
            }
            if has_key(t, x) {
                let i = choose|i: int| 0 <= i < t.len() && (#[trigger] t[i]).0@ == x;
                assert(r[i].0@ == x);
            }
        }
    }
}

/// The position of a key in a table, searching from the end.
pub fn find_key<V>(t: &Vec<(String, V)>, k: &str) -> (r: Option<usize>)
    ensures
        match r {
            Some(p) => p as int == key_pos(t@, k@),
            None => key_pos(t@, k@) == -1,
        },
{
    let mut i: usize = t.len();
    assert(t@.subrange(0, i as int) =~= t@);
    while i > 0
        invariant
            i <= t.len(),
            key_pos(t@, k@) == key_pos(t@.subrange(0, i as int), k@),
        decreases i,
    {
        let ghost s = t@.subrange(0, i as int);
        assert(s.last() == t@[i - 1]);
        if crate::text::str_eq(t[i - 1].0.as_str(), k) {
            return Some(i - 1);
        }
        assert(s.drop_last() =~= t@.subrange(0, i - 1));
        i = i - 1;
    }
    None
}

/// Inserts a key with a value as a map does.
pub fn insert_keyed<V>(t: &mut Vec<(String, V)>, k: String, v: V)
    ensures
        final(t)@ == keyed_insert(old(t)@, k, v),
{
    match find_key(t, k.as_str()) {
        Some(p) => {
            proof {
                lemma_key_pos(t@, k@);
            }
            t.set(p, (k, v));
        },
        None => {
            t.push((k, v));
        },
    }
}

} // verus!
