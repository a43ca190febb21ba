//! Sorted, duplicate-free collections of strings, as `BTreeSet<String>`
//! keeps them.

use vstd::prelude::*;
use crate::text::{
    chars_eq, chars_lt, lemma_lt_asymmetric, lemma_lt_irreflexive, lemma_lt_total,
    lemma_lt_transitive, seq_lt, string_of,
};

verus! {

/// The character sequences held by a vector of character vectors.
pub open spec fn char_views(v: Seq<Vec<char>>) -> Seq<Seq<char>> {
    v.map_values(|x: Vec<char>| x@)
}

/// The character sequences held by a vector of strings.
pub open spec fn string_views(v: Seq<String>) -> Seq<Seq<char>> {
    v.map_values(|x: String| x@)
}

/// Strictly increasing in the order of `String`: sorted, no duplicates.
pub open spec fn strictly_sorted(s: Seq<Seq<char>>) -> bool {
    forall|i: int, j: int| 0 <= i < j < s.len() ==> seq_lt(#[trigger] s[i], #[trigger] s[j])
}

/// Inserts `k` into the strictly sorted `keys` unless it is already there.
pub fn insert_sorted(keys: &mut Vec<Vec<char>>, k: Vec<char>)
    requires
        strictly_sorted(char_views(old(keys)@)),
    ensures
        strictly_sorted(char_views(final(keys)@)),
        forall|x: Seq<char>|
            char_views(final(keys)@).contains(x) <==> (char_views(old(keys)@).contains(x) || x
                == k@),
{
    let ghost old_v = char_views(keys@);
    let mut i: usize = 0;
    while i < keys.len() && chars_lt(&keys[i], &k)
        invariant
            i <= keys@.len(),
            char_views(keys@) == old_v,
            strictly_sorted(old_v),
            forall|j: int| 0 <= j < i ==> seq_lt(#[trigger] old_v[j], k@),
        decreases keys@.len() - i,
    {
        i = i + 1;
    }
    if i < keys.len() && chars_eq(&keys[i], &k) {
        assert(old_v[i as int] == k@);
        assert(forall|x: Seq<char>| old_v.contains(x) || x == k@ ==> old_v.contains(x));
        return;
    }
    let ghost kv = k@;
    proof {
        if i < old_v.len() {
            lemma_lt_total(old_v[i as int], kv);
            assert(seq_lt(kv, old_v[i as int]));
            assert forall|j: int| i <= j < old_v.len() implies seq_lt(kv, #[trigger] old_v[j]) by {
                if j > i {
                    lemma_lt_transitive(kv, old_v[i as int], old_v[j]);
                }
            }
        }
    }
    keys.insert(i, k);
    let ghost nv = char_views(keys@);
    assert(nv =~= old_v.subrange(0, i as int).push(kv) + old_v.subrange(i as int, old_v.len() as int));
    assert forall|a: int, b: int| 0 <= a < b < nv.len() implies seq_lt(#[trigger] nv[a], #[trigger] nv[b]) by {
        if b < i {
        } else if b == i {
        } else if a < i {
            assert(nv[b] == old_v[b - 1]);
            assert(seq_lt(kv, old_v[b - 1]));
            lemma_lt_transitive(nv[a], kv, nv[b]);
        } else if a == i {
            assert(nv[b] == old_v[b - 1]);
        } else {
            assert(nv[a] == old_v[a - 1]);
            assert(nv[b] == old_v[b - 1]);
        }
    }
    assert forall|x: Seq<char>| nv.contains(x) <==> (old_v.contains(x) || x == kv) by {
        if nv.contains(x) {
            let j = choose|j: int| 0 <= j < nv.len() && nv[j] == x;
            if j < i {
                assert(old_v[j] == x);
            } else if j > i {
                assert(old_v[j - 1] == x);
            }
        }
        if old_v.contains(x) {
            let j = choose|j: int| 0 <= j < old_v.len() && old_v[j] == x;
            if j < i {
                assert(nv[j] == x);
            } else {
                assert(nv[j + 1] == x);
            }
        }
        if x == kv {
            assert(nv[i as int] == x);
        }
    }
}

/// The strings made of the given character vectors, in the same order.
pub fn to_strings(keys: &Vec<Vec<char>>) -> (out: Vec<String>)
    ensures
        string_views(out@) == char_views(keys@),
{
    let mut out: Vec<String> = Vec::new();
    let mut i: usize = 0;
    while i < keys.len()
        invariant
            i <= keys@.len(),
            string_views(out@) == char_views(keys@).take(i as int),
        decreases keys@.len() - i,
    {
        let s = string_of(&keys[i], 0, keys[i].len());
        assert(keys@[i as int]@.subrange(0, keys@[i as int]@.len() as int) =~= keys@[i as int]@);
        let ghost before = out@;
        out.push(s);
        assert(out@ == before.push(s));
        assert(string_views(out@) =~= string_views(before).push(keys@[i as int]@));
        assert(string_views(out@) =~= char_views(keys@).take(i + 1));
        i = i + 1;
    }
    assert(char_views(keys@).take(keys@.len() as int) =~= char_views(keys@));
    out
}


/// The names that are present, in order.
pub open spec fn present_names(s: Seq<Option<String>>) -> Seq<Seq<char>>
    decreases s.len(),
{
    if s.len() == 0 {
        seq![]
    } else {
        match s.last() {
            Some(n) => present_names(s.drop_last()).push(n@),
            None => present_names(s.drop_last()),
        }
    }
}

/// The names that are present, in order (`filter_map` of the options).
pub fn names_present(names: Vec<Option<String>>) -> (r: Vec<String>)
    ensures
        string_views(r@) == present_names(names@),
{
    let ghost orig = names@;
    let mut rest = names;
    let mut out: Vec<String> = Vec::new();
    let ghost mut i: int = 0;
    assert(orig.skip(0) =~= orig);
    while rest.len() > 0
        invariant
            0 <= i <= orig.len(),
            rest@ == orig.skip(i),
            string_views(out@) == present_names(orig.take(i)),
        decreases rest@.len(),
    {
        let o = rest.remove(0);
        let ghost before = out@;
        proof {
            assert(o == orig[i]);
            assert(rest@ =~= orig.skip(i + 1));
            assert(orig.take(i + 1).drop_last() =~= orig.take(i));
            assert(orig.take(i + 1).last() == o);
        }
        match o {
            Some(n) => {
                out.push(n);
                assert(string_views(out@) =~= string_views(before).push(out@.last()@));
            },
            None => {},
        }
        proof {
            i = i + 1;
        }
    }
    assert(orig.take(i) =~= orig);
    out
}


/// A strictly sorted sequence is fixed by its elements: two that hold the
/// same strings are equal.
pub proof fn lemma_strictly_sorted_unique(a: Seq<Seq<char>>, b: Seq<Seq<char>>)
    requires
        strictly_sorted(a),
        strictly_sorted(b),
        forall|k: Seq<char>| a.contains(k) == b.contains(k),
    ensures
        a == b,
    decreases a.len() + b.len(),
{
    if a.len() == 0 {
        if b.len() > 0 {
            assert(b.contains(b[0]));
        }
        assert(a =~= b);
    } else if b.len() == 0 {
        assert(a.contains(a[0]));
    } else {
        assert(a.contains(a[0]));
        assert(b.contains(b[0]));
        let j = choose|j: int| 0 <= j < b.len() && b[j] == a[0];
        let i = choose|i: int| 0 <= i < a.len() && a[i] == b[0];
        if a[0] != b[0] {
            assert(j > 0 && i > 0);
            assert(seq_lt(b[0], b[j]));
            assert(seq_lt(a[0], a[i]));
            lemma_lt_asymmetric(a[0], b[0]);
        }
        let a1 = a.drop_first();
        let b1 = b.drop_first();
        assert forall|k: Seq<char>| a1.contains(k) == b1.contains(k) by {
            if a1.contains(k) {
                let x = choose|x: int| 0 <= x < a1.len() && a1[x] == k;
                assert(a[x + 1] == k);
                assert(seq_lt(a[0], k));
                lemma_lt_irreflexive(k);
                assert(b.contains(k));
                let y = choose|y: int| 0 <= y < b.len() && b[y] == k;
                assert(y != 0);
                assert(b1[y - 1] == k);
            }
            if b1.contains(k) {
                let x = choose|x: int| 0 <= x < b1.len() && b1[x] == k;
                assert(b[x + 1] == k);
                assert(seq_lt(b[0], k));
                lemma_lt_irreflexive(k);
                assert(a.contains(k));
                let y = choose|y: int| 0 <= y < a.len() && a[y] == k;
                assert(y != 0);
                assert(a1[y - 1] == k);
            }
        }
        assert(strictly_sorted(a1)) by {
            assert forall|x: int, y: int| 0 <= x < y < a1.len() implies seq_lt(
                #[trigger] a1[x],
                #[trigger] a1[y],
            ) by {
                assert(a1[x] == a[x + 1] && a1[y] == a[y + 1]);
            }
        }
        assert(strictly_sorted(b1)) by {
            assert forall|x: int, y: int| 0 <= x < y < b1.len() implies seq_lt(
                #[trigger] b1[x],
                #[trigger] b1[y],
            ) by {
                assert(b1[x] == b[x + 1] && b1[y] == b[y + 1]);
            }
        }
        lemma_strictly_sorted_unique(a1, b1);
        assert(a =~= seq![a[0]] + a1);
        assert(b =~= seq![b[0]] + b1);
    }
}

} // verus!
