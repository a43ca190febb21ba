//! A stable sort by a string key, as `sort_by(|a, b| a.key.cmp(&b.key))`
//! performs it.

use vstd::prelude::*;
use crate::text::{
    chars_lt, chars_of, lemma_lt_asymmetric, lemma_lt_irreflexive, lemma_lt_total,
    lemma_lt_transitive, seq_lt,
};

verus! {

/// Values ordered by a string key.
pub trait Keyed {
    spec fn key_of(&self) -> Seq<char>;

    fn key(&self) -> (r: &str)
        ensures
            r@ == self.key_of(),
    ;
}

/// Keys never decrease along `s`.
pub open spec fn keys_sorted<T: Keyed>(s: Seq<T>) -> bool {
    forall|i: int, j: int|
        0 <= i < j < s.len() ==> !seq_lt(#[trigger] s[j].key_of(), #[trigger] s[i].key_of())
}

/// The items of `s` whose key is `k`, in order.
pub open spec fn with_key<T: Keyed>(s: Seq<T>, k: Seq<char>) -> Seq<T>
    decreases s.len(),
{
    if s.len() == 0 {
        seq![]
    } else if s.last().key_of() == k {
        with_key(s.drop_last(), k).push(s.last())
    } else {
        with_key(s.drop_last(), k)
    }
}

/// `out` is `inp` stably sorted by key: the keys never decrease, and the
/// items of each key are those of `inp`, in their order there.
pub open spec fn stable_sorted_of<T: Keyed>(out: Seq<T>, inp: Seq<T>) -> bool {
    &&& keys_sorted(out)
    &&& out.len() == inp.len()
    &&& forall|k: Seq<char>| #[trigger] with_key(out, k) == with_key(inp, k)
}

pub proof fn lemma_with_key_concat<T: Keyed>(a: Seq<T>, b: Seq<T>, k: Seq<char>)
    ensures
        with_key(a + b, k) == with_key(a, k) + with_key(b, k),
    decreases b.len(),
{
    if b.len() == 0 {
        assert(a + b =~= a);
        assert(with_key(a, k) + with_key(b, k) =~= with_key(a, k));
    } else {
        lemma_with_key_concat(a, b.drop_last(), k);
        assert((a + b).drop_last() =~= a + b.drop_last());
        assert((a + b).last() == b.last());
        if b.last().key_of() == k {
            assert(with_key(a + b, k) =~= with_key(a, k) + with_key(b, k));
        } else {
            assert(with_key(a + b, k) =~= with_key(a, k) + with_key(b, k));
        }
    }
}

proof fn lemma_with_key_none<T: Keyed>(s: Seq<T>, k: Seq<char>)
    requires
        forall|i: int| 0 <= i < s.len() ==> (#[trigger] s[i]).key_of() != k,
    ensures
        with_key(s, k) == Seq::<T>::empty(),
    decreases s.len(),
{
    if s.len() > 0 {
        lemma_with_key_none(s.drop_last(), k);
        assert(s.last() == s[s.len() - 1]);
    }
}

proof fn lemma_insert_keeps<T: Keyed>(out: Seq<T>, x: T, p: int)
    requires
        keys_sorted(out),
        0 <= p <= out.len(),
        forall|i: int| 0 <= i < p ==> !seq_lt(x.key_of(), #[trigger] out[i].key_of()),
        p < out.len() ==> seq_lt(x.key_of(), out[p].key_of()),
    ensures
        keys_sorted(out.insert(p, x)),
        forall|k: Seq<char>|
            #[trigger] with_key(out.insert(p, x), k) == if k == x.key_of() {
                with_key(out, k).push(x)
            } else {
                with_key(out, k)
            },
{
    let kx = x.key_of();
    let n = out.insert(p, x);
    let pre = out.subrange(0, p);
    let post = out.subrange(p, out.len() as int);
    assert(out =~= pre + post);
    assert(n =~= pre + seq![x] + post);
    assert forall|j: int| 0 <= j < post.len() implies seq_lt(kx, #[trigger] post[j].key_of()) by {
        if j > 0 {
            assert(!seq_lt(out[p + j].key_of(), out[p].key_of()));
            lemma_lt_total(out[p + j].key_of(), out[p].key_of());
            if out[p + j].key_of() != out[p].key_of() {
                lemma_lt_transitive(kx, out[p].key_of(), out[p + j].key_of());
            }
        }
    }
    assert forall|i: int, j: int| 0 <= i < j < n.len() implies !seq_lt(
        #[trigger] n[j].key_of(),
        #[trigger] n[i].key_of(),
    ) by {
        if j < p {
            assert(n[i] == out[i] && n[j] == out[j]);
        } else if j == p {
            assert(n[i] == out[i]);
        } else if i < p {
            assert(n[i] == out[i] && n[j] == out[j - 1]);
            assert(!seq_lt(out[j - 1].key_of(), out[i].key_of()));
        } else if i == p {
            assert(n[j] == post[j - 1 - p]);
            assert(seq_lt(kx, post[j - 1 - p].key_of()));
            lemma_lt_asymmetric(kx, post[j - 1 - p].key_of());
        } else {
            assert(n[i] == out[i - 1] && n[j] == out[j - 1]);
        }
    }
    assert forall|k: Seq<char>|
        #[trigger] with_key(n, k) == if k == kx {
            with_key(out, k).push(x)
        } else {
            with_key(out, k)
        } by {
        lemma_with_key_concat(pre + seq![x], post, k);
        lemma_with_key_concat(pre, seq![x], k);
        lemma_with_key_concat(pre, post, k);
        assert(seq![x].drop_last() =~= Seq::<T>::empty());
        assert(seq![x].last() == x);
        assert(with_key(Seq::<T>::empty(), k) == Seq::<T>::empty());
        if k == kx {
            assert(with_key(seq![x], k) =~= seq![x]);
            assert forall|j: int| 0 <= j < post.len() implies (#[trigger] post[j]).key_of() != k by {
                lemma_lt_irreflexive(kx);
            }
            lemma_with_key_none(post, k);
            assert(with_key(n, k) =~= with_key(out, k).push(x));
        } else {
            assert(with_key(seq![x], k) =~= Seq::<T>::empty());
            assert(with_key(n, k) =~= with_key(out, k));
        }
    }
}

/// Sorts `v` by key, keeping the input order of items with equal keys.
pub fn sort_by_key<T: Keyed>(v: Vec<T>) -> (r: Vec<T>)
    ensures
        stable_sorted_of(r@, v@),
{
    let ghost orig = v@;
    let mut rest = v;
    let mut out: Vec<T> = Vec::new();
    let ghost mut i: int = 0;
    assert(orig.skip(0) =~= orig);
    while rest.len() > 0
        invariant
            0 <= i <= orig.len(),
            rest@ == orig.skip(i),
            keys_sorted(out@),
            out@.len() == i,
            forall|k: Seq<char>| #[trigger] with_key(out@, k) == with_key(orig.take(i), k),
        decreases rest@.len(),
    {
        let x = rest.remove(0);
        let kx = chars_of(x.key());
        let mut p: usize = 0;
        while p < out.len() && !chars_lt(&kx, &chars_of(out[p].key()))
            invariant
                p <= out@.len(),
                kx@ == x.key_of(),
                forall|m: int| 0 <= m < p ==> !seq_lt(x.key_of(), #[trigger] out@[m].key_of()),
            decreases out@.len() - p,
        {
            p = p + 1;
        }
        proof {
            lemma_insert_keeps(out@, x, p as int);
            assert(orig.take(i + 1) =~= orig.take(i).push(x));
            assert(orig.take(i + 1).drop_last() =~= orig.take(i));
            assert forall|k: Seq<char>|
                #[trigger] with_key(out@.insert(p as int, x), k) == with_key(orig.take(i + 1), k) by {
            }
            assert(rest@ =~= orig.skip(i + 1));
            i = i + 1;
        }
        out.insert(p, x);
    }
    assert(orig.take(i) =~= orig);
    out
}

} // verus!
