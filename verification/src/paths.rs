//! Paths as strings, with the two operations of `std::path` that the tool
//! relies on: joining and comparing by components (Unix separators).

use vstd::prelude::*;
use crate::text::{
    chars_eq, chars_of, find_char, find_char_exec, lemma_find_char_bounds, push_str_chars,
    slice_chars,
};

verus! {

/// `Path::join`: an absolute `rel` replaces `base`; otherwise `rel` is
/// appended, with a `/` between unless `base` is empty or already ends
/// with one.
pub open spec fn path_join(base: Seq<char>, rel: Seq<char>) -> Seq<char> {
    if rel.len() > 0 && rel[0] == '/' {
        rel
    } else if base.len() == 0 || base.last() == '/' {
        base + rel
    } else {
        base + seq!['/'] + rel
    }
}

/// Joins `rel` onto `base` as `Path::join` does.
pub fn join(base: &str, rel: &str) -> (r: String)
    ensures
        r@ == path_join(base@, rel@),
{
    let b = chars_of(base);
    let p = chars_of(rel);
    let mut r = String::new();
    if p.len() > 0 && p[0] == '/' {
        push_str_chars(&mut r, rel);
        return r;
    }
    push_str_chars(&mut r, base);
    if !(b.len() == 0 || b[b.len() - 1] == '/') {
        push_str_chars(&mut r, "/");
        proof {
            reveal_strlit("/");
        }
    }
    push_str_chars(&mut r, rel);
    r
}

/// The normal components of `s[i..]`: the pieces between `/`, without
/// empty pieces and `.`.
pub open spec fn comps_from(s: Seq<char>, i: int) -> Seq<Seq<char>>
    decreases s.len() - i,
{
    if i < 0 || i >= s.len() {
        seq![]
    } else if s[i] == '/' {
        comps_from(s, i + 1)
    } else {
        let j = find_char(s, '/', i);
        proof {
            lemma_find_char_bounds(s, '/', i);
        }
        if s.subrange(i, j) == seq!['.'] {
            comps_from(s, j)
        } else {
            seq![s.subrange(i, j)] + comps_from(s, j)
        }
    }
}

/// `Path::components`: a root `/` when the path is absolute, a leading `.`
/// when it starts with one, then the normal components.
pub open spec fn components(s: Seq<char>) -> Seq<Seq<char>> {
    if s.len() > 0 && s[0] == '/' {
        seq![seq!['/']] + comps_from(s, 1)
    } else if s.len() > 0 && s[0] == '.' && (s.len() == 1 || s[1] == '/') {
        seq![seq!['.']] + comps_from(s, 1)
    } else {
        comps_from(s, 0)
    }
}

fn comps_from_exec(cs: &Vec<char>, i: usize, out: &mut Vec<Vec<char>>)
    requires
        i <= cs@.len(),
    ensures
        final(out)@.len() == old(out)@.len() + comps_from(cs@, i as int).len(),
        forall|k: int| 0 <= k < old(out)@.len() ==> (#[trigger] final(out)@[k])@ == old(out)@[k]@,
        forall|k: int|
            0 <= k < comps_from(cs@, i as int).len() ==> (#[trigger] final(out)@[old(out)@.len()
                + k])@ == comps_from(cs@, i as int)[k],
{
    let ghost start = out@;
    let ghost total = comps_from(cs@, i as int);
    let ghost mut done: Seq<Seq<char>> = seq![];
    let mut k = i;
    while k < cs.len()
        invariant
            i <= k <= cs@.len(),
            total == comps_from(cs@, i as int),
            total == done + comps_from(cs@, k as int),
            out@.len() == start.len() + done.len(),
            forall|m: int| 0 <= m < start.len() ==> (#[trigger] out@[m])@ == start[m]@,
            forall|m: int| 0 <= m < done.len() ==> (#[trigger] out@[start.len() + m])@ == done[m],
        decreases cs@.len() - k,
    {
        if cs[k] == '/' {
            k = k + 1;
        } else {
            let j = find_char_exec(cs, '/', k);
            proof {
                lemma_find_char_bounds(cs@, '/', k as int);
            }
            let piece = slice_chars(cs, k, j);
            let is_dot = piece.len() == 1 && piece[0] == '.';
            assert(is_dot == (cs@.subrange(k as int, j as int) == seq!['.'])) by {
                if piece@.len() == 1 && piece@[0] == '.' {
                    assert(piece@ =~= seq!['.']);
                }
            }
            if !is_dot {
                out.push(piece);
                proof {
                    assert(seq![cs@.subrange(k as int, j as int)] + comps_from(cs@, j as int)
                        =~= comps_from(cs@, k as int));
                    done = done.push(cs@.subrange(k as int, j as int));
                    assert(total =~= done + comps_from(cs@, j as int));
                }
            }
            k = j;
        }
    }
    assert(total =~= done);
}

/// The components of a path (see [`components`]).
pub fn path_components(path: &str) -> (r: Vec<Vec<char>>)
    ensures
        r@.len() == components(path@).len(),
        forall|k: int| 0 <= k < r@.len() ==> (#[trigger] r@[k])@ == components(path@)[k],
{
    let cs = chars_of(path);
    let mut out: Vec<Vec<char>> = Vec::new();
    if cs.len() > 0 && cs[0] == '/' {
        let root = vec!['/'];
        assert(root@ =~= seq!['/']);
        out.push(root);
        comps_from_exec(&cs, 1, &mut out);
        assert forall|k: int| 0 <= k < out@.len() implies (#[trigger] out@[k])@ == components(
            path@,
        )[k] by {
            if k > 0 {
                assert(out@[1 + (k - 1)]@ == comps_from(cs@, 1)[k - 1]);
            }
        }
    } else if cs.len() > 0 && cs[0] == '.' && (cs.len() == 1 || cs[1] == '/') {
        let cur = vec!['.'];
        assert(cur@ =~= seq!['.']);
        out.push(cur);
        comps_from_exec(&cs, 1, &mut out);
        assert forall|k: int| 0 <= k < out@.len() implies (#[trigger] out@[k])@ == components(
            path@,
        )[k] by {
            if k > 0 {
                assert(out@[1 + (k - 1)]@ == comps_from(cs@, 1)[k - 1]);
            }
        }
    } else {
        comps_from_exec(&cs, 0, &mut out);
        assert forall|k: int| 0 <= k < out@.len() implies (#[trigger] out@[k])@ == components(
            path@,
        )[k] by {
            assert(out@[0 + k]@ == comps_from(cs@, 0)[k]);
        }
    }
    out
}

/// `Path::starts_with`: the components of `base` begin those of `path`.
pub open spec fn path_starts_with(path: Seq<char>, base: Seq<char>) -> bool {
    let a = components(path);
    let b = components(base);
    b.len() <= a.len() && a.take(b.len() as int) == b
}

/// Whether `base` is `path` or one of its ancestors, by components.
pub fn starts_with(path: &str, base: &str) -> (r: bool)
    ensures
        r == path_starts_with(path@, base@),
{
    let a = path_components(path);
    let b = path_components(base);
    if b.len() > a.len() {
        return false;
    }
    let mut k: usize = 0;
    while k < b.len()
        invariant
            k <= b@.len() <= a@.len(),
            a@.len() == components(path@).len(),
            b@.len() == components(base@).len(),
            forall|m: int| 0 <= m < a@.len() ==> (#[trigger] a@[m])@ == components(path@)[m],
            forall|m: int| 0 <= m < b@.len() ==> (#[trigger] b@[m])@ == components(base@)[m],
            forall|m: int| 0 <= m < k ==> components(path@)[m] == components(base@)[m],
        decreases b@.len() - k,
    {
        if !chars_eq(&a[k], &b[k]) {
            assert(components(path@).take(b@.len() as int)[k as int] != components(base@)[k as int]);
            return false;
        }
        k = k + 1;
    }
    assert(components(path@).take(b@.len() as int) =~= components(base@));
    true
}

/// The number of components of a path.
pub fn component_count(path: &str) -> (r: usize)
    ensures
        r == components(path@).len(),
{
    path_components(path).len()
}


/// `Path::file_name`: the last component when it is a normal one (not the
/// root, `.` or `..`).
pub open spec fn file_name_spec(path: Seq<char>) -> Option<Seq<char>> {
    let c = components(path);
    if c.len() > 0 && c.last() != seq!['/'] && c.last() != seq!['.'] && c.last() != seq![
        '.',
        '.',
    ] {
        Some(c.last())
    } else {
        None
    }
}

/// The last component of `path`, when it is a normal one.
pub fn file_name(path: &str) -> (r: Option<String>)
    ensures
        match r {
            Some(n) => file_name_spec(path@) == Some(n@),
            None => file_name_spec(path@) is None,
        },
{
    let cs = path_components(path);
    let n = cs.len();
    if n == 0 {
        return None;
    }
    let last = &cs[n - 1];
    let root = vec!['/'];
    let cur = vec!['.'];
    let parent = vec!['.', '.'];
    assert(root@ =~= seq!['/']);
    assert(cur@ =~= seq!['.']);
    assert(parent@ =~= seq!['.', '.']);
    if chars_eq(last, &root) || chars_eq(last, &cur) || chars_eq(last, &parent) {
        return None;
    }
    let mut r = String::new();
    crate::text::push_chars(&mut r, last, 0, last.len());
    assert(last@.subrange(0, last@.len() as int) =~= last@);
    Some(r)
}

} // verus!
