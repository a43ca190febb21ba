//! The session file: what [`render_exports`](crate::role::render_exports)
//! writes is what [`parse_output`](crate::role::parse_output) reads back.

use vstd::prelude::*;
use crate::role::{
    export_line, export_word, has_key, is_name_char, is_name_start, lemma_pairs_map_at, name_end,
    needs_escape, pairs_map, parse_echo, parse_export, parse_lines, parse_output_spec, parse_step,
    quote_close, render_exports_spec, shell_escape, tail_ok, unescape_spec, unique_keys,
};
use crate::text::{
    all_space, is_space, lemma_lines_concat, lemma_lines_single, lemma_skip_space_at, lines,
    skip_space,
};

verus! {

/// A variable name: `[A-Z_][A-Z0-9_]*`.
pub open spec fn is_var_name(k: Seq<char>) -> bool {
    &&& k.len() > 0
    &&& is_name_start(k[0])
    &&& forall|i: int| 1 <= i < k.len() ==> is_name_char(#[trigger] k[i])
}

/// Pairs that a session file can carry: distinct variable names, values
/// without line breaks.
pub open spec fn session_pairs(es: Seq<(Seq<char>, Seq<char>)>) -> bool {
    &&& unique_keys(es)
    &&& forall|i: int| 0 <= i < es.len() ==> is_var_name(#[trigger] es[i].0)
    &&& forall|i: int, c: int|
        0 <= i < es.len() && 0 <= c < es[i].1.len() ==> #[trigger] es[i].1[c] != '\n'
}

/// The line of one variable without its line break.
pub open spec fn export_body(k: Seq<char>, v: Seq<char>) -> Seq<char> {
    seq!['e', 'x', 'p', 'o', 'r', 't', ' '] + k + seq!['=', '"'] + shell_escape(v) + seq!['"', ';']
}

pub open spec fn export_bodies(es: Seq<(Seq<char>, Seq<char>)>) -> Seq<Seq<char>> {
    es.map_values(|e: (Seq<char>, Seq<char>)| export_body(e.0, e.1))
}

proof fn lemma_unescape_escape(v: Seq<char>)
    ensures
        unescape_spec(shell_escape(v)) == v,
    decreases v.len(),
{
    if v.len() > 0 {
        lemma_unescape_escape(v.drop_first());
        let e = shell_escape(v);
        if needs_escape(v[0]) {
            assert(e.skip(2) =~= shell_escape(v.drop_first()));
        } else {
            assert(e.drop_first() =~= shell_escape(v.drop_first()));
        }
        assert(unescape_spec(e) =~= v);
    }
}

proof fn lemma_escape_len(v: Seq<char>)
    ensures
        shell_escape(v).len() >= v.len(),
        forall|c: int|
            0 <= c < shell_escape(v).len() ==> (#[trigger] shell_escape(v)[c] == '\n' ==> exists|
                d: int,
            | 0 <= d < v.len() && v[d] == '\n'),
    decreases v.len(),
{
    if v.len() > 0 {
        let r = v.drop_first();
        lemma_escape_len(r);
        let e = shell_escape(v);
        assert forall|c: int| 0 <= c < e.len() && #[trigger] e[c] == '\n' implies exists|d: int|
            0 <= d < v.len() && v[d] == '\n' by {
            let off: int = if needs_escape(v[0]) {
                2
            } else {
                1
            };
            if c < off {
                if needs_escape(v[0]) && c == 0 {
                } else {
                    assert(v[0] == '\n');
                }
            } else {
                assert(e[c] == shell_escape(r)[c - off]);
                let d = choose|d: int| 0 <= d < r.len() && r[d] == '\n';
                assert(v[d + 1] == '\n');
            }
        }
    }
}

proof fn lemma_quote_close_escaped(s: Seq<char>, i: int, v: Seq<char>)
    requires
        0 <= i,
        i + shell_escape(v).len() < s.len(),
        s.subrange(i, i + shell_escape(v).len()) == shell_escape(v),
        s[i + shell_escape(v).len()] == '"',
    ensures
        quote_close(s, i) == Some(i + shell_escape(v).len()),
    decreases v.len(),
{
    let e = shell_escape(v);
    if v.len() > 0 {
        let r = v.drop_first();
        let er = shell_escape(r);
        if needs_escape(v[0]) {
            assert(s[i] == e[0]);
            assert(s.subrange(i + 2, i + 2 + er.len()) =~= er) by {
                assert forall|k: int| 0 <= k < er.len() implies s[i + 2 + k] == er[k] by {
                    assert(s.subrange(i, i + e.len())[k + 2] == e[k + 2]);
                }
            }
            lemma_quote_close_escaped(s, i + 2, r);
        } else {
            assert(s[i] == e[0]);
            assert(s.subrange(i + 1, i + 1 + er.len()) =~= er) by {
                assert forall|k: int| 0 <= k < er.len() implies s[i + 1 + k] == er[k] by {
                    assert(s.subrange(i, i + e.len())[k + 1] == e[k + 1]);
                }
            }
            lemma_quote_close_escaped(s, i + 1, r);
        }
    }
}

proof fn lemma_name_end_run(s: Seq<char>, i: int, r: int)
    requires
        0 <= i <= r <= s.len(),
        forall|k: int| i <= k < r ==> is_name_char(#[trigger] s[k]),
        r == s.len() || !is_name_char(s[r]),
    ensures
        name_end(s, i) == r,
    decreases r - i,
{
    if i < r {
        lemma_name_end_run(s, i + 1, r);
    }
}

proof fn lemma_parse_body(k: Seq<char>, v: Seq<char>)
    requires
        is_var_name(k),
    ensures
        parse_export(export_body(k, v)) == Some((k, shell_escape(v))),
{
    let b = export_body(k, v);
    let e = shell_escape(v);
    let n: int = k.len() as int;
    assert(b.len() == 7 + n + 2 + e.len() + 2);
    assert(b[0] == 'e');
    assert(!is_space('e'));
    lemma_skip_space_at(b, 0, 0);
    assert(b.subrange(0, 6) =~= export_word());
    assert(b[6] == ' ');
    assert(is_space(' '));
    assert(b[7] == k[0]);
    assert(!is_space(b[7])) by {
        assert(is_name_start(k[0]));
    }
    lemma_skip_space_at(b, 6, 7);
    assert(skip_space(b, 6) == 7);
    let d: int = 7 + n;
    assert forall|m: int| 8 <= m < d implies is_name_char(#[trigger] b[m]) by {
        assert(b[m] == k[m - 7]);
    }
    assert(b[d] == '=');
    lemma_name_end_run(b, 8, d);
    assert(b[d + 1] == '"');
    assert(b.subrange(d + 2, d + 2 + e.len()) =~= e);
    assert(b[d + 2 + e.len()] == '"');
    lemma_quote_close_escaped(b, d + 2, v);
    let j: int = d + 2 + e.len();
    assert(b[j + 1] == ';');
    assert(all_space(b.subrange(j + 2, b.len() as int)));
    assert(tail_ok(b, j));
    assert(b.subrange(7, d) =~= k);
    assert(b.subrange(d + 2, j) =~= e);
}

proof fn lemma_body_lines(k: Seq<char>, v: Seq<char>)
    requires
        is_var_name(k),
        forall|c: int| 0 <= c < v.len() ==> v[c] != '\n',
    ensures
        export_line(k, v) == export_body(k, v).push('\n'),
        lines(export_line(k, v)) == seq![export_body(k, v)],
{
    let b = export_body(k, v);
    let e = shell_escape(v);
    assert(export_line(k, v) =~= b.push('\n'));
    lemma_escape_len(v);
    assert forall|m: int| 0 <= m < b.len() implies b[m] != '\n' by {
        let n: int = k.len() as int;
        if 7 <= m < 7 + n {
            assert(b[m] == k[m - 7]);
            if m == 7 {
                assert(is_name_start(k[0]));
            } else {
                assert(is_name_char(k[m - 7]));
            }
        } else if 9 + n <= m < 9 + n + e.len() {
            assert(b[m] == e[m - 9 - n]);
            if e[m - 9 - n] == '\n' {
                let d = choose|d: int| 0 <= d < v.len() && v[d] == '\n';
                assert(v[d] != '\n');
            }
        }
    }
    lemma_lines_single(b);
}

proof fn lemma_render_lines(es: Seq<(Seq<char>, Seq<char>)>)
    requires
        session_pairs(es),
    ensures
        lines(render_exports_spec(es)) == export_bodies(es),
    decreases es.len(),
{
    if es.len() == 0 {
        assert(lines(Seq::<char>::empty()) == Seq::<Seq<char>>::empty());
        assert(export_bodies(es) =~= Seq::<Seq<char>>::empty());
    } else {
        let init = es.drop_last();
        let last = es.last();
        assert(session_pairs(init)) by {
            assert forall|i: int, j: int|
                0 <= i < init.len() && 0 <= j < init.len() && i != j implies (#[trigger] init[i]).0
                != (#[trigger] init[j]).0 by {
                assert(init[i] == es[i] && init[j] == es[j]);
            }
            assert forall|i: int| 0 <= i < init.len() implies is_var_name(#[trigger] init[i].0) by {
                assert(init[i] == es[i]);
            }
            assert forall|i: int, c: int| 0 <= i < init.len() && 0 <= c < init[i].1.len() implies #[trigger] init[i].1[c]
                != '\n' by {
                assert(init[i] == es[i]);
            }
        }
        lemma_render_lines(init);
        assert(is_var_name(es[es.len() - 1].0));
        assert forall|c: int| 0 <= c < last.1.len() implies last.1[c] != '\n' by {
            assert(es[es.len() - 1].1[c] != '\n');
        }
        lemma_body_lines(last.0, last.1);
        let x = render_exports_spec(init);
        let y = export_line(last.0, last.1);
        if init.len() == 0 {
            assert(x == Seq::<char>::empty());
            assert(x + y =~= y);
            assert(export_bodies(es) =~= seq![export_body(last.0, last.1)]);
        } else {
            let il = init.last();
            assert(x == render_exports_spec(init.drop_last()) + export_line(il.0, il.1));
            assert(x.len() > 0 && x.last() == '\n');
            lemma_lines_concat(x, y);
            assert(export_bodies(es) =~= export_bodies(init) + seq![export_body(last.0, last.1)]);
        }
    }
}

proof fn lemma_parse_lines_concat(
    acc: (Map<Seq<char>, Seq<char>>, Seq<Seq<char>>),
    a: Seq<Seq<char>>,
    b: Seq<Seq<char>>,
)
    ensures
        parse_lines(acc, a + b) == parse_lines(parse_lines(acc, a), b),
    decreases a.len(),
{
    if a.len() == 0 {
        assert(a + b =~= b);
    } else {
        assert((a + b).drop_first() =~= a.drop_first() + b);
        lemma_parse_lines_concat(parse_step(acc, a[0]), a.drop_first(), b);
    }
}

proof fn lemma_pairs_map_push(es: Seq<(Seq<char>, Seq<char>)>, e: (Seq<char>, Seq<char>))
    requires
        unique_keys(es.push(e)),
    ensures
        pairs_map(es.push(e)) == pairs_map(es).insert(e.0, e.1),
        unique_keys(es),
{
    let es2 = es.push(e);
    assert(unique_keys(es)) by {
        assert forall|i: int, j: int|
            0 <= i < es.len() && 0 <= j < es.len() && i != j implies (#[trigger] es[i]).0 != (
            #[trigger] es[j]).0 by {
            assert(es2[i] == es[i] && es2[j] == es[j]);
        }
    }
    let m1 = pairs_map(es2);
    let m2 = pairs_map(es).insert(e.0, e.1);
    assert forall|k: Seq<char>| m1.dom().contains(k) <==> m2.dom().contains(k) by {
        if has_key(es2, k) {
            let i = choose|i: int| 0 <= i < es2.len() && (#[trigger] es2[i]).0 == k;
            if i < es.len() {
                assert(es[i].0 == k);
            }
        }
        if has_key(es, k) {
            let i = choose|i: int| 0 <= i < es.len() && (#[trigger] es[i]).0 == k;
            assert(es2[i].0 == k);
        }
        if k == e.0 {
            assert(es2[es.len() as int].0 == k);
        }
    }
    assert forall|k: Seq<char>| m1.dom().contains(k) implies m1[k] == m2[k] by {
        let i = choose|i: int| 0 <= i < es2.len() && (#[trigger] es2[i]).0 == k;
        lemma_pairs_map_at(es2, i);
        if i < es.len() {
            lemma_pairs_map_at(es, i);
            assert(es2[i] == es[i]);
            assert(k != e.0) by {
                assert(es2[es.len() as int].0 == e.0);
            }
        }
    }
    assert(m1 =~= m2);
}

proof fn lemma_parse_bodies(es: Seq<(Seq<char>, Seq<char>)>)
    requires
        session_pairs(es),
    ensures
        parse_lines((Map::empty(), seq![]), export_bodies(es)) == (pairs_map(es), Seq::<
            Seq<char>,
        >::empty()),
    decreases es.len(),
{
    if es.len() == 0 {
        assert(pairs_map(es) =~= Map::<Seq<char>, Seq<char>>::empty());
        assert(export_bodies(es) =~= Seq::<Seq<char>>::empty());
    } else {
        let init = es.drop_last();
        let last = es.last();
        assert(es =~= init.push(last));
        lemma_pairs_map_push(init, last);
        assert(session_pairs(init)) by {
            assert forall|i: int| 0 <= i < init.len() implies is_var_name(#[trigger] init[i].0) by {
                assert(init[i] == es[i]);
            }
            assert forall|i: int, c: int| 0 <= i < init.len() && 0 <= c < init[i].1.len() implies #[trigger] init[i].1[c]
                != '\n' by {
                assert(init[i] == es[i]);
            }
        }
        lemma_parse_bodies(init);
        assert(export_bodies(es) =~= export_bodies(init) + seq![export_body(last.0, last.1)]);
        let acc0 = (Map::<Seq<char>, Seq<char>>::empty(), Seq::<Seq<char>>::empty());
        lemma_parse_lines_concat(acc0, export_bodies(init), seq![export_body(last.0, last.1)]);
        assert(is_var_name(es[es.len() - 1].0));
        lemma_parse_body(last.0, last.1);
        lemma_unescape_escape(last.1);
        let mid = parse_lines(acc0, export_bodies(init));
        let x = export_body(last.0, last.1);
        assert(seq![x].drop_first() =~= Seq::<Seq<char>>::empty());
        assert(parse_lines(parse_step(mid, x), Seq::<Seq<char>>::empty()) == parse_step(mid, x));
        assert(parse_lines(mid, seq![export_body(last.0, last.1)]) == parse_step(
            mid,
            export_body(last.0, last.1),
        ));
    }
}

/// What the session file says is what was written: reading back the
/// `export` lines rendered from distinct variable names and values without
/// line breaks gives those variables and no message.
pub proof fn law_session_roundtrip(es: Seq<(Seq<char>, Seq<char>)>)
    requires
        session_pairs(es),
    ensures
        parse_output_spec(render_exports_spec(es)).0 == pairs_map(es),
        parse_output_spec(render_exports_spec(es)).1 == Seq::<Seq<char>>::empty(),
{
    lemma_render_lines(es);
    lemma_parse_bodies(es);
}

} // verus!
