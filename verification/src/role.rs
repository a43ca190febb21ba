//! Output of the `assume-role` shell function: the `export KEY="VALUE";`
//! lines it prints for `eval`, the `echo "...";` diagnostics, and what is
//! made of them.

use vstd::prelude::*;
use vstd::string::StringExecFns;
use crate::jira::{push_quoted, quoted};
use crate::keyset::{char_views, insert_sorted, strictly_sorted, string_views, to_strings};
use crate::text::{
    all_space, all_space_exec, chars_eq, chars_of, has_prefix, is_ascii_digit, is_ascii_upper,
    is_space, is_space_char, join_with, lemma_prefixed_join, lemma_prefixed_join_push, lines,
    lines_from, next_line, occurs_at, prefixed_join, push_char, push_chars, push_str_chars,
    skip_space, skip_space_exec, slice_chars, starts_with_chars, string_of, trim, trim_bounds,
};

verus! {

/// Backslash escapes removed: `\x` stands for `x`; a final lone backslash
/// is dropped.
pub open spec fn unescape_spec(s: Seq<char>) -> Seq<char>
    decreases s.len(),
{
    if s.len() == 0 {
        seq![]
    } else if s[0] == '\\' {
        if s.len() >= 2 {
            seq![s[1]] + unescape_spec(s.skip(2))
        } else {
            seq![]
        }
    } else {
        seq![s[0]] + unescape_spec(s.drop_first())
    }
}

fn unescape_range(cs: &Vec<char>, from: usize, to: usize) -> (r: String)
    requires
        from <= to <= cs@.len(),
    ensures
        r@ == unescape_spec(cs@.subrange(from as int, to as int)),
{
    let mut out = String::new();
    let mut i = from;
    while i < to
        invariant
            from <= i <= to <= cs@.len(),
            unescape_spec(cs@.subrange(from as int, to as int)) == out@ + unescape_spec(
                cs@.subrange(i as int, to as int),
            ),
        decreases to - i,
    {
        let ghost rest = cs@.subrange(i as int, to as int);
        let ghost before = out@;
        if cs[i] == '\\' {
            if i + 1 < to {
                push_char(&mut out, cs[i + 1]);
                assert(rest.skip(2) =~= cs@.subrange(i + 2, to as int));
                assert(out@ + unescape_spec(cs@.subrange(i + 2, to as int)) =~= before
                    + unescape_spec(rest));
                i = i + 2;
            } else {
                assert(unescape_spec(cs@.subrange(to as int, to as int)) =~= Seq::<char>::empty());
                assert(out@ + unescape_spec(cs@.subrange(to as int, to as int)) =~= before
                    + unescape_spec(rest));
                i = to;
            }
        } else {
            push_char(&mut out, cs[i]);
            assert(rest.drop_first() =~= cs@.subrange(i + 1, to as int));
            assert(out@ + unescape_spec(cs@.subrange(i + 1, to as int)) =~= before
                + unescape_spec(rest));
            i = i + 1;
        }
    }
    assert(unescape_spec(cs@.subrange(to as int, to as int)) =~= Seq::<char>::empty());
    assert(out@ + Seq::<char>::empty() =~= out@);
    out
}

/// Removes backslash escapes from a quoted value.
pub fn unescape(s: &str) -> (r: String)
    ensures
        r@ == unescape_spec(s@),
{
    let cs = chars_of(s);
    assert(cs@.subrange(0, cs@.len() as int) =~= cs@);
    unescape_range(&cs, 0, cs.len())
}

/// The position of the `"` that closes a quoted value starting at `i`
/// (a backslash escapes the character after it).
pub open spec fn quote_close(s: Seq<char>, i: int) -> Option<int>
    decreases s.len() - i,
{
    if i < 0 || i >= s.len() {
        None
    } else if s[i] == '"' {
        Some(i)
    } else if s[i] == '\\' {
        if i + 1 < s.len() {
            quote_close(s, i + 2)
        } else {
            None
        }
    } else {
        quote_close(s, i + 1)
    }
}

/// After the closing quote at `j`: an optional `;` and then only white space.
pub open spec fn tail_ok(s: Seq<char>, j: int) -> bool {
    all_space(s.subrange(j + 1, s.len() as int)) || (j + 1 < s.len() && s[j + 1] == ';'
        && all_space(s.subrange(j + 2, s.len() as int)))
}

pub open spec fn is_name_start(c: char) -> bool {
    is_ascii_upper(c) || c == '_'
}

pub open spec fn is_name_char(c: char) -> bool {
    is_ascii_upper(c) || is_ascii_digit(c) || c == '_'
}

/// End of the run of name characters (`A-Z`, `0-9`, `_`) from `i`.
pub open spec fn name_end(s: Seq<char>, i: int) -> int
    decreases s.len() - i,
{
    if 0 <= i < s.len() && is_name_char(s[i]) {
        name_end(s, i + 1)
    } else {
        i
    }
}

pub open spec fn export_word() -> Seq<char> {
    seq!['e', 'x', 'p', 'o', 'r', 't']
}

pub open spec fn echo_word() -> Seq<char> {
    seq!['e', 'c', 'h', 'o']
}

/// A line `export NAME="VALUE";`: optional white space, `export`, at
/// least one white space, a name `[A-Z_][A-Z0-9_]*`, `="`, the escaped
/// value, `"`, an optional `;` and optional white space. Gives the name and
/// the value as written (still escaped).
pub open spec fn parse_export(l: Seq<char>) -> Option<(Seq<char>, Seq<char>)> {
    let a = skip_space(l, 0);
    let b = a + 6;
    if b <= l.len() && l.subrange(a, b) == export_word() && b < l.len() && is_space(l[b]) {
        let c = skip_space(l, b);
        if c < l.len() && is_name_start(l[c]) {
            let d = name_end(l, c + 1);
            if d + 1 < l.len() && l[d] == '=' && l[d + 1] == '"' {
                match quote_close(l, d + 2) {
                    Some(j) => if tail_ok(l, j) {
                        Some((l.subrange(c, d), l.subrange(d + 2, j)))
                    } else {
                        None
                    },
                    None => None,
                }
            } else {
                None
            }
        } else {
            None
        }
    } else {
        None
    }
}

/// A line `echo "MESSAGE";`, shaped like an export line; gives the message
/// as written (still escaped).
pub open spec fn parse_echo(l: Seq<char>) -> Option<Seq<char>> {
    let a = skip_space(l, 0);
    let b = a + 4;
    if b <= l.len() && l.subrange(a, b) == echo_word() && b < l.len() && is_space(l[b]) {
        let c = skip_space(l, b);
        if c < l.len() && l[c] == '"' {
            match quote_close(l, c + 1) {
                Some(j) => if tail_ok(l, j) {
                    Some(l.subrange(c + 1, j))
                } else {
                    None
                },
                None => None,
            }
        } else {
            None
        }
    } else {
        None
    }
}

/// What one line adds: an export sets its variable (a later one wins); an
/// echo line whose message is not blank adds the message.
pub open spec fn parse_step(
    acc: (Map<Seq<char>, Seq<char>>, Seq<Seq<char>>),
    l: Seq<char>,
) -> (Map<Seq<char>, Seq<char>>, Seq<Seq<char>>) {
    match parse_export(l) {
        Some(kv) => (acc.0.insert(kv.0, unescape_spec(kv.1)), acc.1),
        None => match parse_echo(l) {
            Some(m) => if !all_space(unescape_spec(m)) {
                (acc.0, acc.1.push(unescape_spec(m)))
            } else {
                acc
            },
            None => acc,
        },
    }
}

pub open spec fn parse_lines(
    acc: (Map<Seq<char>, Seq<char>>, Seq<Seq<char>>),
    ls: Seq<Seq<char>>,
) -> (Map<Seq<char>, Seq<char>>, Seq<Seq<char>>)
    decreases ls.len(),
{
    if ls.len() == 0 {
        acc
    } else {
        parse_lines(parse_step(acc, ls[0]), ls.drop_first())
    }
}

/// The exported variables and the diagnostic messages of a whole output.
pub open spec fn parse_output_spec(text: Seq<char>) -> (Map<Seq<char>, Seq<char>>, Seq<Seq<char>>) {
    parse_lines((Map::empty(), seq![]), lines(text))
}

/// Variables by name, each name once, in the order they were first set.
pub struct ExportMap {
    entries: Vec<(String, String)>,
}

pub open spec fn entry_views(es: Seq<(String, String)>) -> Seq<(Seq<char>, Seq<char>)> {
    es.map_values(|e: (String, String)| (e.0@, e.1@))
}

pub open spec fn unique_keys(es: Seq<(Seq<char>, Seq<char>)>) -> bool {
    forall|i: int, j: int|
        0 <= i < es.len() && 0 <= j < es.len() && i != j ==> (#[trigger] es[i]).0 != (
        #[trigger] es[j]).0
}

pub open spec fn has_key(es: Seq<(Seq<char>, Seq<char>)>, k: Seq<char>) -> bool {
    exists|i: int| 0 <= i < es.len() && (#[trigger] es[i]).0 == k
}

/// The map that a duplicate-free list of pairs stands for.
pub open spec fn pairs_map(es: Seq<(Seq<char>, Seq<char>)>) -> Map<Seq<char>, Seq<char>> {
    Map::new(
        |k: Seq<char>| has_key(es, k),
        |k: Seq<char>| es[choose|i: int| 0 <= i < es.len() && (#[trigger] es[i]).0 == k].1,
    )
}

pub proof fn lemma_pairs_map_at(es: Seq<(Seq<char>, Seq<char>)>, i: int)
    requires
        unique_keys(es),
        0 <= i < es.len(),
    ensures
        pairs_map(es).dom().contains(es[i].0),
        pairs_map(es)[es[i].0] == es[i].1,
{
    let k = es[i].0;
    assert(has_key(es, k));
    let j = choose|j: int| 0 <= j < es.len() && (#[trigger] es[j]).0 == k;
    assert(j == i);
}

impl View for ExportMap {
    type V = Map<Seq<char>, Seq<char>>;

    closed spec fn view(&self) -> Map<Seq<char>, Seq<char>> {
        pairs_map(entry_views(self.entries@))
    }
}

impl ExportMap {
    /// Each name occurs once.
    pub closed spec fn wf(&self) -> bool {
        unique_keys(entry_views(self.entries@))
    }

    /// The pairs in the order of their first setting.
    pub closed spec fn pairs(&self) -> Seq<(Seq<char>, Seq<char>)> {
        entry_views(self.entries@)
    }

    pub proof fn lemma_view(&self)
        requires
            self.wf(),
        ensures
            self@ == pairs_map(self.pairs()),
            unique_keys(self.pairs()),
    {
    }

    pub fn new() -> (r: ExportMap)
        ensures
            r.wf(),
            r@ == Map::<Seq<char>, Seq<char>>::empty(),
            r.pairs() == Seq::<(Seq<char>, Seq<char>)>::empty(),
    {
        let r = ExportMap { entries: Vec::new() };
        assert(r@ =~= Map::<Seq<char>, Seq<char>>::empty());
        r
    }

    /// The number of variables.
    pub fn len(&self) -> (n: usize)
        requires
            self.wf(),
        ensures
            n == self.pairs().len(),
            n == self@.dom().len(),
    {
        proof {
            self.lemma_len();
        }
        self.entries.len()
    }

    proof fn lemma_len(&self)
        requires
            self.wf(),
        ensures
            self@.dom().len() == self.pairs().len(),
            self@.dom().finite(),
    {
        let es = self.pairs();
        let keys = es.map_values(|e: (Seq<char>, Seq<char>)| e.0);
        assert(self@.dom() =~= keys.to_set()) by {
            assert forall|k: Seq<char>| self@.dom().contains(k) implies keys.to_set().contains(k) by {
                let i = choose|i: int| 0 <= i < es.len() && (#[trigger] es[i]).0 == k;
                assert(keys[i] == k);
            }
            assert forall|k: Seq<char>| keys.to_set().contains(k) implies self@.dom().contains(k) by {
                let i = choose|i: int| 0 <= i < keys.len() && keys[i] == k;
                assert(es[i].0 == k);
            }
        }
        assert(keys.no_duplicates()) by {
            assert forall|i: int, j: int|
                0 <= i < keys.len() && 0 <= j < keys.len() && i != j implies keys[i] != keys[j] by {
                assert(es[i].0 != es[j].0);
            }
        }
        keys.unique_seq_to_set();
    }

    pub fn is_empty(&self) -> (b: bool)
        requires
            self.wf(),
        ensures
            b == (self@.dom().len() == 0),
    {
        self.len() == 0
    }

    fn index_of(&self, key: &str) -> (r: Option<usize>)
        requires
            self.wf(),
        ensures
            match r {
                Some(i) => i < self.pairs().len() && self.pairs()[i as int].0 == key@,
                None => !has_key(self.pairs(), key@),
            },
    {
        let k = chars_of(key);
        let mut i: usize = 0;
        while i < self.entries.len()
            invariant
                i <= self.entries@.len(),
                k@ == key@,
                forall|j: int| 0 <= j < i ==> (#[trigger] self.pairs()[j]).0 != key@,
            decreases self.entries@.len() - i,
        {
            if chars_eq(&chars_of(self.entries[i].0.as_str()), &k) {
                return Some(i);
            }
            i = i + 1;
        }
        None
    }

    /// The value of `key`, if it is set.
    pub fn get(&self, key: &str) -> (r: Option<&String>)
        requires
            self.wf(),
        ensures
            match r {
                Some(v) => self@.dom().contains(key@) && self@[key@] == v@,
                None => !self@.dom().contains(key@),
            },
    {
        match self.index_of(key) {
            Some(i) => {
                proof {
                    lemma_pairs_map_at(self.pairs(), i as int);
                }
                Some(&self.entries[i].1)
            },
            None => None,
        }
    }

    /// Sets `key` to `value`, keeping its place when it was already set.
    pub fn insert(&mut self, key: String, value: String)
        requires
            old(self).wf(),
        ensures
            final(self).wf(),
            final(self)@ == old(self)@.insert(key@, value@),
    {
        let ghost old_es = self.pairs();
        let ghost kv = (key@, value@);
        match self.index_of(key.as_str()) {
            Some(i) => {
                self.entries.set(i, (key, value));
                let ghost es = self.pairs();
                assert(es =~= old_es.update(i as int, kv));
                assert(unique_keys(es)) by {
                    assert forall|a: int, b: int|
                        0 <= a < es.len() && 0 <= b < es.len() && a != b implies (
                    #[trigger] es[a]).0 != (#[trigger] es[b]).0 by {
                        if a != i && b != i {
                            assert(old_es[a].0 != old_es[b].0);
                        } else if a == i {
                            assert(old_es[a].0 != old_es[b].0);
                        } else {
                            assert(old_es[a].0 != old_es[b].0);
                        }
                    }
                }
                assert(pairs_map(es) =~= pairs_map(old_es).insert(key@, value@)) by {
                    assert forall|k: Seq<char>| #[trigger]
                        pairs_map(es).dom().contains(k) <==> pairs_map(old_es).insert(
                            key@,
                            value@,
                        ).dom().contains(k) by {
                        if has_key(es, k) {
                            let j = choose|j: int| 0 <= j < es.len() && (#[trigger] es[j]).0 == k;
                            if j != i {
                                assert(old_es[j].0 == k);
                            }
                        }
                        if has_key(old_es, k) {
                            let j = choose|j: int| 0 <= j < old_es.len() && (#[trigger] old_es[j]).0
                                == k;
                            assert(es[j].0 == k);
                        }
                        if k == key@ {
                            assert(es[i as int].0 == k);
                        }
                    }
                    assert forall|k: Seq<char>| #[trigger]
                        pairs_map(es).dom().contains(k) implies pairs_map(es)[k] == pairs_map(
                        old_es,
                    ).insert(key@, value@)[k] by {
                        let j = choose|j: int| 0 <= j < es.len() && (#[trigger] es[j]).0 == k;
                        lemma_pairs_map_at(es, j);
                        if j != i {
                            lemma_pairs_map_at(old_es, j);
                        }
                    }
                }
            },
            None => {
                self.entries.push((key, value));
                let ghost es = self.pairs();
                assert(es =~= old_es.push(kv));
                assert(unique_keys(es)) by {
                    assert forall|a: int, b: int|
                        0 <= a < es.len() && 0 <= b < es.len() && a != b implies (
                    #[trigger] es[a]).0 != (#[trigger] es[b]).0 by {
                        if a < old_es.len() && b < old_es.len() {
                            assert(old_es[a].0 != old_es[b].0);
                        } else if a < old_es.len() {
                            assert(es[a] == old_es[a]);
                        } else {
                            assert(es[b] == old_es[b]);
                        }
                    }
                }
                assert(pairs_map(es) =~= pairs_map(old_es).insert(kv.0, kv.1)) by {
                    assert forall|k: Seq<char>| #[trigger]
                        pairs_map(es).dom().contains(k) <==> pairs_map(old_es).insert(
                            kv.0,
                            kv.1,
                        ).dom().contains(k) by {
                        if has_key(es, k) {
                            let j = choose|j: int| 0 <= j < es.len() && (#[trigger] es[j]).0 == k;
                            if j < old_es.len() {
                                assert(old_es[j].0 == k);
                            }
                        }
                        if has_key(old_es, k) {
                            let j = choose|j: int| 0 <= j < old_es.len() && (#[trigger] old_es[j]).0
                                == k;
                            assert(es[j].0 == k);
                        }
                        if k == kv.0 {
                            assert(es[old_es.len() as int].0 == k);
                        }
                    }
                    assert forall|k: Seq<char>| #[trigger]
                        pairs_map(es).dom().contains(k) implies pairs_map(es)[k] == pairs_map(
                        old_es,
                    ).insert(kv.0, kv.1)[k] by {
                        let j = choose|j: int| 0 <= j < es.len() && (#[trigger] es[j]).0 == k;
                        lemma_pairs_map_at(es, j);
                        if j < old_es.len() {
                            lemma_pairs_map_at(old_es, j);
                        }
                    }
                }
            },
        }
    }

    /// The names, in the order they were first set.
    pub fn keys(&self) -> (r: Vec<String>)
        ensures
            r@.len() == self.pairs().len(),
            forall|i: int| 0 <= i < r@.len() ==> (#[trigger] r@[i])@ == self.pairs()[i].0,
    {
        let mut r: Vec<String> = Vec::new();
        let mut i: usize = 0;
        while i < self.entries.len()
            invariant
                i <= self.entries@.len(),
                self.pairs() == entry_views(self.entries@),
                r@.len() == i,
                forall|k: int| 0 <= k < i ==> (#[trigger] r@[k])@ == self.pairs()[k].0,
            decreases self.entries@.len() - i,
        {
            r.push(self.entries[i].0.clone());
            i = i + 1;
        }
        r
    }

    /// The pair at position `i`.
    pub fn entry(&self, i: usize) -> (r: (&String, &String))
        requires
            i < self.pairs().len(),
        ensures
            (r.0@, r.1@) == self.pairs()[i as int],
    {
        (&self.entries[i].0, &self.entries[i].1)
    }
}

/// What the script printed: its exports and its diagnostic messages.
pub struct AssumeOutput {
    pub exports: ExportMap,
    /// Lines the script wrote as `echo "..."`: the messages it would have
    /// printed in interactive mode.
    pub messages: Vec<String>,
}

fn word_at(l: &Vec<char>, a: usize, w: &Vec<char>) -> (r: bool)
    ensures
        r == (a + w@.len() <= l@.len() && l@.subrange(a as int, a + w@.len()) == w@),
{
    occurs_at(l, w, a)
}

fn name_end_exec(l: &Vec<char>, i: usize) -> (r: usize)
    requires
        i <= l@.len(),
    ensures
        r == name_end(l@, i as int),
        i <= r <= l@.len(),
{
    let mut j = i;
    while j < l.len() && (('A' <= l[j] && l[j] <= 'Z') || ('0' <= l[j] && l[j] <= '9') || l[j]
        == '_')
        invariant
            i <= j <= l@.len(),
            name_end(l@, j as int) == name_end(l@, i as int),
        decreases l@.len() - j,
    {
        j = j + 1;
    }
    j
}

fn quote_close_exec(l: &Vec<char>, i: usize) -> (r: Option<usize>)
    requires
        i <= l@.len(),
    ensures
        (match r {
            Some(j) => Some(j as int),
            None => None,
        }) == quote_close(l@, i as int),
        r matches Some(j) ==> i <= j < l@.len(),
{
    let mut k = i;
    while k < l.len()
        invariant
            i <= k,
            quote_close(l@, k as int) == quote_close(l@, i as int),
        decreases l@.len() - k,
    {
        if l[k] == '"' {
            return Some(k);
        }
        if l[k] == '\\' {
            if k + 1 < l.len() {
                k = k + 2;
            } else {
                return None;
            }
        } else {
            k = k + 1;
        }
    }
    None
}

fn tail_ok_exec(l: &Vec<char>, j: usize) -> (r: bool)
    requires
        j < l@.len(),
    ensures
        r == tail_ok(l@, j as int),
{
    let n = l.len();
    all_space_exec(l, j + 1, n) || (j + 1 < n && l[j + 1] == ';' && all_space_exec(l, j + 2, n))
}

fn export_parts(l: &Vec<char>) -> (r: Option<(usize, usize, usize)>)
    ensures
        match r {
            Some((c, d, j)) => c <= d && d + 2 <= j <= l@.len() && parse_export(l@) == Some(
                (l@.subrange(c as int, d as int), l@.subrange(d + 2, j as int)),
            ),
            None => parse_export(l@) is None,
        },
{
    let n = l.len();
    let a = skip_space_exec(l, 0, n);
    if !(word_at(l, a, &vec!['e', 'x', 'p', 'o', 'r', 't']) && a + 6 < n && is_space_char(
        l[a + 6],
    )) {
        return None;
    }
    let b = a + 6;
    let c = skip_space_exec(l, b, n);
    if !(c < n && (('A' <= l[c] && l[c] <= 'Z') || l[c] == '_')) {
        return None;
    }
    let d = name_end_exec(l, c + 1);
    if !(d < n && d + 1 < n && l[d] == '=' && l[d + 1] == '"') {
        return None;
    }
    match quote_close_exec(l, d + 2) {
        Some(j) => if tail_ok_exec(l, j) {
            Some((c, d, j))
        } else {
            None
        },
        None => None,
    }
}

fn echo_parts(l: &Vec<char>) -> (r: Option<(usize, usize)>)
    ensures
        match r {
            Some((e, j)) => e <= j <= l@.len() && parse_echo(l@) == Some(
                l@.subrange(e as int, j as int),
            ),
            None => parse_echo(l@) is None,
        },
{
    let n = l.len();
    let a = skip_space_exec(l, 0, n);
    if !(word_at(l, a, &vec!['e', 'c', 'h', 'o']) && a + 4 < n && is_space_char(l[a + 4])) {
        return None;
    }
    let b = a + 4;
    let c = skip_space_exec(l, b, n);
    if !(c < n && l[c] == '"') {
        return None;
    }
    match quote_close_exec(l, c + 1) {
        Some(j) => if tail_ok_exec(l, j) {
            Some((c + 1, j))
        } else {
            None
        },
        None => None,
    }
}

/// Whether the string has a character that is not white space.
fn has_content(s: &String) -> (r: bool)
    ensures
        r == !all_space(s@),
{
    let cs = chars_of(s.as_str());
    assert(cs@.subrange(0, cs@.len() as int) =~= cs@);
    !all_space_exec(&cs, 0, cs.len())
}

/// Parses the script's stdout: `export KEY="VALUE";` lines set
/// [`AssumeOutput::exports`], `echo "MESSAGE";` lines with a non-blank
/// message go to [`AssumeOutput::messages`]; other lines are ignored.
pub fn parse_output(text: &str) -> (out: AssumeOutput)
    ensures
        out.exports.wf(),
        out.exports@ == parse_output_spec(text@).0,
        string_views(out.messages@) == parse_output_spec(text@).1,
{
    let cs = chars_of(text);
    let mut out = AssumeOutput { exports: ExportMap::new(), messages: Vec::new() };
    let mut i: usize = 0;
    assert(string_views(out.messages@) =~= Seq::<Seq<char>>::empty());
    while i < cs.len()
        invariant
            cs@ == text@,
            i <= cs@.len(),
            out.exports.wf(),
            parse_lines((out.exports@, string_views(out.messages@)), lines_from(cs@, i as int))
                == parse_output_spec(text@),
        decreases cs@.len() - i,
    {
        let (line, next) = next_line(&cs, i);
        let ghost acc = (out.exports@, string_views(out.messages@));
        let ghost rest = lines_from(cs@, next as int);
        assert((seq![line@] + rest).drop_first() =~= rest);
        match export_parts(&line) {
            Some((c, d, j)) => {
                let name = string_of(&line, c, d);
                let value = unescape_range(&line, d + 2, j);
                out.exports.insert(name, value);
            },
            None => {
                match echo_parts(&line) {
                    Some((e, j)) => {
                        let msg = unescape_range(&line, e, j);
                        if has_content(&msg) {
                            let ghost before = out.messages@;
                            out.messages.push(msg);
                            assert(string_views(out.messages@) =~= string_views(before).push(
                                msg@,
                            ));
                        }
                    },
                    None => {},
                }
            },
        }
        assert((out.exports@, string_views(out.messages@)) == parse_step(acc, line@));
        i = next;
    }
    out
}

/// Variables copied into the process environment: `AWS_*`, `GEO_ENV`,
/// `KUBECONFIG`.
pub open spec fn is_propagated_spec(key: Seq<char>) -> bool {
    has_prefix(key, seq!['A', 'W', 'S', '_']) || key == seq!['G', 'E', 'O', '_', 'E', 'N', 'V']
        || key == seq!['K', 'U', 'B', 'E', 'C', 'O', 'N', 'F', 'I', 'G']
}

/// Whether the variable `key` is copied into the process environment.
pub fn is_propagated(key: &str) -> (r: bool)
    ensures
        r == is_propagated_spec(key@),
{
    let k = chars_of(key);
    starts_with_chars(&k, &vec!['A', 'W', 'S', '_']) || chars_eq(
        &k,
        &vec!['G', 'E', 'O', '_', 'E', 'N', 'V'],
    ) || chars_eq(&k, &vec!['K', 'U', 'B', 'E', 'C', 'O', 'N', 'F', 'I', 'G'])
}


/// The separator of diagnostic lines: a line break and two spaces.
pub open spec fn diag_sep() -> Seq<char> {
    seq!['\n', ' ', ' ']
}

/// The lines of a failure report: the script's messages, then each line of
/// the trimmed stderr, trimmed.
pub open spec fn diagnostic_lines(messages: Seq<Seq<char>>, stderr: Seq<char>) -> Seq<Seq<char>> {
    messages + lines(trim(stderr)).map_values(|l: Seq<char>| trim(l))
}

/// The diagnostic lines, each on a line of its own indented by two
/// spaces; empty when there are none.
pub open spec fn format_diagnostics_spec(messages: Seq<Seq<char>>, stderr: Seq<char>) -> Seq<char> {
    let parts = diagnostic_lines(messages, stderr);
    if parts.len() == 0 {
        seq![]
    } else {
        diag_sep() + join_with(parts, diag_sep())
    }
}

fn push_sep(out: &mut String)
    ensures
        final(out)@ == old(out)@ + diag_sep(),
{
    let ghost start = out@;
    push_char(out, '\n');
    push_char(out, ' ');
    push_char(out, ' ');
    assert(out@ =~= start + diag_sep());
}

/// Combines the script's messages and its stderr into the indented block
/// that follows a failure message.
pub fn format_diagnostics(messages: &[String], stderr: &str) -> (r: String)
    ensures
        r@ == format_diagnostics_spec(string_views(messages@), stderr@),
{
    let ghost sep = diag_sep();
    let ghost msgs = string_views(messages@);
    let mut out = String::new();
    let mut i: usize = 0;
    while i < messages.len()
        invariant
            i <= messages@.len(),
            sep == diag_sep(),
            msgs == string_views(messages@),
            out@ == prefixed_join(msgs.take(i as int), sep),
        decreases messages@.len() - i,
    {
        proof {
            lemma_prefixed_join_push(msgs.take(i as int), msgs[i as int], sep);
            assert(msgs.take(i + 1) =~= msgs.take(i as int).push(msgs[i as int]));
        }
        push_sep(&mut out);
        push_str_chars(&mut out, messages[i].as_str());
        i = i + 1;
    }
    assert(msgs.take(messages@.len() as int) =~= msgs);
    let cs = chars_of(stderr);
    let (b, e) = trim_bounds(&cs);
    let t = slice_chars(&cs, b, e);
    let ghost mut done: Seq<Seq<char>> = seq![];
    let mut j: usize = 0;
    assert(lines(t@) =~= done + lines_from(t@, 0));
    while j < t.len()
        invariant
            j <= t@.len(),
            t@ == trim(stderr@),
            sep == diag_sep(),
            lines(t@) == done + lines_from(t@, j as int),
            out@ == prefixed_join(msgs + done.map_values(|l: Seq<char>| trim(l)), sep),
        decreases t@.len() - j,
    {
        let (line, next) = next_line(&t, j);
        let (lb, le) = trim_bounds(&line);
        proof {
            let before = msgs + done.map_values(|l: Seq<char>| trim(l));
            lemma_prefixed_join_push(before, trim(line@), sep);
            assert(msgs + done.push(line@).map_values(|l: Seq<char>| trim(l)) =~= before.push(
                trim(line@),
            ));
            assert(done + lines_from(t@, j as int) =~= done.push(line@) + lines_from(
                t@,
                next as int,
            ));
        }
        push_sep(&mut out);
        push_chars(&mut out, &line, lb, le);
        proof {
            done = done.push(line@);
        }
        j = next;
    }
    proof {
        assert(lines_from(t@, j as int) == Seq::<Seq<char>>::empty());
        assert(done + Seq::<Seq<char>>::empty() =~= done);
        let parts = diagnostic_lines(msgs, stderr@);
        assert(parts =~= msgs + done.map_values(|l: Seq<char>| trim(l)));
        if parts.len() > 0 {
            lemma_prefixed_join(parts, sep);
        } else {
            assert(out@ == Seq::<char>::empty());
        }
    }
    out
}

/// `\n  (full output: PATH)` when the raw output was saved to `PATH`.
pub open spec fn log_hint_spec(log_path: Option<Seq<char>>) -> Seq<char> {
    match log_path {
        Some(p) => "\n  (full output: "@ + p + ")"@,
        None => seq![],
    }
}

/// The error of a run of the script, or `None` when it succeeded: it
/// failed when its exit status was not success, or when it exported
/// nothing.
pub open spec fn failure_message_spec(
    success: bool,
    status: Seq<char>,
    exported: bool,
    messages: Seq<Seq<char>>,
    stderr: Seq<char>,
    log_path: Option<Seq<char>>,
) -> Option<Seq<char>> {
    if !success {
        Some(
            "assume-role exited with "@ + status + format_diagnostics_spec(messages, stderr)
                + log_hint_spec(log_path),
        )
    } else if !exported {
        Some(
            "assume-role returned no credentials"@ + format_diagnostics_spec(messages, stderr)
                + log_hint_spec(log_path),
        )
    } else {
        None
    }
}

/// Decides the outcome of a run of the script from its exit status (whether
/// it was success, and how it reads), its parsed stdout, its stderr and the
/// place its raw output was saved to, if any.
pub fn failure_message(
    success: bool,
    status: &str,
    parsed: &AssumeOutput,
    stderr: &str,
    log_path: Option<&str>,
) -> (r: Option<String>)
    requires
        parsed.exports.wf(),
    ensures
        (match r {
            Some(m) => Some(m@),
            None => None,
        }) == failure_message_spec(
            success,
            status@,
            parsed.exports@.dom().len() > 0,
            string_views(parsed.messages@),
            stderr@,
            match log_path {
                Some(p) => Some(p@),
                None => None,
            },
        ),
{
    let exported = !parsed.exports.is_empty();
    if success && exported {
        return None;
    }
    let mut m = String::new();
    if !success {
        push_str_chars(&mut m, "assume-role exited with ");
        push_str_chars(&mut m, status);
    } else {
        push_str_chars(&mut m, "assume-role returned no credentials");
    }
    let d = format_diagnostics(parsed.messages.as_slice(), stderr);
    push_str_chars(&mut m, d.as_str());
    match log_path {
        Some(p) => {
            push_str_chars(&mut m, "\n  (full output: ");
            push_str_chars(&mut m, p);
            push_str_chars(&mut m, ")");
        },
        None => {},
    }
    Some(m)
}


/// Where the script is when `AWS_UTILS_ASSUME_ROLE` does not say.
pub const DEFAULT_BINARY: &'static str = "/usr/local/bin/assume-role";

/// The script's path: the value of `AWS_UTILS_ASSUME_ROLE` when it is set,
/// else [`DEFAULT_BINARY`].
pub fn binary_path(override_path: Option<&str>) -> (r: String)
    ensures
        r@ == match override_path {
            Some(p) => p@,
            None => DEFAULT_BINARY@,
        },
{
    let mut r = String::new();
    match override_path {
        Some(p) => push_str_chars(&mut r, p),
        None => push_str_chars(&mut r, DEFAULT_BINARY),
    }
    r
}

/// Whether a session is already active: `AWS_SESSION_TOKEN` is set and not
/// empty.
pub fn has_active_session(session_token: Option<&str>) -> (r: bool)
    ensures
        r == match session_token {
            Some(t) => t@.len() > 0,
            None => false,
        },
{
    match session_token {
        Some(t) => {
            let cs = chars_of(t);
            cs.len() > 0
        },
        None => false,
    }
}

/// The `bash -c` program that sources the script at `path` and calls its
/// function on the first positional argument.
pub open spec fn source_command_spec(path: Seq<char>) -> Seq<char> {
    "source "@ + quoted(path) + "; assume-role \"$1\"; exit $?"@
}

/// Builds the `bash -c` program for the script at `path` (inner quotes
/// escaped).
pub fn source_command(path: &str) -> (r: String)
    ensures
        r@ == source_command_spec(path@),
{
    let mut r = String::new();
    push_str_chars(&mut r, "source ");
    push_quoted(&mut r, path);
    push_str_chars(&mut r, "; assume-role \"$1\"; exit $?");
    r
}

/// The contents of the debug log written after a failed run.
pub open spec fn debug_log_body_spec(
    account: Seq<char>,
    status: Seq<char>,
    stdout: Seq<char>,
    stderr: Seq<char>,
) -> Seq<char> {
    "account: "@ + account + "\nexit: "@ + status + "\n\n=== stdout ===\n"@ + stdout
        + "\n=== stderr ===\n"@ + stderr
}

/// The raw output of a failed run, with the account and the exit status.
pub fn debug_log_body(account: &str, status: &str, stdout: &str, stderr: &str) -> (r: String)
    ensures
        r@ == debug_log_body_spec(account@, status@, stdout@, stderr@),
{
    let mut r = String::new();
    push_str_chars(&mut r, "account: ");
    push_str_chars(&mut r, account);
    push_str_chars(&mut r, "\nexit: ");
    push_str_chars(&mut r, status);
    push_str_chars(&mut r, "\n\n=== stdout ===\n");
    push_str_chars(&mut r, stdout);
    push_str_chars(&mut r, "\n=== stderr ===\n");
    push_str_chars(&mut r, stderr);
    r
}

/// The pairs whose name is copied into the process environment, in order.
pub open spec fn propagated_spec(es: Seq<(Seq<char>, Seq<char>)>) -> Seq<(Seq<char>, Seq<char>)>
    decreases es.len(),
{
    if es.len() == 0 {
        seq![]
    } else if is_propagated_spec(es.last().0) {
        propagated_spec(es.drop_last()).push(es.last())
    } else {
        propagated_spec(es.drop_last())
    }
}

/// The variables to set in the process environment: those of `vars` whose
/// name is `AWS_*`, `GEO_ENV` or `KUBECONFIG`.
pub fn propagated(vars: &ExportMap) -> (r: Vec<(String, String)>)
    requires
        vars.wf(),
    ensures
        entry_views(r@) == propagated_spec(vars.pairs()),
{
    let mut r: Vec<(String, String)> = Vec::new();
    let n = vars.len();
    let mut i: usize = 0;
    while i < n
        invariant
            i <= n == vars.pairs().len(),
            vars.wf(),
            entry_views(r@) == propagated_spec(vars.pairs().take(i as int)),
        decreases n - i,
    {
        let (k, v) = vars.entry(i);
        let ghost es = vars.pairs();
        assert(es.take(i + 1).drop_last() =~= es.take(i as int));
        assert(es.take(i + 1).last() == es[i as int]);
        if is_propagated(k.as_str()) {
            let ghost before = r@;
            r.push((k.clone(), v.clone()));
            assert(entry_views(r@) =~= entry_views(before).push((k@, v@)));
        }
        i = i + 1;
    }
    assert(vars.pairs().take(n as int) =~= vars.pairs());
    r
}

/// Characters that a backslash protects inside a double-quoted shell word.
pub open spec fn needs_escape(c: char) -> bool {
    c == '\\' || c == '"' || c == '$' || c == '`'
}

/// `v` as the inside of a double-quoted shell word.
pub open spec fn shell_escape(v: Seq<char>) -> Seq<char>
    decreases v.len(),
{
    if v.len() == 0 {
        seq![]
    } else if needs_escape(v[0]) {
        seq!['\\', v[0]] + shell_escape(v.drop_first())
    } else {
        seq![v[0]] + shell_escape(v.drop_first())
    }
}

/// The line that sets one variable: `export NAME="VALUE";` and a line break.
pub open spec fn export_line(name: Seq<char>, value: Seq<char>) -> Seq<char> {
    seq!['e', 'x', 'p', 'o', 'r', 't', ' '] + name + seq!['=', '"'] + shell_escape(value) + seq![
        '"',
        ';',
        '\n',
    ]
}

/// The export lines of all pairs, in order.
pub open spec fn render_exports_spec(es: Seq<(Seq<char>, Seq<char>)>) -> Seq<char>
    decreases es.len(),
{
    if es.len() == 0 {
        seq![]
    } else {
        render_exports_spec(es.drop_last()) + export_line(es.last().0, es.last().1)
    }
}

fn push_shell_escaped(out: &mut String, v: &str)
    ensures
        final(out)@ == old(out)@ + shell_escape(v@),
{
    let cs = chars_of(v);
    let ghost start = out@;
    let mut i: usize = 0;
    assert(cs@.skip(0) =~= cs@);
    while i < cs.len()
        invariant
            i <= cs@.len(),
            cs@ == v@,
            out@ + shell_escape(cs@.skip(i as int)) == start + shell_escape(v@),
        decreases cs@.len() - i,
    {
        let ghost before = out@;
        let ghost rest = cs@.skip(i as int);
        assert(rest.drop_first() =~= cs@.skip(i + 1));
        let c = cs[i];
        if c == '\\' || c == '"' || c == '$' || c == '`' {
            push_char(out, '\\');
        }
        push_char(out, c);
        assert(out@ + shell_escape(cs@.skip(i + 1)) =~= before + shell_escape(rest));
        i = i + 1;
    }
    assert(shell_escape(cs@.skip(cs@.len() as int)) =~= Seq::<char>::empty()) by {
        assert(cs@.skip(cs@.len() as int) =~= Seq::<char>::empty());
    }
    assert(out@ + Seq::<char>::empty() =~= out@);
}

/// The session script: one `export NAME="VALUE";` line per variable, values
/// escaped for a double-quoted shell word. `eval` of it sets the variables,
/// and [`parse_output`] reads them back.
pub fn render_exports(vars: &ExportMap) -> (r: String)
    requires
        vars.wf(),
    ensures
        r@ == render_exports_spec(vars.pairs()),
{
    let mut r = String::new();
    let n = vars.len();
    let mut i: usize = 0;
    while i < n
        invariant
            i <= n == vars.pairs().len(),
            vars.wf(),
            r@ == render_exports_spec(vars.pairs().take(i as int)),
        decreases n - i,
    {
        let (k, v) = vars.entry(i);
        let ghost es = vars.pairs();
        assert(es.take(i + 1).drop_last() =~= es.take(i as int));
        assert(es.take(i + 1).last() == es[i as int]);
        let ghost before = r@;
        proof {
            reveal_strlit("export ");
            reveal_strlit("=\"");
            reveal_strlit("\";\n");
        }
        push_str_chars(&mut r, "export ");
        push_str_chars(&mut r, k.as_str());
        push_str_chars(&mut r, "=\"");
        push_shell_escaped(&mut r, v.as_str());
        push_str_chars(&mut r, "\";\n");
        assert(r@ =~= before + export_line(k@, v@));
        i = i + 1;
    }
    assert(vars.pairs().take(n as int) =~= vars.pairs());
    r
}

/// The variables the script may set; cleared on logout when no session
/// file names them.
pub open spec fn standard_vars() -> Seq<Seq<char>> {
    seq![
        "AWS_ACCESS_KEY_ID"@,
        "AWS_ACCOUNT_ID"@,
        "AWS_ACCOUNT_NAME"@,
        "AWS_ACCOUNT_ROLE"@,
        "AWS_DEFAULT_REGION"@,
        "AWS_PROFILE_ASSUME_ROLE"@,
        "AWS_REGION"@,
        "AWS_SECRET_ACCESS_KEY"@,
        "AWS_SECURITY_TOKEN"@,
        "AWS_SESSION_ACCESS_KEY_ID"@,
        "AWS_SESSION_SECRET_ACCESS_KEY"@,
        "AWS_SESSION_SECURITY_TOKEN"@,
        "AWS_SESSION_SESSION_TOKEN"@,
        "AWS_SESSION_START"@,
        "AWS_SESSION_TOKEN"@,
        "AWS_STS_ROLE_ARN"@,
        "GEO_ENV"@,
        "KUBECONFIG"@,
    ]
}

/// The variables a session file sets (none when there is no file).
pub open spec fn session_exports(session_text: Option<Seq<char>>) -> Map<Seq<char>, Seq<char>> {
    match session_text {
        Some(t) => parse_output_spec(t).0,
        None => Map::empty(),
    }
}

/// Whether the map has any key.
pub open spec fn sets_any(m: Map<Seq<char>, Seq<char>>) -> bool {
    exists|x: Seq<char>| m.dom().contains(x)
}

/// Whether logout clears `k`: the variables of the session file when it
/// sets any, else the standard ones.
pub open spec fn logout_clears(session_text: Option<Seq<char>>, k: Seq<char>) -> bool {
    if sets_any(session_exports(session_text)) {
        session_exports(session_text).dom().contains(k)
    } else {
        standard_vars().contains(k)
    }
}

/// The variables that logout clears, sorted and without duplicates, from
/// the session file's text (`None` when there is none or it cannot be
/// read).
pub fn logout_keys(session_text: Option<&str>) -> (r: Vec<String>)
    ensures
        strictly_sorted(string_views(r@)),
        forall|k: Seq<char>|
            string_views(r@).contains(k) <==> logout_clears(
                match session_text {
                    Some(t) => Some(t@),
                    None => None,
                },
                k,
            ),
{
    let mut names: Vec<String> = Vec::new();
    let ghost text_view = match session_text {
        Some(t) => Some(t@),
        None => None,
    };
    let ghost ex = session_exports(text_view);
    match session_text {
        Some(t) => {
            let parsed = parse_output(t);
            proof {
                parsed.exports.lemma_view();
            }
            names = parsed.exports.keys();
            proof {
                let es = parsed.exports.pairs();
                assert forall|k: Seq<char>| string_views(names@).contains(k) <==> ex.dom().contains(
                    k,
                ) by {
                    if string_views(names@).contains(k) {
                        let i = choose|i: int|
                            0 <= i < string_views(names@).len() && string_views(names@)[i] == k;
                        assert(es[i].0 == k);
                    }
                    if ex.dom().contains(k) {
                        let i = choose|i: int| 0 <= i < es.len() && (#[trigger] es[i]).0 == k;
                        assert(string_views(names@)[i] == k);
                    }
                }
            }
        },
        None => {
            assert(forall|k: Seq<char>| !ex.dom().contains(k));
        },
    }
    assert(forall|k: Seq<char>| string_views(names@).contains(k) <==> ex.dom().contains(k));
    let from_file = names.len() > 0;
    proof {
        if from_file {
            assert(ex.dom().contains(string_views(names@)[0]));
        } else {
            assert forall|x: Seq<char>| !ex.dom().contains(x) by {
                if ex.dom().contains(x) {
                    assert(string_views(names@).contains(x));
                }
            }
        }
    }
    if !from_file {
        names = standard_var_names();
    }
    proof {
        if from_file {
            assert(sets_any(ex));
        } else {
            assert(!sets_any(ex));
        }
    }
    assert forall|k: Seq<char>|
        string_views(names@).contains(k) <==> logout_clears(text_view, k) by {
        if from_file {
            assert(string_views(names@).contains(k) <==> ex.dom().contains(k));
        } else {
            assert(string_views(names@) == standard_vars());
        }
    }
    let mut keys: Vec<Vec<char>> = Vec::new();
    let mut i: usize = 0;
    while i < names.len()
        invariant
            i <= names@.len(),
            strictly_sorted(char_views(keys@)),
            forall|k: Seq<char>|
                char_views(keys@).contains(k) <==> string_views(names@).take(i as int).contains(k),
        decreases names@.len() - i,
    {
        let ghost before = char_views(keys@);
        insert_sorted(&mut keys, chars_of(names[i].as_str()));
        proof {
            let sv = string_views(names@);
            let t0 = sv.take(i as int);
            let t1 = sv.take(i + 1);
            assert(t1 =~= t0.push(sv[i as int]));
            assert forall|k: Seq<char>| char_views(keys@).contains(k) <==> t1.contains(k) by {
                if t1.contains(k) && k != sv[i as int] {
                    let j = choose|j: int| 0 <= j < t1.len() && t1[j] == k;
                    assert(t0[j] == k);
                }
                if t0.contains(k) {
                    let j = choose|j: int| 0 <= j < t0.len() && t0[j] == k;
                    assert(t1[j] == k);
                }
                if k == sv[i as int] {
                    assert(t1[i as int] == k);
                }
            }
        }
        i = i + 1;
    }
    assert(string_views(names@).take(names@.len() as int) =~= string_views(names@));
    to_strings(&keys)
}


fn owned(s: &str) -> (r: String)
    ensures
        r@ == s@,
{
    let mut r = String::new();
    push_str_chars(&mut r, s);
    r
}

/// The standard variables, as strings.
fn standard_var_names() -> (r: Vec<String>)
    ensures
        string_views(r@) == standard_vars(),
{
    let r = vec![
        owned("AWS_ACCESS_KEY_ID"),
        owned("AWS_ACCOUNT_ID"),
        owned("AWS_ACCOUNT_NAME"),
        owned("AWS_ACCOUNT_ROLE"),
        owned("AWS_DEFAULT_REGION"),
        owned("AWS_PROFILE_ASSUME_ROLE"),
        owned("AWS_REGION"),
        owned("AWS_SECRET_ACCESS_KEY"),
        owned("AWS_SECURITY_TOKEN"),
        owned("AWS_SESSION_ACCESS_KEY_ID"),
        owned("AWS_SESSION_SECRET_ACCESS_KEY"),
        owned("AWS_SESSION_SECURITY_TOKEN"),
        owned("AWS_SESSION_SESSION_TOKEN"),
        owned("AWS_SESSION_START"),
        owned("AWS_SESSION_TOKEN"),
        owned("AWS_STS_ROLE_ARN"),
        owned("GEO_ENV"),
        owned("KUBECONFIG"),
    ];
    assert(string_views(r@) =~= standard_vars());
    r
}

/// The lines that clear the variables: `unset NAME;` each.
pub open spec fn unset_script_spec(keys: Seq<Seq<char>>) -> Seq<char>
    decreases keys.len(),
{
    if keys.len() == 0 {
        seq![]
    } else {
        unset_script_spec(keys.drop_last()) + "unset "@ + keys.last() + ";\n"@
    }
}

/// One `unset NAME;` line per variable, in order.
pub fn unset_script(keys: &[String]) -> (r: String)
    ensures
        r@ == unset_script_spec(string_views(keys@)),
{
    let mut r = String::new();
    let mut i: usize = 0;
    while i < keys.len()
        invariant
            i <= keys@.len(),
            r@ == unset_script_spec(string_views(keys@).take(i as int)),
        decreases keys@.len() - i,
    {
        let ghost ks = string_views(keys@);
        assert(ks.take(i + 1).drop_last() =~= ks.take(i as int));
        let ghost before = r@;
        push_str_chars(&mut r, "unset ");
        push_str_chars(&mut r, keys[i].as_str());
        push_str_chars(&mut r, ";\n");
        assert(r@ =~= unset_script_spec(ks.take(i + 1)));
        i = i + 1;
    }
    assert(string_views(keys@).take(keys@.len() as int) =~= string_views(keys@));
    r
}


/// `dirs::cache_dir()`, as a string; `None` also when the directory is not
/// valid UTF-8 (the library holds paths as strings, and a lossy
/// conversion would name another directory). It depends on the
/// environment and the platform; nothing is claimed of the result.
#[verifier::external_body]
fn os_cache_dir() -> (r: Option<String>) {
    dirs::cache_dir().and_then(|p| p.into_os_string().into_string().ok())
}

/// The session script under the cache directory `base`:
/// `aws-utils/session.sh`.
pub fn session_file_in(base: &str) -> (r: String)
    ensures
        r@ == crate::paths::path_join(crate::paths::path_join(base@, "aws-utils"@), "session.sh"@),
{
    let dir = crate::paths::join(base, "aws-utils");
    crate::paths::join(dir.as_str(), "session.sh")
}

/// The debug log of the last failed run under the cache directory `base`:
/// `aws-utils/assume-role-last.log`.
pub fn debug_log_in(base: &str) -> (r: String)
    ensures
        r@ == crate::paths::path_join(
            crate::paths::path_join(base@, "aws-utils"@),
            "assume-role-last.log"@,
        ),
{
    let dir = crate::paths::join(base, "aws-utils");
    crate::paths::join(dir.as_str(), "assume-role-last.log")
}

/// The session script, when the OS cache directory is known. Whether it
/// is known depends on the environment and the platform, so when the
/// result is `None` is left unsaid; `session_file_in` states the path for
/// a given directory.
pub fn session_file_path() -> (r: Option<String>)
    ensures
        r matches Some(p) ==> exists|base: Seq<char>|
            p@ == crate::paths::path_join(
                #[trigger] crate::paths::path_join(base, "aws-utils"@),
                "session.sh"@,
            ),
{
    match os_cache_dir() {
        Some(base) => Some(session_file_in(base.as_str())),
        None => None,
    }
}

/// The debug log of the last failed run, when the OS cache directory is
/// known. Whether it is known depends on the environment and the
/// platform, so when the result is `None` is left unsaid; `debug_log_in`
/// states the path for a given directory.
pub fn debug_log_path() -> (r: Option<String>)
    ensures
        r matches Some(p) ==> exists|base: Seq<char>|
            p@ == crate::paths::path_join(
                #[trigger] crate::paths::path_join(base, "aws-utils"@),
                "assume-role-last.log"@,
            ),
{
    match os_cache_dir() {
        Some(base) => Some(debug_log_in(base.as_str())),
        None => None,
    }
}

} // verus!
