//! Character-level helpers shared by the parsers and renderers: character
//! classes, trimming, lexicographic order, and conversions between strings
//! and character vectors.

use vstd::prelude::*;

verus! {

/// `String::push`: appends one character.
#[verifier::external_body]
pub(crate) fn push_char(s: &mut String, c: char)
    ensures
        final(s)@ == old(s)@.push(c),
{
    s.push(c);
}

/// The characters of `s`, in order.
pub fn chars_of(s: &str) -> (out: Vec<char>)
    ensures
        out@ == s@,
{
    let mut out: Vec<char> = Vec::new();
    for c in it: s.chars()
        invariant
            out@ == it.seq().take(it.index() as int),
            it.seq() == s@,
    {
        out.push(c);
    }
    out
}

/// The string made of the characters `cs[from..to]`.
pub fn string_of(cs: &Vec<char>, from: usize, to: usize) -> (out: String)
    requires
        from <= to <= cs@.len(),
    ensures
        out@ == cs@.subrange(from as int, to as int),
{
    let mut out = String::new();
    let mut i = from;
    while i < to
        invariant
            from <= i <= to <= cs@.len(),
            out@ == cs@.subrange(from as int, i as int),
        decreases to - i,
    {
        push_char(&mut out, cs[i]);
        assert(cs@.subrange(from as int, i + 1) =~= cs@.subrange(from as int, i as int).push(
            cs@[i as int],
        ));
        i = i + 1;
    }
    out
}

/// Appends the characters `cs[from..to]` to `out`.
pub fn push_chars(out: &mut String, cs: &Vec<char>, from: usize, to: usize)
    requires
        from <= to <= cs@.len(),
    ensures
        final(out)@ == old(out)@ + cs@.subrange(from as int, to as int),
{
    let ghost start = out@;
    let mut i = from;
    while i < to
        invariant
            from <= i <= to <= cs@.len(),
            out@ == start + cs@.subrange(from as int, i as int),
        decreases to - i,
    {
        push_char(out, cs[i]);
        assert(cs@.subrange(from as int, i + 1) =~= cs@.subrange(from as int, i as int).push(
            cs@[i as int],
        ));
        i = i + 1;
    }
}

pub open spec fn is_ascii_upper(c: char) -> bool {
    'A' <= c && c <= 'Z'
}

pub open spec fn is_ascii_lower(c: char) -> bool {
    'a' <= c && c <= 'z'
}

pub open spec fn is_ascii_alpha(c: char) -> bool {
    is_ascii_upper(c) || is_ascii_lower(c)
}

pub open spec fn is_ascii_digit(c: char) -> bool {
    '0' <= c && c <= '9'
}

/// Every character is an ASCII digit.
pub open spec fn all_digits(s: Seq<char>) -> bool {
    forall|k: int| 0 <= k < s.len() ==> is_ascii_digit(#[trigger] s[k])
}

/// A year as `%Y` writes it: four digits (zero-padded) for years 0 to
/// 9999, otherwise a sign and at least four digits.
pub open spec fn year_text(y: Seq<char>) -> bool {
    ||| y.len() == 4 && all_digits(y)
    ||| y.len() >= 5 && (y[0] == '+' || y[0] == '-') && all_digits(y.skip(1))
}

/// Two digits at `i` and `i + 1`.
pub open spec fn two_digits_at(s: Seq<char>, i: int) -> bool {
    is_ascii_digit(s[i]) && is_ascii_digit(s[i + 1])
}

/// A date as `%Y-%m-%d` writes it: the year, `-`, two digits of month,
/// `-`, two digits of day.
pub open spec fn ymd_text(s: Seq<char>) -> bool {
    let n = s.len() as int;
    &&& n >= 10
    &&& year_text(s.take(n - 6))
    &&& s[n - 6] == '-'
    &&& two_digits_at(s, n - 5)
    &&& s[n - 3] == '-'
    &&& two_digits_at(s, n - 2)
}

/// A date as `%d-%m-%Y` writes it: two digits of day, `-`, two digits of
/// month, `-`, the year.
pub open spec fn dmy_text(s: Seq<char>) -> bool {
    &&& s.len() >= 10
    &&& two_digits_at(s, 0)
    &&& s[2] == '-'
    &&& two_digits_at(s, 3)
    &&& s[5] == '-'
    &&& year_text(s.skip(6))
}

/// A character of an identifier-like word: ASCII letter, digit or `_`.
pub open spec fn is_word(c: char) -> bool {
    is_ascii_alpha(c) || is_ascii_digit(c) || c == '_'
}

/// `char::to_ascii_uppercase`.
pub open spec fn upper(c: char) -> char {
    if is_ascii_lower(c) {
        ((c as u32) - 32) as char
    } else {
        c
    }
}

/// `char::to_ascii_lowercase`.
pub open spec fn lower(c: char) -> char {
    if is_ascii_upper(c) {
        ((c as u32) + 32) as char
    } else {
        c
    }
}

pub open spec fn upper_seq(s: Seq<char>) -> Seq<char> {
    Seq::new(s.len(), |i: int| upper(s[i]))
}

pub open spec fn lower_seq(s: Seq<char>) -> Seq<char> {
    Seq::new(s.len(), |i: int| lower(s[i]))
}

/// The Unicode `White_Space` property, which `char::is_whitespace`, `trim`
/// and `\s` all use.
pub open spec fn is_space(c: char) -> bool {
    let u = c as u32;
    (0x09 <= u && u <= 0x0D) || u == 0x20 || u == 0x85 || u == 0xA0 || u == 0x1680 || (0x2000 <= u
        && u <= 0x200A) || u == 0x2028 || u == 0x2029 || u == 0x202F || u == 0x205F || u == 0x3000
}

pub fn is_word_char(c: char) -> (b: bool)
    ensures
        b == is_word(c),
{
    ('A' <= c && c <= 'Z') || ('a' <= c && c <= 'z') || ('0' <= c && c <= '9') || c == '_'
}

pub fn is_alpha_char(c: char) -> (b: bool)
    ensures
        b == is_ascii_alpha(c),
{
    ('A' <= c && c <= 'Z') || ('a' <= c && c <= 'z')
}

pub fn is_digit_char(c: char) -> (b: bool)
    ensures
        b == is_ascii_digit(c),
{
    '0' <= c && c <= '9'
}

pub fn is_space_char(c: char) -> (b: bool)
    ensures
        b == is_space(c),
{
    let u = c as u32;
    (0x09 <= u && u <= 0x0D) || u == 0x20 || u == 0x85 || u == 0xA0 || u == 0x1680 || (0x2000 <= u
        && u <= 0x200A) || u == 0x2028 || u == 0x2029 || u == 0x202F || u == 0x205F || u == 0x3000
}

pub fn to_upper(c: char) -> (r: char)
    ensures
        r == upper(c),
{
    if 'a' <= c && c <= 'z' {
        let u = (c as u32) - 32;
        assert(u < 128);
        (u as u8) as char
    } else {
        c
    }
}

pub fn to_lower(c: char) -> (r: char)
    ensures
        r == lower(c),
{
    if 'A' <= c && c <= 'Z' {
        let u = (c as u32) + 32;
        assert(u < 128);
        (u as u8) as char
    } else {
        c
    }
}

/// Index of the first character at or after `from` that is not white space
/// (the length when there is none).
pub open spec fn skip_space(s: Seq<char>, from: int) -> int
    decreases s.len() - from,
{
    if from < s.len() && is_space(s[from]) {
        skip_space(s, from + 1)
    } else {
        from
    }
}

/// End of the content when trailing white space before `to` is dropped.
pub open spec fn trim_end_at(s: Seq<char>, to: int) -> int
    decreases to,
{
    if 0 < to && is_space(s[to - 1]) {
        trim_end_at(s, to - 1)
    } else {
        to
    }
}

/// `str::trim_end`.
pub open spec fn trim_end(s: Seq<char>) -> Seq<char> {
    s.take(trim_end_at(s, s.len() as int))
}

/// `str::trim_start`.
pub open spec fn trim_start(s: Seq<char>) -> Seq<char> {
    s.skip(skip_space(s, 0))
}

/// `str::trim`.
pub open spec fn trim(s: Seq<char>) -> Seq<char> {
    trim_start(trim_end(s))
}

pub proof fn lemma_skip_space_bounds(s: Seq<char>, from: int)
    requires
        0 <= from <= s.len(),
    ensures
        from <= skip_space(s, from) <= s.len(),
        forall|k: int| from <= k < skip_space(s, from) ==> is_space(#[trigger] s[k]),
        skip_space(s, from) < s.len() ==> !is_space(s[skip_space(s, from)]),
    decreases s.len() - from,
{
    if from < s.len() && is_space(s[from]) {
        lemma_skip_space_bounds(s, from + 1);
    }
}

pub proof fn lemma_trim_end_bounds(s: Seq<char>, to: int)
    requires
        0 <= to <= s.len(),
    ensures
        0 <= trim_end_at(s, to) <= to,
        forall|k: int| trim_end_at(s, to) <= k < to ==> is_space(#[trigger] s[k]),
        trim_end_at(s, to) > 0 ==> !is_space(s[trim_end_at(s, to) - 1]),
    decreases to,
{
    if 0 < to && is_space(s[to - 1]) {
        lemma_trim_end_bounds(s, to - 1);
    }
}

/// Position of the first non-space character in `cs[from..to]`.
pub fn skip_space_exec(cs: &Vec<char>, from: usize, to: usize) -> (r: usize)
    requires
        from <= to <= cs@.len(),
    ensures
        from <= r <= to,
        forall|k: int| from <= k < r ==> is_space(#[trigger] cs@[k]),
        r < to ==> !is_space(cs@[r as int]),
        to == cs@.len() ==> r == skip_space(cs@, from as int),
{
    let mut i = from;
    while i < to && is_space_char(cs[i])
        invariant
            from <= i <= to <= cs@.len(),
            forall|k: int| from <= k < i ==> is_space(#[trigger] cs@[k]),
            to == cs@.len() ==> skip_space(cs@, i as int) == skip_space(cs@, from as int),
        decreases to - i,
    {
        i = i + 1;
    }
    i
}

/// End of `cs[from..to]` once its trailing white space is dropped.
pub fn trim_end_exec(cs: &Vec<char>, from: usize, to: usize) -> (r: usize)
    requires
        from <= to <= cs@.len(),
    ensures
        from <= r <= to,
        forall|k: int| r <= k < to ==> is_space(#[trigger] cs@[k]),
        r > from ==> !is_space(cs@[r - 1]),
        from == 0 ==> r == trim_end_at(cs@, to as int),
{
    let mut j = to;
    while j > from && is_space_char(cs[j - 1])
        invariant
            from <= j <= to <= cs@.len(),
            forall|k: int| j <= k < to ==> is_space(#[trigger] cs@[k]),
            from == 0 ==> trim_end_at(cs@, j as int) == trim_end_at(cs@, to as int),
        decreases j,
    {
        j = j - 1;
    }
    j
}

/// Lexicographic order by code point: the order of `String` (UTF-8 bytes
/// compare as their code points do).
pub open spec fn seq_lt(a: Seq<char>, b: Seq<char>) -> bool
    decreases a.len(),
{
    if a.len() == 0 {
        b.len() > 0
    } else if b.len() == 0 {
        false
    } else if a[0] != b[0] {
        a[0] < b[0]
    } else {
        seq_lt(a.drop_first(), b.drop_first())
    }
}

pub proof fn lemma_lt_irreflexive(a: Seq<char>)
    ensures
        !seq_lt(a, a),
    decreases a.len(),
{
    if a.len() > 0 {
        lemma_lt_irreflexive(a.drop_first());
    }
}

pub proof fn lemma_lt_transitive(a: Seq<char>, b: Seq<char>, c: Seq<char>)
    requires
        seq_lt(a, b),
        seq_lt(b, c),
    ensures
        seq_lt(a, c),
    decreases a.len(),
{
    if a.len() > 0 && b.len() > 0 && c.len() > 0 && a[0] == b[0] && b[0] == c[0] {
        lemma_lt_transitive(a.drop_first(), b.drop_first(), c.drop_first());
    }
}

pub proof fn lemma_lt_total(a: Seq<char>, b: Seq<char>)
    ensures
        a == b || seq_lt(a, b) || seq_lt(b, a),
    decreases a.len(),
{
    if a.len() > 0 && b.len() > 0 && a[0] == b[0] {
        lemma_lt_total(a.drop_first(), b.drop_first());
        if a.drop_first() == b.drop_first() {
            assert(a =~= seq![a[0]] + a.drop_first());
            assert(b =~= seq![b[0]] + b.drop_first());
        }
    } else if a.len() == 0 && b.len() == 0 {
        assert(a =~= b);
    }
}

pub proof fn lemma_lt_asymmetric(a: Seq<char>, b: Seq<char>)
    requires
        seq_lt(a, b),
    ensures
        !seq_lt(b, a),
{
    if seq_lt(b, a) {
        lemma_lt_transitive(a, b, a);
        lemma_lt_irreflexive(a);
    }
}

/// `a < b` in the order of [`seq_lt`].
pub fn chars_lt(a: &Vec<char>, b: &Vec<char>) -> (r: bool)
    ensures
        r == seq_lt(a@, b@),
{
    let mut i: usize = 0;
    assert(a@.skip(0) =~= a@);
    assert(b@.skip(0) =~= b@);
    while i < a.len() && i < b.len() && a[i] == b[i]
        invariant
            i <= a@.len(),
            i <= b@.len(),
            seq_lt(a@, b@) == seq_lt(a@.skip(i as int), b@.skip(i as int)),
        decreases a@.len() - i,
    {
        assert(a@.skip(i as int).drop_first() =~= a@.skip(i + 1));
        assert(b@.skip(i as int).drop_first() =~= b@.skip(i + 1));
        i = i + 1;
    }
    if i == a.len() {
        i < b.len()
    } else if i == b.len() {
        false
    } else {
        a[i] < b[i]
    }
}

/// Whether `a` and `b` hold the same characters.
pub fn chars_eq(a: &Vec<char>, b: &Vec<char>) -> (r: bool)
    ensures
        r == (a@ == b@),
{
    if a.len() != b.len() {
        return false;
    }
    let mut i: usize = 0;
    while i < a.len()
        invariant
            a@.len() == b@.len(),
            i <= a@.len(),
            forall|k: int| 0 <= k < i ==> a@[k] == b@[k],
        decreases a@.len() - i,
    {
        if a[i] != b[i] {
            return false;
        }
        i = i + 1;
    }
    assert(a@ =~= b@);
    true
}

/// Whether the strings `a` and `b` are equal.
pub fn str_eq(a: &str, b: &str) -> (r: bool)
    ensures
        r == (a@ == b@),
{
    chars_eq(&chars_of(a), &chars_of(b))
}

/// The first `n` characters of `s` (all of them when it is shorter).
pub open spec fn take_chars(s: Seq<char>, n: int) -> Seq<char> {
    if s.len() <= n {
        s
    } else {
        s.take(n)
    }
}

/// `s.chars().take(7).collect()`: the short form of a commit hash.
pub fn short(sha: &str) -> (r: String)
    ensures
        r@ == take_chars(sha@, 7),
{
    let cs = chars_of(sha);
    let n = if cs.len() < 7 { cs.len() } else { 7 };
    let r = string_of(&cs, 0, n);
    assert(cs@.subrange(0, n as int) =~= take_chars(sha@, 7));
    r
}

/// The short form of a commit hash (its first seven characters).
pub fn short_sha(sha: &str) -> (r: String)
    ensures
        r@ == take_chars(sha@, 7),
{
    short(sha)
}

/// Whether `s` begins with `p`.
pub open spec fn has_prefix(s: Seq<char>, p: Seq<char>) -> bool {
    p.len() <= s.len() && s.take(p.len() as int) == p
}

/// Whether `p` occurs in `s`.
pub open spec fn contains_seq(s: Seq<char>, p: Seq<char>) -> bool {
    exists|i: int| 0 <= i && i + p.len() <= s.len() && #[trigger] s.subrange(i, i + p.len()) == p
}

/// Whether `p` occurs in `cs` at position `at`.
pub fn occurs_at(cs: &Vec<char>, p: &Vec<char>, at: usize) -> (r: bool)
    ensures
        r == (at + p@.len() <= cs@.len() && cs@.subrange(at as int, at + p@.len()) == p@),
{
    if p.len() > cs.len() || at > cs.len() - p.len() {
        return false;
    }
    let mut i: usize = 0;
    while i < p.len()
        invariant
            at + p@.len() <= cs@.len(),
            at + p.len() <= cs.len(),
            i <= p@.len(),
            forall|k: int| 0 <= k < i ==> cs@[at + k] == p@[k],
        decreases p@.len() - i,
    {
        if cs[at + i] != p[i] {
            assert(cs@.subrange(at as int, at + p@.len())[i as int] != p@[i as int]);
            return false;
        }
        i = i + 1;
    }
    assert(cs@.subrange(at as int, at + p@.len()) =~= p@);
    true
}

/// Whether `p` occurs anywhere in `cs`.
pub fn contains_chars(cs: &Vec<char>, p: &Vec<char>) -> (r: bool)
    ensures
        r == contains_seq(cs@, p@),
{
    if p.len() > cs.len() {
        return false;
    }
    let last = cs.len() - p.len();
    let mut i: usize = 0;
    while i <= last
        invariant
            last + p@.len() == cs@.len(),
            i <= last + 1,
            forall|k: int|
                0 <= k < i ==> #[trigger] cs@.subrange(k, k + p@.len()) != p@,
        decreases last + 1 - i,
    {
        if occurs_at(cs, p, i) {
            return true;
        }
        if i == last {
            return false;
        }
        i = i + 1;
    }
    false
}

/// Whether `s` begins with the characters of `p`.
pub fn starts_with_chars(cs: &Vec<char>, p: &Vec<char>) -> (r: bool)
    ensures
        r == has_prefix(cs@, p@),
{
    let r = occurs_at(cs, p, 0);
    assert(cs@.subrange(0, p@.len() as int) =~= cs@.take(p@.len() as int));
    r
}

/// Index of the first `\n` at or after `i` (the length when there is none).
pub open spec fn first_nl(s: Seq<char>, i: int) -> int
    decreases s.len() - i,
{
    if i >= s.len() {
        s.len() as int
    } else if s[i] == '\n' {
        i
    } else {
        first_nl(s, i + 1)
    }
}

/// A line without the `\r` of a `\r\n` ending.
pub open spec fn strip_cr(l: Seq<char>) -> Seq<char> {
    if l.len() > 0 && l.last() == '\r' {
        l.drop_last()
    } else {
        l
    }
}

/// `str::lines` of `s[i..]`: pieces ended by `\n` (a `\r` before it is
/// dropped too); a final piece without `\n` counts when it is not empty.
pub open spec fn lines_from(s: Seq<char>, i: int) -> Seq<Seq<char>>
    decreases s.len() - i,
{
    if i < 0 || i >= s.len() {
        seq![]
    } else {
        let j = first_nl(s, i);
        proof {
            lemma_first_nl_bounds(s, i);
        }
        if j < s.len() {
            seq![strip_cr(s.subrange(i, j))] + lines_from(s, j + 1)
        } else {
            seq![s.subrange(i, s.len() as int)]
        }
    }
}

/// `str::lines`.
pub open spec fn lines(s: Seq<char>) -> Seq<Seq<char>> {
    lines_from(s, 0)
}

pub proof fn lemma_first_nl_bounds(s: Seq<char>, i: int)
    requires
        0 <= i <= s.len(),
    ensures
        i <= first_nl(s, i) <= s.len(),
        forall|k: int| i <= k < first_nl(s, i) ==> s[k] != '\n',
        first_nl(s, i) < s.len() ==> s[first_nl(s, i)] == '\n',
    decreases s.len() - i,
{
    if i < s.len() && s[i] != '\n' {
        lemma_first_nl_bounds(s, i + 1);
    }
}

/// Index of the first `\n` in `cs[i..]`, or the length.
pub fn first_nl_exec(cs: &Vec<char>, i: usize) -> (r: usize)
    requires
        i <= cs@.len(),
    ensures
        r == first_nl(cs@, i as int),
        i <= r <= cs@.len(),
{
    let mut j = i;
    while j < cs.len() && cs[j] != '\n'
        invariant
            i <= j <= cs@.len(),
            first_nl(cs@, j as int) == first_nl(cs@, i as int),
        decreases cs@.len() - j,
    {
        j = j + 1;
    }
    j
}

/// The next line of `cs` from the line start `i`: its content and the start
/// of the line after it.
pub fn next_line(cs: &Vec<char>, i: usize) -> (r: (Vec<char>, usize))
    requires
        i < cs@.len(),
    ensures
        i < r.1 <= cs@.len(),
        lines_from(cs@, i as int) == seq![r.0@] + lines_from(cs@, r.1 as int),
{
    let j = first_nl_exec(cs, i);
    if j < cs.len() {
        let mut end = j;
        if end > i && cs[end - 1] == '\r' {
            end = end - 1;
        }
        let mut line: Vec<char> = Vec::new();
        let mut k = i;
        while k < end
            invariant
                i <= k <= end <= cs@.len(),
                line@ == cs@.subrange(i as int, k as int),
            decreases end - k,
        {
            line.push(cs[k]);
            assert(line@ =~= cs@.subrange(i as int, k + 1));
            k = k + 1;
        }
        if end < j {
            assert(cs@.subrange(i as int, j as int).drop_last() =~= cs@.subrange(i as int, j - 1));
        }
        assert(line@ == strip_cr(cs@.subrange(i as int, j as int)));
        (line, j + 1)
    } else {
        let mut line: Vec<char> = Vec::new();
        let mut k = i;
        while k < cs.len()
            invariant
                i <= k <= cs@.len(),
                line@ == cs@.subrange(i as int, k as int),
            decreases cs@.len() - k,
        {
            line.push(cs[k]);
            assert(line@ =~= cs@.subrange(i as int, k + 1));
            k = k + 1;
        }
        assert(lines_from(cs@, cs@.len() as int) == Seq::<Seq<char>>::empty());
        assert(seq![line@] + Seq::<Seq<char>>::empty() =~= seq![line@]);
        (line, cs.len())
    }
}

/// The characters of `cs[from..to]`.
pub fn slice_chars(cs: &Vec<char>, from: usize, to: usize) -> (r: Vec<char>)
    requires
        from <= to <= cs@.len(),
    ensures
        r@ == cs@.subrange(from as int, to as int),
{
    let mut r: Vec<char> = Vec::new();
    let mut k = from;
    while k < to
        invariant
            from <= k <= to <= cs@.len(),
            r@ == cs@.subrange(from as int, k as int),
        decreases to - k,
    {
        r.push(cs[k]);
        assert(r@ =~= cs@.subrange(from as int, k + 1));
        k = k + 1;
    }
    r
}

/// Every character is white space.
pub open spec fn all_space(s: Seq<char>) -> bool {
    forall|k: int| 0 <= k < s.len() ==> is_space(#[trigger] s[k])
}

/// Whether `cs[from..to]` is all white space.
pub fn all_space_exec(cs: &Vec<char>, from: usize, to: usize) -> (r: bool)
    requires
        from <= to <= cs@.len(),
    ensures
        r == all_space(cs@.subrange(from as int, to as int)),
{
    let mut k = from;
    while k < to
        invariant
            from <= k <= to <= cs@.len(),
            forall|m: int| from <= m < k ==> is_space(#[trigger] cs@[m]),
        decreases to - k,
    {
        if !is_space_char(cs[k]) {
            assert(cs@.subrange(from as int, to as int)[k - from] == cs@[k as int]);
            return false;
        }
        k = k + 1;
    }
    assert forall|m: int| 0 <= m < to - from implies is_space(
        #[trigger] cs@.subrange(from as int, to as int)[m],
    ) by {
        assert(cs@.subrange(from as int, to as int)[m] == cs@[from + m]);
    }
    true
}

/// `s` joined with `sep` between consecutive parts.
pub open spec fn join_with(parts: Seq<Seq<char>>, sep: Seq<char>) -> Seq<char>
    decreases parts.len(),
{
    if parts.len() == 0 {
        seq![]
    } else if parts.len() == 1 {
        parts[0]
    } else {
        join_with(parts.drop_last(), sep) + sep + parts.last()
    }
}


/// `skip_space` pinned down by what it finds: white space up to `r`, and
/// at `r` the end or a character that is not white space.
pub proof fn lemma_skip_space_at(s: Seq<char>, from: int, r: int)
    requires
        0 <= from <= r <= s.len(),
        forall|k: int| from <= k < r ==> is_space(#[trigger] s[k]),
        r == s.len() || !is_space(s[r]),
    ensures
        skip_space(s, from) == r,
    decreases r - from,
{
    if from < r {
        lemma_skip_space_at(s, from + 1, r);
    }
}

/// The bounds of `trim(cs)` inside `cs`.
pub fn trim_bounds(cs: &Vec<char>) -> (r: (usize, usize))
    ensures
        r.0 <= r.1 <= cs@.len(),
        trim(cs@) == cs@.subrange(r.0 as int, r.1 as int),
{
    let e = trim_end_exec(cs, 0, cs.len());
    let b = skip_space_exec(cs, 0, e);
    proof {
        let t = cs@.take(e as int);
        assert(trim_end(cs@) == t);
        lemma_skip_space_at(t, 0, b as int);
        assert(t.skip(b as int) =~= cs@.subrange(b as int, e as int));
    }
    (b, e)
}

/// `str::trim`, as a new string.
pub fn trim_string(s: &str) -> (r: String)
    ensures
        r@ == trim(s@),
{
    let cs = chars_of(s);
    let (b, e) = trim_bounds(&cs);
    string_of(&cs, b, e)
}

/// Each part preceded by `sep`, all concatenated.
pub open spec fn prefixed_join(parts: Seq<Seq<char>>, sep: Seq<char>) -> Seq<char>
    decreases parts.len(),
{
    if parts.len() == 0 {
        seq![]
    } else {
        prefixed_join(parts.drop_last(), sep) + sep + parts.last()
    }
}

/// Putting `sep` before every part is putting it once in front of the
/// parts joined by it.
pub proof fn lemma_prefixed_join(parts: Seq<Seq<char>>, sep: Seq<char>)
    requires
        parts.len() > 0,
    ensures
        prefixed_join(parts, sep) == sep + join_with(parts, sep),
    decreases parts.len(),
{
    if parts.len() == 1 {
        assert(parts.drop_last() =~= Seq::<Seq<char>>::empty());
        assert(prefixed_join(parts.drop_last(), sep) == Seq::<char>::empty());
        assert(prefixed_join(parts, sep) =~= sep + parts[0]);
    } else {
        lemma_prefixed_join(parts.drop_last(), sep);
        assert(prefixed_join(parts, sep) =~= sep + join_with(parts, sep));
    }
}

/// Appending one part adds `sep` and the part.
pub proof fn lemma_prefixed_join_push(parts: Seq<Seq<char>>, p: Seq<char>, sep: Seq<char>)
    ensures
        prefixed_join(parts.push(p), sep) == prefixed_join(parts, sep) + sep + p,
{
    assert(parts.push(p).drop_last() =~= parts);
}

/// Appends `s` to `out`.
pub fn push_str_chars(out: &mut String, s: &str)
    ensures
        final(out)@ == old(out)@ + s@,
{
    let cs = chars_of(s);
    push_chars(out, &cs, 0, cs.len());
    assert(cs@.subrange(0, cs@.len() as int) =~= s@);
}


/// Searching for a line break in `p + y` past `p` is searching in `y`.
pub proof fn lemma_first_nl_shift(p: Seq<char>, y: Seq<char>, i: int)
    requires
        0 <= i <= y.len(),
    ensures
        first_nl(p + y, p.len() + i) == p.len() + first_nl(y, i),
    decreases y.len() - i,
{
    if i < y.len() && y[i] != '\n' {
        assert((p + y)[p.len() + i] == y[i]);
        lemma_first_nl_shift(p, y, i + 1);
    } else if i < y.len() {
        assert((p + y)[p.len() + i] == y[i]);
    }
}

/// The lines of `p + y` from past `p` are the lines of `y`.
pub proof fn lemma_lines_shift(p: Seq<char>, y: Seq<char>, i: int)
    requires
        0 <= i <= y.len(),
    ensures
        lines_from(p + y, p.len() + i) == lines_from(y, i),
    decreases y.len() - i,
{
    if i < y.len() {
        let s = p + y;
        lemma_first_nl_shift(p, y, i);
        lemma_first_nl_bounds(y, i);
        let j = first_nl(y, i);
        if j < y.len() {
            lemma_lines_shift(p, y, j + 1);
            assert(s.subrange(p.len() + i, p.len() + j) =~= y.subrange(i, j));
        } else {
            assert(s.subrange(p.len() + i, s.len() as int) =~= y.subrange(i, y.len() as int));
        }
    }
}

/// Within `x + y`, the first line break at or after `i` is the one in `x`
/// when `x` has one there.
pub proof fn lemma_first_nl_prefix(x: Seq<char>, y: Seq<char>, i: int)
    requires
        0 <= i <= x.len(),
        first_nl(x, i) < x.len(),
    ensures
        first_nl(x + y, i) == first_nl(x, i),
    decreases x.len() - i,
{
    assert((x + y)[i] == x[i]);
    if x[i] != '\n' {
        lemma_first_nl_prefix(x, y, i + 1);
    }
}

/// When `x` ends with a line break, the lines of `x + y` are those of `x`
/// followed by those of `y`.
pub proof fn lemma_lines_concat(x: Seq<char>, y: Seq<char>)
    requires
        x.len() > 0,
        x.last() == '\n',
    ensures
        lines(x + y) == lines(x) + lines(y),
{
    lemma_lines_concat_from(x, y, 0);
}

proof fn lemma_lines_concat_from(x: Seq<char>, y: Seq<char>, i: int)
    requires
        x.len() > 0,
        x.last() == '\n',
        0 <= i <= x.len(),
    ensures
        lines_from(x + y, i) == lines_from(x, i) + lines_from(y, 0),
    decreases x.len() - i,
{
    let s = x + y;
    if i == x.len() {
        lemma_lines_shift(x, y, 0);
        assert(lines_from(x, i) == Seq::<Seq<char>>::empty());
        assert(Seq::<Seq<char>>::empty() + lines_from(y, 0) =~= lines_from(y, 0));
    } else {
        lemma_first_nl_bounds(x, i);
        assert(first_nl(x, i) < x.len()) by {
            if first_nl(x, i) == x.len() {
                assert(x[x.len() - 1] != '\n');
            }
        }
        lemma_first_nl_prefix(x, y, i);
        let j = first_nl(x, i);
        lemma_lines_concat_from(x, y, j + 1);
        assert(s.subrange(i, j) =~= x.subrange(i, j));
        assert(lines_from(s, i) == seq![strip_cr(x.subrange(i, j))] + lines_from(s, j + 1));
        assert(lines_from(x, i) == seq![strip_cr(x.subrange(i, j))] + lines_from(x, j + 1));
        assert(lines_from(s, i) =~= lines_from(x, i) + lines_from(y, 0));
    }
}

/// A line without a break, ended by one and not by `\r`, is one line.
pub proof fn lemma_lines_single(body: Seq<char>)
    requires
        forall|k: int| 0 <= k < body.len() ==> body[k] != '\n',
        body.len() > 0,
        body.last() != '\r',
    ensures
        lines(body.push('\n')) == seq![body],
{
    let s = body.push('\n');
    lemma_first_nl_bounds(s, 0);
    assert(first_nl(s, 0) == body.len()) by {
        if first_nl(s, 0) < body.len() {
            assert(s[first_nl(s, 0)] == body[first_nl(s, 0)]);
        }
        assert(s[body.len() as int] == '\n');
    }
    assert(s.subrange(0, body.len() as int) =~= body);
    assert(lines_from(s, (body.len() + 1) as int) == Seq::<Seq<char>>::empty());
    assert(lines(s) =~= seq![body]);
}


/// Index of the first `c` at or after `i` (the length when there is none).
pub open spec fn find_char(s: Seq<char>, c: char, i: int) -> int
    decreases s.len() - i,
{
    if i < 0 || i >= s.len() {
        if i < 0 {
            0
        } else {
            s.len() as int
        }
    } else if s[i] == c {
        i
    } else {
        find_char(s, c, i + 1)
    }
}

pub proof fn lemma_find_char_bounds(s: Seq<char>, c: char, i: int)
    requires
        0 <= i <= s.len(),
    ensures
        i <= find_char(s, c, i) <= s.len(),
        forall|k: int| i <= k < find_char(s, c, i) ==> s[k] != c,
        find_char(s, c, i) < s.len() ==> s[find_char(s, c, i)] == c,
    decreases s.len() - i,
{
    if i < s.len() && s[i] != c {
        lemma_find_char_bounds(s, c, i + 1);
    }
}

/// `find_char` is `j` when no `c` comes before `j` and `j` is a `c` or the
/// end.
pub proof fn lemma_find_char_at(s: Seq<char>, c: char, i: int, j: int)
    requires
        0 <= i <= j <= s.len(),
        forall|k: int| i <= k < j ==> s[k] != c,
        j == s.len() || s[j] == c,
    ensures
        find_char(s, c, i) == j,
    decreases j - i,
{
    if i < j {
        lemma_find_char_at(s, c, i + 1, j);
    }
}

/// Index of the first `c` in `cs[i..]`, or the length.
pub fn find_char_exec(cs: &Vec<char>, c: char, i: usize) -> (r: usize)
    requires
        i <= cs@.len(),
    ensures
        r == find_char(cs@, c, i as int),
        i <= r <= cs@.len(),
{
    proof {
        lemma_find_char_bounds(cs@, c, i as int);
    }
    let mut j = i;
    while j < cs.len() && cs[j] != c
        invariant
            i <= j <= cs@.len(),
            find_char(cs@, c, j as int) == find_char(cs@, c, i as int),
        decreases cs@.len() - j,
    {
        j = j + 1;
    }
    j
}

/// `s` with the suffix `p` removed as many times as it ends it
/// (`str::trim_end_matches`).
pub open spec fn trim_end_seq(s: Seq<char>, p: Seq<char>) -> Seq<char>
    decreases s.len(),
{
    if p.len() > 0 && p.len() <= s.len() && s.subrange(s.len() - p.len(), s.len() as int) == p {
        trim_end_seq(s.subrange(0, s.len() - p.len()), p)
    } else {
        s
    }
}


/// The decimal digits of `n`.
pub open spec fn decimal(n: nat) -> Seq<char>
    decreases n,
{
    if n < 10 {
        seq![(48 + n) as char]
    } else {
        decimal(n / 10) + seq![(48 + n % 10) as char]
    }
}

/// Appends the decimal digits of `n`.
pub fn push_decimal(out: &mut String, n: usize)
    ensures
        final(out)@ == old(out)@ + decimal(n as nat),
    decreases n,
{
    let ghost start = out@;
    if n >= 10 {
        push_decimal(out, n / 10);
    }
    let d = (n % 10) as u8;
    let c = (48u8 + d) as char;
    assert(c == (48 + n % 10) as char);
    push_char(out, c);
    assert(out@ =~= start + decimal(n as nat));
}



/// Joins `parts` with `sep` between consecutive ones (`[String]::join`).
pub fn join_strings(parts: &[String], sep: &str) -> (r: String)
    ensures
        r@ == join_with(parts@.map_values(|p: String| p@), sep@),
{
    let ghost ps = parts@.map_values(|p: String| p@);
    let mut r = String::new();
    let mut i: usize = 0;
    while i < parts.len()
        invariant
            i <= parts@.len(),
            ps == parts@.map_values(|p: String| p@),
            r@ == join_with(ps.take(i as int), sep@),
        decreases parts@.len() - i,
    {
        let ghost t1 = ps.take(i + 1);
        assert(t1.drop_last() =~= ps.take(i as int));
        assert(t1.last() == parts@[i as int]@);
        if i > 0 {
            push_str_chars(&mut r, sep);
        } else {
            assert(ps.take(0) =~= Seq::<Seq<char>>::empty());
        }
        push_str_chars(&mut r, parts[i].as_str());
        assert(r@ =~= join_with(t1, sep@));
        i = i + 1;
    }
    assert(ps.take(parts@.len() as int) =~= ps);
    r
}

} // verus!
