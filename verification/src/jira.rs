//! Ticket keys in commit messages, the issue tracker's URLs and search
//! query, and the basic-auth credential header.

use vstd::prelude::*;
use vstd::string::{StringExecFns, StringSliceAdditionalSpecFns};
use crate::base64::{b64_encode, basic_b64};
use crate::error::AppError;
use crate::keyset::{
    char_views, insert_sorted, lemma_strictly_sorted_unique, string_views, strictly_sorted,
    to_strings,
};
use crate::sorting::{sort_by_key, stable_sorted_of, Keyed};
use crate::text::{
    chars_of, string_of, is_ascii_alpha, is_ascii_digit, is_ascii_upper, is_word, is_alpha_char, is_digit_char, is_word_char,
    push_char, push_chars, to_upper, upper, upper_seq, lower, lower_seq,
};

verus! {

/// Whether `c` is a Unicode word character, as
/// `regex_syntax::try_is_word_character` answers it (the `\w` class of
/// Unicode regular expressions: `Alphabetic`, `Join_Control`, decimal
/// numbers, marks and connector punctuation).
pub uninterp spec fn unicode_word(c: char) -> bool;

/// `regex_syntax::try_is_word_character(c)`. It fails only when the
/// crate's `unicode-perl` feature is off, which its default features keep
/// on; that failure is read as "not a word character".
#[verifier::external_body]
fn unicode_word_char(c: char) -> (r: bool)
    ensures
        r == unicode_word(c),
{
    regex_syntax::try_is_word_character(c).unwrap_or(false)
}

/// A word character for word boundaries: `[0-9A-Za-z_]` among ASCII
/// characters, and a Unicode word character beyond them.
pub open spec fn text_word(c: char) -> bool {
    if (c as u32) < 128 {
        is_word(c)
    } else {
        unicode_word(c)
    }
}

fn text_word_char(c: char) -> (r: bool)
    ensures
        r == text_word(c),
{
    if (c as u32) < 128 {
        is_word_char(c)
    } else {
        unicode_word_char(c)
    }
}

/// A letter of a key's project part, whatever its case: an ASCII letter,
/// or one of the two characters that fold to one (KELVIN SIGN, which
/// folds to `k`, and LATIN SMALL LETTER LONG S, which folds to `s`).
pub open spec fn key_letter(c: char) -> bool {
    is_ascii_alpha(c) || c == '\u{212A}' || c == '\u{17F}'
}

/// A character of a key's project part: a key letter, an ASCII digit or
/// `_`.
pub open spec fn key_char(c: char) -> bool {
    key_letter(c) || is_ascii_digit(c) || c == '_'
}

fn key_letter_char(c: char) -> (r: bool)
    ensures
        r == key_letter(c),
{
    is_alpha_char(c) || c == '\u{212A}' || c == '\u{17F}'
}

fn key_char_char(c: char) -> (r: bool)
    ensures
        r == key_char(c),
{
    key_letter_char(c) || is_digit_char(c) || c == '_'
}

/// End of the run of project-part characters from `i`.
pub open spec fn word_end(s: Seq<char>, i: int) -> int
    decreases s.len() - i,
{
    if 0 <= i < s.len() && key_char(s[i]) {
        word_end(s, i + 1)
    } else {
        i
    }
}

/// The ranges of characters of the regular-expression class `pattern`, as
/// `regex_syntax::parse` gives them (`None` when the pattern does not
/// parse to a class of characters).
pub uninterp spec fn class_ranges(pattern: Seq<char>) -> Option<Seq<(char, char)>>;

/// `regex_syntax::parse(pattern)`; when the result is a class of Unicode
/// characters, its ranges as `(start, end)` pairs, both ends included.
#[verifier::external_body]
fn unicode_class(pattern: &str) -> (r: Option<Vec<(char, char)>>)
    ensures
        match r {
            Some(v) => class_ranges(pattern@) == Some(v@),
            None => class_ranges(pattern@) is None,
        },
{
    match regex_syntax::parse(pattern).map(|h| h.into_kind()) {
        Ok(regex_syntax::hir::HirKind::Class(regex_syntax::hir::Class::Unicode(c))) => {
            Some(c.ranges().iter().map(|x| (x.start(), x.end())).collect())
        },
        _ => None,
    }
}

/// The Unicode decimal digits, as the ranges of the class `\d`.
pub open spec fn digit_class() -> Seq<(char, char)> {
    match class_ranges("\\d"@) {
        Some(rs) => rs,
        None => Seq::empty(),
    }
}

/// `c` lies in one of the ranges `rs`.
pub open spec fn in_ranges(c: char, rs: Seq<(char, char)>) -> bool {
    exists|i: int| 0 <= i < rs.len() && (#[trigger] rs[i]).0 <= c && c <= rs[i].1
}

/// A digit of a key's number: an ASCII digit, or beyond ASCII a Unicode
/// decimal digit.
pub open spec fn key_digit(c: char) -> bool {
    if (c as u32) < 128 {
        is_ascii_digit(c)
    } else {
        in_ranges(c, digit_class())
    }
}

fn key_digit_char(c: char, digits: &Vec<(char, char)>) -> (r: bool)
    requires
        digits@ == digit_class(),
    ensures
        r == key_digit(c),
{
    if (c as u32) < 128 {
        return is_digit_char(c);
    }
    let mut i: usize = 0;
    while i < digits.len()
        invariant
            i <= digits@.len(),
            digits@ == digit_class(),
            (c as u32) >= 128,
            forall|k: int| 0 <= k < i ==> !(digits@[k].0 <= c && c <= digits@[k].1),
        decreases digits@.len() - i,
    {
        let (a, b) = digits[i];
        if a <= c && c <= b {
            assert(digits@[i as int].0 <= c && c <= digits@[i as int].1);
            assert(in_ranges(c, digits@));
            return true;
        }
        i = i + 1;
    }
    false
}

/// The ranges of the decimal digits.
fn digit_ranges() -> (r: Vec<(char, char)>)
    ensures
        r@ == digit_class(),
{
    match unicode_class("\\d") {
        Some(v) => v,
        None => Vec::new(),
    }
}

/// End of the run of key digits from `i`.
pub open spec fn digit_end(s: Seq<char>, i: int) -> int
    decreases s.len() - i,
{
    if 0 <= i < s.len() && key_digit(s[i]) {
        digit_end(s, i + 1)
    } else {
        i
    }
}

/// The ticket key that starts at position `p` of `s`, in canonical form.
///
/// A key is a project part of at least two characters (key letters, ASCII
/// digits, `_`) starting with a key letter, `-`, and a number of ASCII
/// digits; it stands between word boundaries, where word characters are
/// those of Unicode. Letters match whatever their case, and the project
/// part is given with its ASCII letters in upper case.
pub open spec fn key_at(s: Seq<char>, p: int) -> Option<Seq<char>> {
    if 0 <= p < s.len() && (p == 0 || !text_word(s[p - 1])) && key_letter(s[p]) {
        let q = word_end(s, p);
        if q >= p + 2 && q < s.len() && s[q] == '-' {
            let r = digit_end(s, q + 1);
            if r > q + 1 && (r == s.len() || !text_word(s[r])) {
                Some(upper_seq(s.subrange(p, q)) + seq!['-'] + s.subrange(q + 1, r))
            } else {
                None
            }
        } else {
            None
        }
    } else {
        None
    }
}

/// `k` is the canonical form of a ticket key referenced in `s`.
pub open spec fn references_key(s: Seq<char>, k: Seq<char>) -> bool {
    exists|p: int| #[trigger] key_at(s, p) == Some(k)
}

/// `c` in upper case (`up`) or lower case.
pub open spec fn cased(c: char, up: bool) -> char {
    if up {
        upper(c)
    } else {
        lower(c)
    }
}

pub open spec fn cased_seq(s: Seq<char>, up: bool) -> Seq<char> {
    Seq::new(s.len(), |i: int| cased(s[i], up))
}

proof fn lemma_cased_char(c: char, up: bool)
    ensures
        text_word(cased(c, up)) == text_word(c),
        key_letter(cased(c, up)) == key_letter(c),
        key_char(cased(c, up)) == key_char(c),
        key_digit(c) ==> cased(c, up) == c,
        key_digit(cased(c, up)) == key_digit(c),
        (cased(c, up) == '-') == (c == '-'),
        upper(cased(c, up)) == upper(c),
{
}

proof fn lemma_cased_word_end(s: Seq<char>, up: bool, i: int)
    ensures
        word_end(cased_seq(s, up), i) == word_end(s, i),
    decreases s.len() - i,
{
    if 0 <= i < s.len() {
        lemma_cased_char(s[i], up);
        lemma_cased_word_end(s, up, i + 1);
    }
}

proof fn lemma_cased_digit_end(s: Seq<char>, up: bool, i: int)
    ensures
        digit_end(cased_seq(s, up), i) == digit_end(s, i),
    decreases s.len() - i,
{
    if 0 <= i < s.len() {
        lemma_cased_char(s[i], up);
        lemma_cased_digit_end(s, up, i + 1);
    }
}

proof fn lemma_cased_key_at(s: Seq<char>, up: bool, p: int)
    ensures
        key_at(cased_seq(s, up), p) == key_at(s, p),
{
    let t = cased_seq(s, up);
    if 0 <= p < s.len() {
        lemma_cased_char(s[p], up);
        if p > 0 {
            lemma_cased_char(s[p - 1], up);
        }
        lemma_cased_word_end(s, up, p);
        let q = word_end(s, p);
        if 0 <= q < s.len() {
            lemma_cased_char(s[q], up);
            lemma_cased_digit_end(s, up, q + 1);
            lemma_digit_end_bounds(s, q + 1);
            let r = digit_end(s, q + 1);
            if 0 <= r < s.len() {
                lemma_cased_char(s[r], up);
            }
            lemma_word_end_bounds(s, p);
            if q >= p + 2 {
                assert(upper_seq(t.subrange(p, q)) =~= upper_seq(s.subrange(p, q))) by {
                    assert forall|k: int| 0 <= k < q - p implies upper(#[trigger] t.subrange(p, q)[k])
                        == upper(s.subrange(p, q)[k]) by {
                        lemma_cased_char(s[p + k], up);
                    }
                }
                if r > q + 1 {
                    assert(t.subrange(q + 1, r) =~= s.subrange(q + 1, r)) by {
                        assert forall|k: int| 0 <= k < r - (q + 1) implies #[trigger] t.subrange(q + 1, r)[k]
                            == s.subrange(q + 1, r)[k] by {
                            lemma_cased_char(s[q + 1 + k], up);
                        }
                    }
                }
            }
        }
    }
}

/// Case does not matter to the keys a message references: the message in
/// lower case, or in upper case, references exactly the same keys.
pub proof fn law_keys_ignore_case(message: Seq<char>, k: Seq<char>)
    ensures
        references_key(lower_seq(message), k) == references_key(message, k),
        references_key(upper_seq(message), k) == references_key(message, k),
{
    lemma_keys_ignore_case(message, k);
}

/// [`keys_in`] gives the same keys for a message, for the message in
/// lower case and for the message in upper case: results that meet its
/// contract for the three messages are equal.
pub proof fn law_keys_in_ignores_case(
    message: Seq<char>,
    keys: Seq<Seq<char>>,
    keys_lower: Seq<Seq<char>>,
    keys_upper: Seq<Seq<char>>,
)
    requires
        strictly_sorted(keys),
        strictly_sorted(keys_lower),
        strictly_sorted(keys_upper),
        forall|k: Seq<char>| keys.contains(k) <==> references_key(message, k),
        forall|k: Seq<char>| keys_lower.contains(k) <==> references_key(lower_seq(message), k),
        forall|k: Seq<char>| keys_upper.contains(k) <==> references_key(upper_seq(message), k),
    ensures
        keys_lower == keys,
        keys_upper == keys,
{
    assert forall|k: Seq<char>| keys_lower.contains(k) == keys.contains(k) by {
        lemma_keys_ignore_case(message, k);
    }
    assert forall|k: Seq<char>| keys_upper.contains(k) == keys.contains(k) by {
        lemma_keys_ignore_case(message, k);
    }
    lemma_strictly_sorted_unique(keys_lower, keys);
    lemma_strictly_sorted_unique(keys_upper, keys);
}

proof fn lemma_keys_ignore_case(message: Seq<char>, k: Seq<char>)
    ensures
        references_key(lower_seq(message), k) == references_key(message, k),
        references_key(upper_seq(message), k) == references_key(message, k),
{
    assert(lower_seq(message) =~= cased_seq(message, false));
    assert(upper_seq(message) =~= cased_seq(message, true));
    if references_key(message, k) {
        let p = choose|p: int| #[trigger] key_at(message, p) == Some(k);
        lemma_cased_key_at(message, false, p);
        lemma_cased_key_at(message, true, p);
    }
    if references_key(lower_seq(message), k) {
        let p = choose|p: int| #[trigger] key_at(lower_seq(message), p) == Some(k);
        lemma_cased_key_at(message, false, p);
    }
    if references_key(upper_seq(message), k) {
        let p = choose|p: int| #[trigger] key_at(upper_seq(message), p) == Some(k);
        lemma_cased_key_at(message, true, p);
    }
}

proof fn lemma_digit_end_bounds(s: Seq<char>, i: int)
    requires
        0 <= i <= s.len(),
    ensures
        i <= digit_end(s, i) <= s.len(),
        forall|k: int| i <= k < digit_end(s, i) ==> key_digit(#[trigger] s[k]),
    decreases s.len() - i,
{
    if i < s.len() && key_digit(s[i]) {
        lemma_digit_end_bounds(s, i + 1);
    }
}

proof fn lemma_word_end_bounds(s: Seq<char>, i: int)
    requires
        0 <= i <= s.len(),
    ensures
        i <= word_end(s, i) <= s.len(),
        forall|k: int| i <= k < word_end(s, i) ==> key_char(#[trigger] s[k]),
    decreases s.len() - i,
{
    if i < s.len() && key_char(s[i]) {
        lemma_word_end_bounds(s, i + 1);
    }
}

fn word_end_exec(cs: &Vec<char>, i: usize) -> (r: usize)
    requires
        i <= cs@.len(),
    ensures
        r == word_end(cs@, i as int),
        i <= r <= cs@.len(),
{
    let mut j = i;
    while j < cs.len() && key_char_char(cs[j])
        invariant
            i <= j <= cs@.len(),
            word_end(cs@, j as int) == word_end(cs@, i as int),
        decreases cs@.len() - j,
    {
        j = j + 1;
    }
    j
}

fn digit_end_exec(cs: &Vec<char>, i: usize, digits: &Vec<(char, char)>) -> (r: usize)
    requires
        i <= cs@.len(),
        digits@ == digit_class(),
    ensures
        r == digit_end(cs@, i as int),
        i <= r <= cs@.len(),
{
    let mut j = i;
    while j < cs.len() && key_digit_char(cs[j], digits)
        invariant
            digits@ == digit_class(),
            i <= j <= cs@.len(),
            digit_end(cs@, j as int) == digit_end(cs@, i as int),
        decreases cs@.len() - j,
    {
        j = j + 1;
    }
    j
}

fn key_at_exec(cs: &Vec<char>, p: usize, digits: &Vec<(char, char)>) -> (r: Option<Vec<char>>)
    requires
        p < cs@.len(),
        digits@ == digit_class(),
    ensures
        (match r {
            Some(v) => Some(v@),
            None => None,
        }) == key_at(cs@, p as int),
{
    if !((p == 0 || !text_word_char(cs[p - 1])) && key_letter_char(cs[p])) {
        return None;
    }
    let q = word_end_exec(cs, p);
    if !(q - p >= 2 && q < cs.len() && cs[q] == '-') {
        return None;
    }
    let r = digit_end_exec(cs, q + 1, digits);
    if !(r > q + 1 && (r == cs.len() || !text_word_char(cs[r]))) {
        return None;
    }
    let mut key: Vec<char> = Vec::new();
    let mut i = p;
    while i < q
        invariant
            p <= i <= q <= cs@.len(),
            key@ == upper_seq(cs@.subrange(p as int, i as int)),
        decreases q - i,
    {
        key.push(to_upper(cs[i]));
        assert(key@ =~= upper_seq(cs@.subrange(p as int, i + 1)));
        i = i + 1;
    }
    key.push('-');
    let mut i = q + 1;
    let ghost head = key@;
    while i < r
        invariant
            q + 1 <= i <= r <= cs@.len(),
            key@ == head + cs@.subrange(q + 1, i as int),
        decreases r - i,
    {
        key.push(cs[i]);
        assert(key@ =~= head + cs@.subrange(q + 1, i + 1));
        i = i + 1;
    }
    assert(head =~= upper_seq(cs@.subrange(p as int, q as int)) + seq!['-']);
    Some(key)
}

/// Every character of `s` is ASCII.
pub open spec fn is_ascii_text(s: Seq<char>) -> bool {
    forall|i: int| 0 <= i < s.len() ==> ((#[trigger] s[i]) as u32) < 128
}

/// `k` has the shape `[A-Z][A-Z0-9_]+-[0-9]+`: an upper-case project part
/// of at least two characters starting with a letter, `-`, and digits.
pub open spec fn ascii_key_shape(k: Seq<char>) -> bool {
    exists|n: int|
        2 <= n && n + 2 <= k.len() && #[trigger] k[n] == '-' && is_ascii_upper(k[0]) && (forall|
            i: int,
        |
            0 <= i < n ==> is_ascii_upper(#[trigger] k[i]) || is_ascii_digit(k[i]) || k[i] == '_')
            && (forall|i: int| n < i < k.len() ==> is_ascii_digit(#[trigger] k[i]))
}

/// In an ASCII message every key found has the shape
/// `[A-Z][A-Z0-9_]+-[0-9]+`.
pub proof fn law_ascii_keys_shape(message: Seq<char>, k: Seq<char>)
    requires
        is_ascii_text(message),
        references_key(message, k),
    ensures
        ascii_key_shape(k),
{
    let s = message;
    let p = choose|p: int| #[trigger] key_at(s, p) == Some(k);
    let q = word_end(s, p);
    lemma_word_end_bounds(s, p);
    lemma_digit_end_bounds(s, q + 1);
    let r = digit_end(s, q + 1);
    let head = upper_seq(s.subrange(p, q));
    assert(k == head + seq!['-'] + s.subrange(q + 1, r));
    let n = q - p;
    assert((s[p] as u32) < 128);
    assert(k[n] == '-');
    assert(k[0] == upper(s[p]));
    assert forall|i: int| 0 <= i < n implies is_ascii_upper(#[trigger] k[i]) || is_ascii_digit(k[i])
        || k[i] == '_' by {
        assert(k[i] == upper(s[p + i]));
        assert(key_char(s[p + i]));
        assert((s[p + i] as u32) < 128);
    }
    assert forall|i: int| n < i < k.len() implies is_ascii_digit(#[trigger] k[i]) by {
        assert(k[i] == s[q + 1 + (i - n - 1)]);
        assert(key_digit(s[q + 1 + (i - n - 1)]));
        assert((s[q + 1 + (i - n - 1)] as u32) < 128);
    }
}

/// A project part of a key as plain ASCII: at least two characters, the
/// first an ASCII letter, the others ASCII letters, digits or `_`.
pub open spec fn ascii_project(p: Seq<char>) -> bool {
    &&& p.len() >= 2
    &&& is_ascii_alpha(p[0])
    &&& forall|i: int|
        0 <= i < p.len() ==> is_ascii_alpha(#[trigger] p[i]) || is_ascii_digit(p[i]) || p[i] == '_'
}

/// A key's number as plain ASCII: one or more ASCII digits.
pub open spec fn ascii_number(d: Seq<char>) -> bool {
    d.len() >= 1 && forall|i: int| 0 <= i < d.len() ==> is_ascii_digit(#[trigger] d[i])
}

proof fn lemma_word_end_at(s: Seq<char>, i: int, j: int)
    requires
        0 <= i <= j <= s.len(),
        forall|k: int| i <= k < j ==> key_char(#[trigger] s[k]),
        j == s.len() || !key_char(s[j]),
    ensures
        word_end(s, i) == j,
    decreases j - i,
{
    if i < j {
        lemma_word_end_at(s, i + 1, j);
    }
}

proof fn lemma_digit_end_at(s: Seq<char>, i: int, j: int)
    requires
        0 <= i <= j <= s.len(),
        forall|k: int| i <= k < j ==> key_digit(#[trigger] s[k]),
        j == s.len() || !key_digit(s[j]),
    ensures
        digit_end(s, i) == j,
    decreases j - i,
{
    if i < j {
        lemma_digit_end_at(s, i + 1, j);
    }
}

/// A message that is just a key, `PROJECT-NUMBER` in ASCII, references
/// exactly one key: the project part in upper case, `-`, and the whole
/// number, however many digits it has.
pub proof fn law_single_key(p: Seq<char>, d: Seq<char>, k: Seq<char>)
    requires
        ascii_project(p),
        ascii_number(d),
    ensures
        references_key(p + seq!['-'] + d, k) <==> k == upper_seq(p) + seq!['-'] + d,
{
    let s = p + seq!['-'] + d;
    let n = p.len() as int;
    assert forall|i: int| 0 <= i < n implies key_char(#[trigger] s[i]) && text_word(s[i]) by {
        assert(s[i] == p[i]);
    }
    assert(s[n] == '-');
    assert forall|i: int| n + 1 <= i < s.len() implies key_digit(#[trigger] s[i]) && !key_letter(s[i])
        && text_word(s[i]) by {
        assert(s[i] == d[i - n - 1]);
    }
    lemma_word_end_at(s, 0, n);
    lemma_digit_end_at(s, n + 1, s.len() as int);
    assert(s.subrange(0, n) =~= p);
    assert(s.subrange(n + 1, s.len() as int) =~= d);
    assert(key_at(s, 0) == Some(upper_seq(p) + seq!['-'] + d));
    if references_key(s, k) {
        let q = choose|q: int| #[trigger] key_at(s, q) == Some(k);
        if q != 0 {
            assert(0 < q < s.len());
            if q < n {
                assert(text_word(s[q - 1]));
            } else if q == n {
                assert(!key_letter(s[q]));
            } else {
                assert(!key_letter(s[q]));
            }
            assert(false);
        }
    }
}

/// [`keys_in`] of `PROJECT-NUMBER` (ASCII) is that one key, upper-cased:
/// a result that meets its contract is exactly `[upper(PROJECT)-NUMBER]`.
pub proof fn law_keys_in_single_key(p: Seq<char>, d: Seq<char>, keys: Seq<Seq<char>>)
    requires
        ascii_project(p),
        ascii_number(d),
        strictly_sorted(keys),
        forall|k: Seq<char>| keys.contains(k) <==> references_key(p + seq!['-'] + d, k),
    ensures
        keys == seq![upper_seq(p) + seq!['-'] + d],
{
    let e = upper_seq(p) + seq!['-'] + d;
    let one = seq![e];
    assert forall|k: Seq<char>| keys.contains(k) == one.contains(k) by {
        law_single_key(p, d, k);
        assert(one[0] == e);
        if one.contains(k) {
            let x = choose|x: int| 0 <= x < one.len() && one[x] == k;
            assert(x == 0);
        }
    }
    assert(strictly_sorted(one));
    lemma_strictly_sorted_unique(keys, one);
}

/// The ticket keys referenced in `message`, in canonical form (upper-case
/// project part), sorted and without duplicates.
pub fn keys_in(message: &str) -> (r: Vec<String>)
    ensures
        strictly_sorted(string_views(r@)),
        forall|k: Seq<char>| string_views(r@).contains(k) <==> references_key(message@, k),
{
    let cs = chars_of(message);
    let digits = digit_ranges();
    let mut keys: Vec<Vec<char>> = Vec::new();
    let mut p: usize = 0;
    while p < cs.len()
        invariant
            cs@ == message@,
            digits@ == digit_class(),
            p <= cs@.len(),
            strictly_sorted(char_views(keys@)),
            forall|k: Seq<char>|
                char_views(keys@).contains(k) <==> exists|q: int|
                    0 <= q < p && #[trigger] key_at(cs@, q) == Some(k),
        decreases cs@.len() - p,
    {
        let ghost before = char_views(keys@);
        match key_at_exec(&cs, p, &digits) {
            Some(k) => {
                insert_sorted(&mut keys, k);
            },
            None => {},
        }
        assert forall|k: Seq<char>|
            char_views(keys@).contains(k) <==> exists|q: int|
                0 <= q < p + 1 && #[trigger] key_at(cs@, q) == Some(k) by {
            if char_views(keys@).contains(k) && !before.contains(k) {
                assert(key_at(cs@, p as int) == Some(k));
            }
            if exists|q: int| 0 <= q < p + 1 && #[trigger] key_at(cs@, q) == Some(k) {
                let q = choose|q: int| 0 <= q < p + 1 && #[trigger] key_at(cs@, q) == Some(k);
                if q < p {
                    assert(before.contains(k));
                }
            }
        }
        p = p + 1;
    }
    let r = to_strings(&keys);
    assert forall|k: Seq<char>| string_views(r@).contains(k) <==> references_key(message@, k) by {
        if references_key(message@, k) {
            let q = choose|q: int| #[trigger] key_at(message@, q) == Some(k);
            assert(0 <= q < cs@.len());
        }
    }
    r
}

/// `s` with every trailing `c` removed (`str::trim_end_matches`).
pub open spec fn trim_end_char(s: Seq<char>, c: char) -> Seq<char>
    decreases s.len(),
{
    if s.len() > 0 && s.last() == c {
        trim_end_char(s.drop_last(), c)
    } else {
        s
    }
}

/// `s` without its trailing `/` characters.
pub fn trim_trailing_slashes(s: &str) -> (r: String)
    ensures
        r@ == trim_end_char(s@, '/'),
{
    let cs = chars_of(s);
    let mut end = cs.len();
    assert(cs@.take(end as int) =~= cs@);
    while end > 0 && cs[end - 1] == '/'
        invariant
            end <= cs@.len(),
            trim_end_char(cs@.take(end as int), '/') == trim_end_char(cs@, '/'),
        decreases end,
    {
        assert(cs@.take(end as int).drop_last() =~= cs@.take(end - 1));
        end = end - 1;
    }
    assert(cs@.take(cs@.len() as int) =~= cs@);
    let r = string_of(&cs, 0, end);
    assert(cs@.subrange(0, end as int) =~= cs@.take(end as int));
    r
}

/// The issue tracker's REST endpoints and browse links for one site.
pub struct JiraClient {
    base_url: String,
}

impl JiraClient {
    pub closed spec fn spec_base_url(&self) -> Seq<char> {
        self.base_url@
    }

    /// A client for the site at `base_url`; trailing `/` are dropped.
    pub fn new(base_url: &str) -> (r: JiraClient)
        ensures
            r.spec_base_url() == trim_end_char(base_url@, '/'),
    {
        JiraClient { base_url: trim_trailing_slashes(base_url) }
    }

    pub fn base_url(&self) -> (r: &str)
        ensures
            r@ == self.spec_base_url(),
    {
        self.base_url.as_str()
    }

    /// `{base_url}/rest/api/3/{path}`.
    pub fn url(&self, path: &str) -> (r: String)
        ensures
            r@ == self.spec_base_url() + "/rest/api/3/"@ + path@,
    {
        let mut r = self.base_url.clone();
        r.append("/rest/api/3/");
        r.append(path);
        r
    }

    /// `{base_url}/browse/{key}`.
    pub fn browse_url(&self, key: &str) -> (r: String)
        ensures
            r@ == self.spec_base_url() + "/browse/"@ + key@,
    {
        let mut r = self.base_url.clone();
        r.append("/browse/");
        r.append(key);
        r
    }
}

/// The value of the `Authorization` header for `email` and `token`:
/// `Basic ` and the base64 of the UTF-8 bytes of `{email}:{token}`.
pub fn basic_auth_header(email: &str, token: &str) -> (r: String)
    ensures
        r@ == "Basic "@ + b64_encode(vstd::utf8::encode_utf8(email@ + seq![':'] + token@)),
{
    let mut auth = String::from_str(email);
    push_char(&mut auth, ':');
    auth.append(token);
    let joined = auth.as_str();
    assert(joined@ =~= email@ + seq![':'] + token@);
    let bytes = joined.as_bytes();
    assert(bytes@ == vstd::utf8::encode_utf8(joined@));
    let enc = basic_b64(bytes);
    let mut r = String::from_str("Basic ");
    r.append(enc.as_str());
    r
}

/// `v` with every `"` preceded by a backslash.
pub open spec fn escape_quotes(v: Seq<char>) -> Seq<char>
    decreases v.len(),
{
    if v.len() == 0 {
        seq![]
    } else {
        escape_quotes(v.drop_last()) + (if v.last() == '"' {
            seq!['\\', '"']
        } else {
            seq![v.last()]
        })
    }
}

/// `"{v}"` with inner quotes escaped.
pub open spec fn quoted(v: Seq<char>) -> Seq<char> {
    seq!['"'] + escape_quotes(v) + seq!['"']
}

/// The quoted values joined by `, `.
pub open spec fn join_quoted_spec(vs: Seq<Seq<char>>) -> Seq<char>
    decreases vs.len(),
{
    if vs.len() == 0 {
        seq![]
    } else if vs.len() == 1 {
        quoted(vs[0])
    } else {
        join_quoted_spec(vs.drop_last()) + seq![',', ' '] + quoted(vs.last())
    }
}

pub(crate) fn push_quoted(out: &mut String, v: &str)
    ensures
        final(out)@ == old(out)@ + quoted(v@),
{
    let cs = chars_of(v);
    let ghost start = out@;
    push_char(out, '"');
    let mut i: usize = 0;
    while i < cs.len()
        invariant
            i <= cs@.len(),
            cs@ == v@,
            out@ == start + seq!['"'] + escape_quotes(cs@.take(i as int)),
        decreases cs@.len() - i,
    {
        assert(cs@.take(i + 1).drop_last() =~= cs@.take(i as int));
        if cs[i] == '"' {
            push_char(out, '\\');
        }
        push_char(out, cs[i]);
        assert(out@ =~= start + seq!['"'] + escape_quotes(cs@.take(i + 1)));
        i = i + 1;
    }
    assert(cs@.take(cs@.len() as int) =~= cs@);
    push_char(out, '"');
    assert(out@ =~= start + quoted(v@));
}

/// Each value in double quotes (inner quotes escaped), joined by `, `.
pub fn join_quoted(values: &[String]) -> (r: String)
    ensures
        r@ == join_quoted_spec(string_views(values@)),
{
    let mut r = String::new();
    let mut i: usize = 0;
    while i < values.len()
        invariant
            i <= values@.len(),
            r@ == join_quoted_spec(string_views(values@).take(i as int)),
        decreases values@.len() - i,
    {
        let ghost vs = string_views(values@);
        assert(vs.take(i + 1).drop_last() =~= vs.take(i as int));
        if i > 0 {
            push_char(&mut r, ',');
            push_char(&mut r, ' ');
        }
        push_quoted(&mut r, values[i].as_str());
        assert(r@ =~= join_quoted_spec(vs.take(i + 1)));
        i = i + 1;
    }
    assert(string_views(values@).take(values@.len() as int) =~= string_views(values@));
    r
}

/// The search of tickets in the open sprints of `projects`, restricted to
/// `statuses` when there are any; `None` when no project is given.
pub open spec fn active_sprint_jql_spec(projects: Seq<Seq<char>>, statuses: Seq<Seq<char>>) -> Option<
    Seq<char>,
> {
    if projects.len() == 0 {
        None
    } else {
        let base = "project in ("@ + join_quoted_spec(projects) + ")"@ + " AND "@
            + "sprint in openSprints()"@;
        Some(
            if statuses.len() == 0 {
                base
            } else {
                base + " AND "@ + "status in ("@ + join_quoted_spec(statuses) + ")"@
            },
        )
    }
}

/// The query that selects the active-sprint tickets of `projects`.
pub fn active_sprint_jql(projects: &[String], statuses: &[String]) -> (r: Option<String>)
    ensures
        (match r {
            Some(s) => Some(s@),
            None => None,
        }) == active_sprint_jql_spec(string_views(projects@), string_views(statuses@)),
{
    if projects.len() == 0 {
        return None;
    }
    let mut q = String::from_str("project in (");
    q.append(join_quoted(projects).as_str());
    q.append(")");
    q.append(" AND ");
    q.append("sprint in openSprints()");
    if statuses.len() > 0 {
        q.append(" AND ");
        q.append("status in (");
        q.append(join_quoted(statuses).as_str());
        q.append(")");
    }
    Some(q)
}

/// A ticket of the issue tracker, as the changelog lists it.
pub struct Ticket {
    pub key: String,
    pub summary: String,
    pub status: Option<String>,
    pub assignee: Option<String>,
    pub url: String,
}

/// The display form of an API token: `*` for each character when it has at
/// most eight, otherwise four `*`, `…` and its last four characters.
pub open spec fn mask_spec(t: Seq<char>) -> Seq<char> {
    if t.len() <= 8 {
        Seq::new(t.len(), |i: int| '*')
    } else {
        seq!['*', '*', '*', '*', '…'] + t.skip(t.len() - 4)
    }
}

/// Hides all but the end of a secret token.
pub fn mask(token: &str) -> (r: String)
    ensures
        r@ == mask_spec(token@),
{
    let cs = chars_of(token);
    let n = cs.len();
    let mut r = String::new();
    if n <= 8 {
        let mut i: usize = 0;
        while i < n
            invariant
                i <= n,
                n == cs@.len(),
                r@ == Seq::new(i as nat, |k: int| '*'),
            decreases n - i,
        {
            push_char(&mut r, '*');
            assert(r@ =~= Seq::new((i + 1) as nat, |k: int| '*'));
            i = i + 1;
        }
        return r;
    }
    push_char(&mut r, '*');
    push_char(&mut r, '*');
    push_char(&mut r, '*');
    push_char(&mut r, '*');
    push_char(&mut r, '…');
    push_chars(&mut r, &cs, n - 4, n);
    assert(cs@.subrange(n - 4, n as int) =~= cs@.skip(n - 4));
    r
}

/// A site address the credentials prompt accepts: it starts with
/// `http://` or `https://`.
pub open spec fn valid_base_url_spec(s: Seq<char>) -> bool {
    crate::text::has_prefix(s, "http://"@) || crate::text::has_prefix(s, "https://"@)
}

pub fn valid_base_url(s: &str) -> (r: bool)
    ensures
        r == valid_base_url_spec(s@),
{
    let cs = chars_of(s);
    crate::text::starts_with_chars(&cs, &chars_of("http://")) || crate::text::starts_with_chars(
        &cs,
        &chars_of("https://"),
    )
}


impl JiraClient {
    /// A client from the values of `JIRA_BASE_URL`, `JIRA_EMAIL` and
    /// `JIRA_API_TOKEN`; [`AppError::MissingEnv`] names the first that is
    /// not set.
    pub fn from_env(base_url: Option<&str>, email: Option<&str>, token: Option<&str>) -> (r: Result<
        JiraClient,
        AppError,
    >)
        ensures
            match r {
                Ok(c) => base_url matches Some(b) && email is Some && token is Some
                    && c.spec_base_url() == trim_end_char(b@, '/'),
                Err(e) => match e {
                    AppError::MissingEnv(v) => if base_url is None {
                        v@ == "JIRA_BASE_URL"@
                    } else if email is None {
                        v@ == "JIRA_EMAIL"@
                    } else {
                        token is None && v@ == "JIRA_API_TOKEN"@
                    },
                    _ => false,
                },
            },
    {
        let b = match base_url {
            Some(b) => b,
            None => return Err(AppError::MissingEnv("JIRA_BASE_URL")),
        };
        if email.is_none() {
            return Err(AppError::MissingEnv("JIRA_EMAIL"));
        }
        if token.is_none() {
            return Err(AppError::MissingEnv("JIRA_API_TOKEN"));
        }
        Ok(JiraClient::new(b))
    }
}

impl Keyed for Ticket {
    open spec fn key_of(&self) -> Seq<char> {
        self.key@
    }

    fn key(&self) -> (r: &str) {
        self.key.as_str()
    }
}

/// An issue as the search endpoint returns it.
pub struct Issue {
    pub key: String,
    pub summary: String,
    pub status: Option<String>,
    pub assignee: Option<String>,
}

/// The ticket of an issue: its fields and its browse link.
pub open spec fn ticket_of(base: Seq<char>, i: Issue, t: Ticket) -> bool {
    &&& t.key@ == i.key@
    &&& t.summary@ == i.summary@
    &&& t.status == i.status
    &&& t.assignee == i.assignee
    &&& t.url@ == base + "/browse/"@ + i.key@
}

/// The tickets of the issues found, sorted by key (stable).
pub fn tickets_from_issues(client: &JiraClient, issues: Vec<Issue>) -> (r: Vec<Ticket>)
    ensures
        exists|unsorted: Seq<Ticket>|
            #[trigger] stable_sorted_of(r@, unsorted) && unsorted.len() == issues@.len() && forall|
                i: int,
            | 0 <= i < issues@.len() ==> ticket_of(
                client.spec_base_url(),
                issues@[i],
                #[trigger] unsorted[i],
            ),
{
    let ghost orig = issues@;
    let mut rest = issues;
    let mut tickets: Vec<Ticket> = Vec::new();
    let ghost mut i: int = 0;
    assert(orig.skip(0) =~= orig);
    while rest.len() > 0
        invariant
            0 <= i <= orig.len(),
            rest@ == orig.skip(i),
            tickets@.len() == i,
            forall|k: int|
                0 <= k < i ==> ticket_of(client.spec_base_url(), orig[k], #[trigger] tickets@[k]),
        decreases rest@.len(),
    {
        let issue = rest.remove(0);
        proof {
            assert(issue == orig[i]);
            assert(rest@ =~= orig.skip(i + 1));
        }
        let url = client.browse_url(issue.key.as_str());
        tickets.push(
            Ticket {
                url,
                key: issue.key,
                summary: issue.summary,
                status: issue.status,
                assignee: issue.assignee,
            },
        );
        proof {
            i = i + 1;
        }
    }
    let ghost unsorted = tickets@;
    let r = sort_by_key(tickets);
    assert(stable_sorted_of(r@, unsorted));
    r
}


/// The project part of a ticket key (before the first `-`).
pub open spec fn key_project(k: Seq<char>) -> Seq<char> {
    k.take(crate::text::find_char(k, '-', 0))
}

/// Whether a key belongs to one of the configured project prefixes
/// (compared in upper case); every key does when none is configured.
#[verifier::opaque]
pub open spec fn prefix_ok(k: Seq<char>, prefixes: Seq<Seq<char>>) -> bool {
    prefixes.len() == 0 || exists|i: int|
        0 <= i < prefixes.len() && key_project(k) == upper_seq(#[trigger] prefixes[i])
}

/// Whether `k` is referenced in one of the messages.
#[verifier::opaque]
pub open spec fn referenced_in(messages: Seq<Seq<char>>, k: Seq<char>) -> bool {
    exists|i: int| 0 <= i < messages.len() && #[trigger] references_key(messages[i], k)
}

fn upper_string(s: &str) -> (r: Vec<char>)
    ensures
        r@ == upper_seq(s@),
{
    let cs = chars_of(s);
    let mut r: Vec<char> = Vec::new();
    let mut i: usize = 0;
    while i < cs.len()
        invariant
            i <= cs@.len(),
            cs@ == s@,
            r@ == upper_seq(cs@.take(i as int)),
        decreases cs@.len() - i,
    {
        r.push(to_upper(cs[i]));
        assert(upper_seq(cs@.take(i + 1)) =~= upper_seq(cs@.take(i as int)).push(upper(cs@[i as int])));
        i = i + 1;
    }
    assert(cs@.take(cs@.len() as int) =~= cs@);
    r
}

fn prefix_ok_exec(k: &Vec<char>, prefixes: &[String]) -> (r: bool)
    ensures
        r == prefix_ok(k@, string_views(prefixes@)),
{
    proof {
        reveal(prefix_ok);
    }
    if prefixes.len() == 0 {
        return true;
    }
    let dash = crate::text::find_char_exec(k, '-', 0);
    let project = crate::text::slice_chars(k, 0, dash);
    assert(project@ =~= key_project(k@));
    let mut i: usize = 0;
    while i < prefixes.len()
        invariant
            i <= prefixes@.len(),
            project@ == key_project(k@),
            forall|j: int| 0 <= j < i ==> key_project(k@) != upper_seq(string_views(prefixes@)[j]),
        decreases prefixes@.len() - i,
    {
        let up = upper_string(prefixes[i].as_str());
        if crate::text::chars_eq(&project, &up) {
            assert(key_project(k@) == upper_seq(string_views(prefixes@)[i as int]));
            proof {
                reveal(prefix_ok);
            }
            return true;
        }
        i = i + 1;
    }
    false
}

/// The ticket keys referenced in any of `messages` that belong to one of
/// `prefixes` (all keys when there are none), sorted and without
/// duplicates.
pub fn extract_keys(messages: &[String], prefixes: &[String]) -> (r: Vec<String>)
    ensures
        strictly_sorted(string_views(r@)),
        forall|k: Seq<char>|
            string_views(r@).contains(k) <==> (referenced_in(string_views(messages@), k)
                && prefix_ok(k, string_views(prefixes@))),
{
    let ghost ms = string_views(messages@);
    let ghost ps = string_views(prefixes@);
    let mut keys: Vec<Vec<char>> = Vec::new();
    let mut m: usize = 0;
    proof {
        reveal(referenced_in);
        assert(ms.take(0) =~= Seq::<Seq<char>>::empty());
    }
    while m < messages.len()
        invariant
            m <= messages@.len(),
            ms == string_views(messages@),
            ps == string_views(prefixes@),
            strictly_sorted(char_views(keys@)),
            forall|k: Seq<char>|
                #[trigger] char_views(keys@).contains(k) <==> (referenced_in(ms.take(m as int), k)
                    && prefix_ok(k, ps)),
        decreases messages@.len() - m,
    {
        let found = keys_in(messages[m].as_str());
        let ghost fv = string_views(found@);
        proof {
            assert(fv.take(0) =~= Seq::<Seq<char>>::empty());
            assert forall|k: Seq<char>| !fv.take(0).contains(k) by {
                if fv.take(0).contains(k) {
                    let w = choose|w: int| 0 <= w < fv.take(0).len() && fv.take(0)[w] == k;
                    assert(fv.take(0).len() == 0);
                }
            }
            assert forall|k: Seq<char>|
                #[trigger] char_views(keys@).contains(k) <==> ((referenced_in(ms.take(m as int), k)
                    || fv.take(0).contains(k)) && prefix_ok(k, ps)) by {
                assert(#[trigger] char_views(keys@).contains(k) <==> (referenced_in(ms.take(m as int), k)
                    && prefix_ok(k, ps)));
                assert(!fv.take(0).contains(k));
            }
        }
        let mut j: usize = 0;
        while j < found.len()
            invariant
                m < messages@.len(),
                j <= found@.len(),
                ms == string_views(messages@),
                ps == string_views(prefixes@),
                fv == string_views(found@),
                strictly_sorted(char_views(keys@)),
                forall|k: Seq<char>| fv.contains(k) <==> references_key(ms[m as int], k),
                forall|k: Seq<char>|
                    #[trigger] char_views(keys@).contains(k) <==> ((referenced_in(ms.take(m as int), k)
                        || fv.take(j as int).contains(k)) && prefix_ok(k, ps)),
            decreases found@.len() - j,
        {
            let k = chars_of(found[j].as_str());
            let ghost before = char_views(keys@);
            let ok = prefix_ok_exec(&k, prefixes);
            if ok {
                insert_sorted(&mut keys, k);
            }
            proof {
                let t0 = fv.take(j as int);
                let t1 = fv.take(j + 1);
                assert(k@ == fv[j as int]);
                assert(t1 =~= t0.push(fv[j as int]));
                assert forall|x: Seq<char>| t1.contains(x) <==> (t0.contains(x) || x == fv[j as int]) by {
                    if t1.contains(x) && x != fv[j as int] {
                        let w = choose|w: int| 0 <= w < t1.len() && t1[w] == x;
                        assert(t0[w] == x);
                    }
                    if t0.contains(x) {
                        let w = choose|w: int| 0 <= w < t0.len() && t0[w] == x;
                        assert(t1[w] == x);
                    }
                    if x == fv[j as int] {
                        assert(t1[j as int] == x);
                    }
                }
                assert forall|x: Seq<char>|
                    #[trigger] char_views(keys@).contains(x) <==> ((referenced_in(ms.take(m as int), x)
                        || t1.contains(x)) && prefix_ok(x, ps)) by {
                    if ok {
                        assert(#[trigger] char_views(keys@).contains(x) <==> (before.contains(x) || x == k@));
                    } else {
                        assert(char_views(keys@) == before);
                    }
                }
            }
            j = j + 1;
        }
        proof {
            reveal(referenced_in);
            assert(fv.take(found@.len() as int) =~= fv);
            assert forall|k: Seq<char>|
                referenced_in(ms.take(m + 1), k) <==> (referenced_in(ms.take(m as int), k)
                    || references_key(ms[m as int], k)) by {
                if referenced_in(ms.take(m + 1), k) {
                    let w = choose|w: int| 0 <= w < ms.take(m + 1).len() && #[trigger] references_key(ms.take(m + 1)[w], k);
                    if w < m {
                        assert(ms.take(m as int)[w] == ms.take(m + 1)[w]);
                    }
                }
                if referenced_in(ms.take(m as int), k) {
                    let w = choose|w: int| 0 <= w < ms.take(m as int).len() && #[trigger] references_key(ms.take(m as int)[w], k);
                    assert(ms.take(m + 1)[w] == ms.take(m as int)[w]);
                }
                if references_key(ms[m as int], k) {
                    assert(ms.take(m + 1)[m as int] == ms[m as int]);
                }
            }
        }
        m = m + 1;
    }
    assert(ms.take(messages@.len() as int) =~= ms);
    let r = to_strings(&keys);
    assert(string_views(r@) == char_views(keys@));
    r
}

/// The search for the tickets with the given keys.
pub fn keys_jql(keys: &[String]) -> (r: String)
    ensures
        r@ == "key in ("@ + join_quoted_spec(string_views(keys@)) + ")"@,
{
    let mut r = String::new();
    crate::text::push_str_chars(&mut r, "key in (");
    let q = join_quoted(keys);
    crate::text::push_str_chars(&mut r, q.as_str());
    crate::text::push_str_chars(&mut r, ")");
    r
}

} // verus!
