//! Object-store audit: the list of keys to check, what a lookup of one key
//! found, and the tally of the findings.

use vstd::prelude::*;
use crate::keyset::{names_present, present_names, string_views};
use crate::text::{
    chars_of, find_char, find_char_exec, has_prefix, lines, lines_from, next_line, occurs_at,
    slice_chars, string_of, trim, trim_bounds,
};

verus! {

/// What a lookup of one key found.
#[derive(Clone, Debug)]
pub struct ExistenceCheck {
    /// The object exists.
    pub ok: bool,
    /// The object found is a delete marker.
    pub delete_marker: bool,
    /// The lookup failed (other than by "not found").
    pub error: Option<String>,
}

/// When and in which version an object was deleted.
#[derive(Clone, Debug)]
pub struct DeletionInfo {
    pub deleted_at: Option<String>,
    pub version_id: Option<String>,
}

/// The answer of the store to a lookup of one key.
pub enum HeadOutcome {
    /// Found; whether it is a delete marker, when the store says.
    Found(Option<bool>),
    /// The store answered that the key does not exist.
    NotFound,
    /// Any other failure, with its message.
    Failed(String),
}

impl ExistenceCheck {
    /// The finding for an answer of the store.
    pub fn from_outcome(outcome: HeadOutcome) -> (r: ExistenceCheck)
        ensures
            match outcome {
                HeadOutcome::Found(m) => r.ok && r.delete_marker == (m == Some(true))
                    && r.error is None,
                HeadOutcome::NotFound => !r.ok && !r.delete_marker && r.error is None,
                HeadOutcome::Failed(e) => !r.ok && !r.delete_marker && r.error == Some(e),
            },
    {
        match outcome {
            HeadOutcome::Found(m) => ExistenceCheck {
                ok: true,
                delete_marker: match m {
                    Some(b) => b,
                    None => false,
                },
                error: None,
            },
            HeadOutcome::NotFound => ExistenceCheck { ok: false, delete_marker: false, error: None },
            HeadOutcome::Failed(e) => ExistenceCheck {
                ok: false,
                delete_marker: false,
                error: Some(e),
            },
        }
    }
}

/// A delete marker listed among the versions of a key prefix.
pub struct DeleteMarker {
    pub key: Option<String>,
    pub is_latest: Option<bool>,
    pub last_modified: Option<String>,
    pub version_id: Option<String>,
}

/// Whether the marker is the latest one of exactly `key`.
pub open spec fn marks_key(m: DeleteMarker, key: Seq<char>) -> bool {
    (m.key matches Some(k) && k@ == key) && m.is_latest == Some(true)
}

/// The deletion of `key`: the first marker that is the latest of exactly
/// that key, if any.
pub fn latest_deletion(markers: &Vec<DeleteMarker>, key: &str) -> (r: Option<DeletionInfo>)
    ensures
        match r {
            Some(info) => exists|i: int|
                0 <= i < markers@.len() && #[trigger] marks_key(markers@[i], key@) && (forall|
                    j: int,
                | 0 <= j < i ==> !marks_key(markers@[j], key@)) && info.deleted_at
                    == markers@[i].last_modified && info.version_id == markers@[i].version_id,
            None => forall|i: int| 0 <= i < markers@.len() ==> !marks_key(markers@[i], key@),
        },
{
    let k = chars_of(key);
    let mut i: usize = 0;
    while i < markers.len()
        invariant
            i <= markers@.len(),
            k@ == key@,
            forall|j: int| 0 <= j < i ==> !marks_key(markers@[j], key@),
        decreases markers@.len() - i,
    {
        let m = &markers[i];
        let hit = match &m.key {
            Some(mk) => crate::text::chars_eq(&chars_of(mk.as_str()), &k) && match m.is_latest {
                Some(b) => b,
                None => false,
            },
            None => false,
        };
        if hit {
            assert(marks_key(markers@[i as int], key@));
            return Some(
                DeletionInfo {
                    deleted_at: clone_opt(&m.last_modified),
                    version_id: clone_opt(&m.version_id),
                },
            );
        }
        i = i + 1;
    }
    None
}

fn clone_opt(o: &Option<String>) -> (r: Option<String>)
    ensures
        r == *o,
{
    match o {
        Some(s) => Some(s.clone()),
        None => None,
    }
}

/// The bucket names of a listing, in order, skipping buckets without a
/// name.
pub fn bucket_names(names: Vec<Option<String>>) -> (r: Vec<String>)
    ensures
        string_views(r@) == present_names(names@),
{
    names_present(names)
}

/// How a finding is reported.
#[derive(Clone, Copy, Debug, PartialEq, Eq, Structural)]
pub enum Finding {
    Error,
    Deleted,
    Exists,
    Missing,
}

/// The report of a finding: a failure first, then a delete marker, then
/// existence; otherwise missing.
pub open spec fn finding_spec(c: ExistenceCheck) -> Finding {
    if c.error is Some {
        Finding::Error
    } else if c.ok {
        if c.delete_marker {
            Finding::Deleted
        } else {
            Finding::Exists
        }
    } else {
        Finding::Missing
    }
}

impl ExistenceCheck {
    /// How the finding is reported.
    pub fn finding(&self) -> (r: Finding)
        ensures
            r == finding_spec(*self),
    {
        if self.error.is_some() {
            Finding::Error
        } else if self.ok {
            if self.delete_marker {
                Finding::Deleted
            } else {
                Finding::Exists
            }
        } else {
            Finding::Missing
        }
    }
}

/// The number of findings of kind `f` among `cs`.
pub open spec fn count_findings(cs: Seq<ExistenceCheck>, f: Finding) -> nat
    decreases cs.len(),
{
    if cs.len() == 0 {
        0
    } else {
        count_findings(cs.drop_last(), f) + if finding_spec(cs.last()) == f {
            1nat
        } else {
            0nat
        }
    }
}

/// The counts of a report: exists, missing, deleted, errors.
#[derive(Clone, Copy, Debug, PartialEq, Eq, Structural)]
pub struct Tally {
    pub exists: usize,
    pub missing: usize,
    pub deleted: usize,
    pub errors: usize,
}

/// Counts the findings by kind.
pub fn tally(checks: &[ExistenceCheck]) -> (r: Tally)
    ensures
        r.exists == count_findings(checks@, Finding::Exists),
        r.missing == count_findings(checks@, Finding::Missing),
        r.deleted == count_findings(checks@, Finding::Deleted),
        r.errors == count_findings(checks@, Finding::Error),
        r.exists + r.missing + r.deleted + r.errors == checks@.len(),
{
    let mut t = Tally { exists: 0, missing: 0, deleted: 0, errors: 0 };
    let mut i: usize = 0;
    while i < checks.len()
        invariant
            i <= checks@.len(),
            t.exists == count_findings(checks@.take(i as int), Finding::Exists),
            t.missing == count_findings(checks@.take(i as int), Finding::Missing),
            t.deleted == count_findings(checks@.take(i as int), Finding::Deleted),
            t.errors == count_findings(checks@.take(i as int), Finding::Error),
            t.exists + t.missing + t.deleted + t.errors == i,
        decreases checks@.len() - i,
    {
        let ghost t1 = checks@.take(i + 1);
        assert(t1.drop_last() =~= checks@.take(i as int));
        assert(t1.last() == checks@[i as int]);
        match checks[i].finding() {
            Finding::Error => t.errors = t.errors + 1,
            Finding::Deleted => t.deleted = t.deleted + 1,
            Finding::Exists => t.exists = t.exists + 1,
            Finding::Missing => t.missing = t.missing + 1,
        }
        i = i + 1;
    }
    assert(checks@.take(checks@.len() as int) =~= checks@);
    t
}

/// `s` with the prefix `p` removed as many times as it starts it
/// (`str::trim_start_matches`).
pub open spec fn trim_start_seq(s: Seq<char>, p: Seq<char>) -> Seq<char>
    decreases s.len(),
{
    if p.len() > 0 && has_prefix(s, p) {
        trim_start_seq(s.skip(p.len() as int), p)
    } else {
        s
    }
}

/// The key of one line of the key list: what precedes a `#`, trimmed; a
/// leading `s3://` and `/` removed, and for an `s3://bucket/key` line the
/// bucket too.
pub open spec fn clean_key(raw: Seq<char>) -> Seq<char> {
    let line = trim(raw.take(find_char(raw, '#', 0)));
    let stripped = trim_start_seq(trim_start_seq(line, "s3://"@), seq!['/']);
    if has_prefix(line, "s3://"@) {
        let i = find_char(stripped, '/', 0);
        if i < stripped.len() {
            stripped.skip(i + 1)
        } else {
            stripped
        }
    } else {
        stripped
    }
}

/// The keys of the lines, skipping lines whose key is empty.
pub open spec fn keys_of(ls: Seq<Seq<char>>) -> Seq<Seq<char>>
    decreases ls.len(),
{
    if ls.len() == 0 {
        seq![]
    } else if clean_key(ls.last()).len() > 0 {
        keys_of(ls.drop_last()).push(clean_key(ls.last()))
    } else {
        keys_of(ls.drop_last())
    }
}

/// Index past every leading `p` in `cs[from..]`.
fn skip_prefixes(cs: &Vec<char>, p: &Vec<char>, from: usize) -> (r: usize)
    requires
        from <= cs@.len(),
    ensures
        from <= r <= cs@.len(),
        cs@.skip(r as int) == trim_start_seq(cs@.skip(from as int), p@),
{
    let plen = p.len();
    let n = cs.len();
    let mut i = from;
    while plen > 0 && occurs_at(cs, p, i)
        invariant
            from <= i <= cs@.len(),
            n == cs@.len(),
            plen == p@.len(),
            trim_start_seq(cs@.skip(i as int), p@) == trim_start_seq(cs@.skip(from as int), p@),
        decreases cs@.len() - i,
    {
        let ghost t = cs@.skip(i as int);
        assert(t.take(plen as int) =~= cs@.subrange(i as int, i + plen));
        assert(i + plen <= n);
        assert(t.skip(plen as int) =~= cs@.skip(i + plen));
        i = i + plen;
    }
    proof {
        let t = cs@.skip(i as int);
        if plen > 0 && plen <= t.len() {
            assert(t.take(plen as int) =~= cs@.subrange(i as int, i + plen));
        }
    }
    i
}

fn clean_key_exec(raw: &Vec<char>) -> (r: String)
    ensures
        r@ == clean_key(raw@),
{
    let h = find_char_exec(raw, '#', 0);
    let before = slice_chars(raw, 0, h);
    assert(before@ =~= raw@.take(h as int));
    let (b, e) = trim_bounds(&before);
    let line = slice_chars(&before, b, e);
    let s3 = chars_of("s3://");
    let slash = vec!['/'];
    assert(slash@ =~= seq!['/']);
    assert(line@.skip(0) =~= line@);
    let a = skip_prefixes(&line, &s3, 0);
    let c = skip_prefixes(&line, &slash, a);
    let stripped = slice_chars(&line, c, line.len());
    assert(stripped@ =~= line@.skip(c as int));
    if crate::text::starts_with_chars(&line, &s3) {
        let i = find_char_exec(&stripped, '/', 0);
        if i < stripped.len() {
            let r = string_of(&stripped, i + 1, stripped.len());
            assert(stripped@.subrange(i + 1, stripped@.len() as int) =~= stripped@.skip(i + 1));
            return r;
        }
    }
    let r = string_of(&stripped, 0, stripped.len());
    assert(stripped@.subrange(0, stripped@.len() as int) =~= stripped@);
    r
}

/// The keys listed in a key file: one per line, `#` starts a comment,
/// blank lines are skipped, `s3://bucket/` and leading `/` are dropped.
pub fn parse_keys(text: &str) -> (r: Vec<String>)
    ensures
        string_views(r@) == keys_of(lines(text@)),
{
    let cs = chars_of(text);
    let mut out: Vec<String> = Vec::new();
    let ghost mut done: Seq<Seq<char>> = seq![];
    let mut i: usize = 0;
    assert(lines(cs@) =~= done + lines_from(cs@, 0));
    while i < cs.len()
        invariant
            i <= cs@.len(),
            cs@ == text@,
            lines(cs@) == done + lines_from(cs@, i as int),
            string_views(out@) == keys_of(done),
        decreases cs@.len() - i,
    {
        let (line, next) = next_line(&cs, i);
        let key = clean_key_exec(&line);
        proof {
            assert(done + lines_from(cs@, i as int) =~= done.push(line@) + lines_from(
                cs@,
                next as int,
            ));
            assert(done.push(line@).drop_last() =~= done);
        }
        let ghost before = out@;
        if chars_of(key.as_str()).len() > 0 {
            out.push(key);
            assert(string_views(out@) =~= string_views(before).push(key@));
        }
        proof {
            done = done.push(line@);
        }
        i = next;
    }
    proof {
        assert(lines_from(cs@, i as int) == Seq::<Seq<char>>::empty());
        assert(done + Seq::<Seq<char>>::empty() =~= done);
    }
    out
}

} // verus!
