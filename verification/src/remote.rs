//! The `owner/name` of a repository, read from the URL of a git remote.

use vstd::prelude::*;
use crate::error::parse_repo_spec;
use crate::paths::{file_name, file_name_spec};
use crate::text::{
    chars_of, find_char, find_char_exec, lemma_find_char_at, lemma_find_char_bounds, has_prefix, occurs_at, push_char, push_chars, push_str_chars,
    slice_chars, starts_with_chars, trim, trim_bounds, trim_end_seq, is_space, skip_space,
    trim_end_at, trim_end, trim_start,
};

verus! {

/// The first two `/`-separated parts of `path` as `owner/name`, when there
/// are two and neither is empty.
pub open spec fn validate_spec(path: Seq<char>) -> Option<Seq<char>> {
    let i = find_char(path, '/', 0);
    if i < path.len() {
        let j = find_char(path, '/', i + 1);
        let owner = path.subrange(0, i);
        let name = path.subrange(i + 1, j);
        if owner.len() > 0 && name.len() > 0 {
            Some(owner + seq!['/'] + name)
        } else {
            None
        }
    } else {
        None
    }
}

/// `owner/name` from an SSH (`git@host:owner/name.git`) or HTTP(S)
/// (`https://host/owner/name.git`) remote URL.
pub open spec fn parse_git_remote_spec(url: Seq<char>) -> Option<Seq<char>> {
    let t = trim_end_seq(trim(url), ".git"@);
    if has_prefix(t, "git@"@) {
        let rest = t.skip("git@"@.len() as int);
        let c = find_char(rest, ':', 0);
        if c < rest.len() {
            validate_spec(rest.skip(c + 1))
        } else {
            None
        }
    } else if has_prefix(t, "https://"@) || has_prefix(t, "http://"@) {
        let rest = if has_prefix(t, "https://"@) {
            t.skip("https://"@.len() as int)
        } else {
            t.skip("http://"@.len() as int)
        };
        let c = find_char(rest, '/', 0);
        if c < rest.len() {
            validate_spec(rest.skip(c + 1))
        } else {
            None
        }
    } else {
        None
    }
}

fn validate_chars(path: &Vec<char>, from: usize) -> (r: Option<String>)
    requires
        from <= path@.len(),
    ensures
        match r {
            Some(s) => validate_spec(path@.skip(from as int)) == Some(s@),
            None => validate_spec(path@.skip(from as int)) is None,
        },
{
    let p = slice_chars(path, from, path.len());
    assert(p@ =~= path@.skip(from as int));
    let n = p.len();
    let i = find_char_exec(&p, '/', 0);
    if i < n {
        let j = find_char_exec(&p, '/', i + 1);
        if i > 0 && j > i + 1 {
            let mut r = String::new();
            push_chars(&mut r, &p, 0, i);
            push_char(&mut r, '/');
            push_chars(&mut r, &p, i + 1, j);
            return Some(r);
        }
    }
    None
}

/// `owner/name` from the first two `/`-separated parts of `path`, when
/// there are two and neither is empty.
pub fn validate(path: &str) -> (r: Option<String>)
    ensures
        match r {
            Some(s) => validate_spec(path@) == Some(s@),
            None => validate_spec(path@) is None,
        },
{
    let cs = chars_of(path);
    assert(cs@.skip(0) =~= cs@);
    validate_chars(&cs, 0)
}

/// The end of `cs[..end]` once every trailing `p` is removed.
fn trim_end_exec(cs: &Vec<char>, p: &Vec<char>) -> (r: usize)
    ensures
        r <= cs@.len(),
        cs@.take(r as int) == trim_end_seq(cs@, p@),
{
    let plen = p.len();
    let mut end = cs.len();
    assert(cs@.take(end as int) =~= cs@);
    while plen > 0 && plen <= end && occurs_at(cs, p, end - plen)
        invariant
            end <= cs@.len(),
            plen == p@.len(),
            trim_end_seq(cs@.take(end as int), p@) == trim_end_seq(cs@, p@),
        decreases end,
    {
        let ghost t = cs@.take(end as int);
        assert(t.subrange(t.len() - plen, t.len() as int) =~= cs@.subrange(
            end - plen,
            end as int,
        ));
        assert(t.subrange(0, t.len() - plen) =~= cs@.take(end - plen));
        end = end - plen;
    }
    proof {
        let t = cs@.take(end as int);
        if plen > 0 && plen <= end {
            assert(t.subrange(t.len() - plen, t.len() as int) =~= cs@.subrange(
                end - plen,
                end as int,
            ));
        }
        assert(trim_end_seq(t, p@) == t);
    }
    end
}

/// Reads `owner/name` from an SSH (`git@github.com:owner/name.git`) or
/// HTTPS (`https://github.com/owner/name.git`) remote URL.
pub fn parse_git_remote(url: &str) -> (r: Option<String>)
    ensures
        match r {
            Some(s) => parse_git_remote_spec(url@) == Some(s@),
            None => parse_git_remote_spec(url@) is None,
        },
{
    let cs = chars_of(url);
    let (b, e) = trim_bounds(&cs);
    let trimmed = slice_chars(&cs, b, e);
    let suffix = chars_of(".git");
    let end = trim_end_exec(&trimmed, &suffix);
    let t = slice_chars(&trimmed, 0, end);
    assert(t@ =~= trimmed@.take(end as int));
    let ghost tv = t@;
    let git = chars_of("git@");
    let https = chars_of("https://");
    let http = chars_of("http://");
    if starts_with_chars(&t, &git) {
        let rest = slice_chars(&t, git.len(), t.len());
        assert(rest@ =~= tv.skip("git@"@.len() as int));
        let c = find_char_exec(&rest, ':', 0);
        if c < rest.len() {
            return validate_chars(&rest, c + 1);
        }
        return None;
    }
    let https_prefix = starts_with_chars(&t, &https);
    if https_prefix || starts_with_chars(&t, &http) {
        let skip = if https_prefix {
            https.len()
        } else {
            http.len()
        };
        let rest = slice_chars(&t, skip, t.len());
        let c = find_char_exec(&rest, '/', 0);
        if c < rest.len() {
            return validate_chars(&rest, c + 1);
        }
        return None;
    }
    None
}


/// The project name `add` registers: the one given, else the name of the
/// directory; the error when the directory has no name.
pub fn project_name(given: Option<&str>, cwd: &str) -> (r: Result<String, String>)
    ensures
        match given {
            Some(n) => r matches Ok(s) && s@ == n@,
            None => match file_name_spec(cwd@) {
                Some(f) => r matches Ok(s) && s@ == f,
                None => r matches Err(m) && m@ == "could not derive project name from "@ + cwd@,
            },
        },
{
    match given {
        Some(n) => {
            let mut s = String::new();
            push_str_chars(&mut s, n);
            Ok(s)
        },
        None => match file_name(cwd) {
            Some(f) => Ok(f),
            None => {
                let mut m = String::new();
                push_str_chars(&mut m, "could not derive project name from ");
                push_str_chars(&mut m, cwd);
                Err(m)
            },
        },
    }
}

/// The repository of the `origin` remote from the output of
/// `git remote get-url origin` run in `cwd`: whether it succeeded and what
/// it printed.
pub fn origin_repo(succeeded: bool, stdout: &str, cwd: &str) -> (r: Result<String, String>)
    ensures
        !succeeded ==> (r matches Err(m) && m@ == "no `origin` git remote in "@ + cwd@
            + " — pass --repo owner/name"@),
        succeeded ==> match parse_git_remote_spec(trim(stdout@)) {
            Some(s) => r matches Ok(x) && x@ == s,
            None => r matches Err(m) && m@ == "could not parse owner/name from git remote: "@
                + trim(stdout@),
        },
{
    if !succeeded {
        let mut m = String::new();
        push_str_chars(&mut m, "no `origin` git remote in ");
        push_str_chars(&mut m, cwd);
        push_str_chars(&mut m, " — pass --repo owner/name");
        return Err(m);
    }
    let url = crate::text::trim_string(stdout);
    match parse_git_remote(url.as_str()) {
        Some(s) => Ok(s),
        None => {
            let mut m = String::new();
            push_str_chars(&mut m, "could not parse owner/name from git remote: ");
            push_str_chars(&mut m, url.as_str());
            Err(m)
        },
    }
}


/// A validated `owner/name` is accepted by [`crate::error::parse_repo`]:
/// it splits into the same owner and name.
pub proof fn law_validated_slug_parses(path: Seq<char>)
    requires
        validate_spec(path) is Some,
    ensures
        parse_repo_spec(validate_spec(path)->0) is Some,
{
    let i = find_char(path, '/', 0);
    lemma_find_char_bounds(path, '/', 0);
    lemma_find_char_bounds(path, '/', i + 1);
    let j = find_char(path, '/', i + 1);
    let owner = path.subrange(0, i);
    let name = path.subrange(i + 1, j);
    let s = owner + seq!['/'] + name;
    assert(s == validate_spec(path)->0);
    assert forall|k: int| 0 <= k < owner.len() implies s[k] != '/' by {
        assert(s[k] == path[k]);
    }
    lemma_find_char_at(s, '/', 0, owner.len() as int);
    assert forall|k: int| owner.len() + 1 <= k < s.len() implies s[k] != '/' by {
        assert(s[k] == path[k]);
    }
    lemma_find_char_at(s, '/', (owner.len() + 1) as int, s.len() as int);
}

/// Every `owner/name` read from a remote URL is accepted by
/// [`crate::error::parse_repo`].
pub proof fn law_remote_slug_parses(url: Seq<char>)
    ensures
        parse_git_remote_spec(url) matches Some(s) ==> parse_repo_spec(s) is Some,
{
    let t = trim_end_seq(trim(url), ".git"@);
    if has_prefix(t, "git@"@) {
        let rest = t.skip("git@"@.len() as int);
        let c = find_char(rest, ':', 0);
        if c < rest.len() && validate_spec(rest.skip(c + 1)) is Some {
            law_validated_slug_parses(rest.skip(c + 1));
        }
    } else if has_prefix(t, "https://"@) || has_prefix(t, "http://"@) {
        let rest = if has_prefix(t, "https://"@) {
            t.skip("https://"@.len() as int)
        } else {
            t.skip("http://"@.len() as int)
        };
        let c = find_char(rest, '/', 0);
        if c < rest.len() && validate_spec(rest.skip(c + 1)) is Some {
            law_validated_slug_parses(rest.skip(c + 1));
        }
    }
}


/// `s` ends with `p`.
pub open spec fn has_suffix(s: Seq<char>, p: Seq<char>) -> bool {
    p.len() <= s.len() && s.subrange(s.len() - p.len(), s.len() as int) == p
}

/// `s` holds no `c`.
pub open spec fn lacks(s: Seq<char>, c: char) -> bool {
    forall|i: int| 0 <= i < s.len() ==> #[trigger] s[i] != c
}

/// A path segment of a repository slug: not empty, without `/`.
pub open spec fn segment(s: Seq<char>) -> bool {
    s.len() > 0 && lacks(s, '/')
}

proof fn lemma_validate_pair(owner: Seq<char>, name: Seq<char>)
    requires
        segment(owner),
        segment(name),
    ensures
        validate_spec(owner + seq!['/'] + name) == Some(owner + seq!['/'] + name),
{
    let path = owner + seq!['/'] + name;
    let n = owner.len() as int;
    assert forall|k: int| 0 <= k < n implies path[k] != '/' by {
        assert(path[k] == owner[k]);
    }
    lemma_find_char_at(path, '/', 0, n);
    assert forall|k: int| n + 1 <= k < path.len() implies path[k] != '/' by {
        assert(path[k] == name[k - n - 1]);
    }
    lemma_find_char_at(path, '/', n + 1, path.len() as int);
    assert(path.subrange(0, n) =~= owner);
    assert(path.subrange(n + 1, path.len() as int) =~= name);
}

proof fn lemma_trim_clean(s: Seq<char>)
    requires
        s.len() > 0,
        !is_space(s[0]),
        !is_space(s.last()),
    ensures
        trim(s) == s,
{
    assert(trim_end_at(s, s.len() as int) == s.len());
    assert(trim_end(s) =~= s);
    assert(skip_space(s, 0) == 0);
    assert(trim_start(s) =~= s);
}

/// `x`, which ends with `name` after a `/`, does not end with `.git` when
/// `name` does not.
proof fn lemma_no_git_suffix(x: Seq<char>, name: Seq<char>)
    requires
        x.len() > name.len(),
        x.subrange(x.len() - name.len(), x.len() as int) == name,
        x[x.len() - name.len() - 1] == '/',
        !has_suffix(name, ".git"@),
    ensures
        !has_suffix(x, ".git"@),
{
    reveal_strlit(".git");
    if has_suffix(x, ".git"@) {
        let t = x.subrange(x.len() - 4, x.len() as int);
        if name.len() >= 4 {
            assert(name.subrange(name.len() - 4, name.len() as int) =~= t);
        } else {
            let k = 4 - name.len() - 1;
            assert(t[k] == x[x.len() - name.len() - 1]);
            assert(".git"@[k] != '/');
        }
    }
}

proof fn lemma_strip_suffix(x: Seq<char>)
    requires
        !has_suffix(x, ".git"@),
    ensures
        trim_end_seq(x, ".git"@) == x,
        trim_end_seq(x + ".git"@, ".git"@) == x,
{
    reveal_strlit(".git");
    let y = x + ".git"@;
    assert(y.subrange(y.len() - 4, y.len() as int) =~= ".git"@);
    assert(y.subrange(0, y.len() - 4) =~= x);
}

/// An SSH remote `git@HOST:OWNER/NAME.git` gives `OWNER/NAME`: the owner
/// and the whole name, untouched, for any host without `:` and any owner
/// and name that are not empty and hold no `/` (the name not ending in
/// `.git`).
pub proof fn law_ssh_remote(host: Seq<char>, owner: Seq<char>, name: Seq<char>)
    requires
        lacks(host, ':'),
        segment(owner),
        segment(name),
        !has_suffix(name, ".git"@),
    ensures
        parse_git_remote_spec("git@"@ + host + ":"@ + owner + "/"@ + name + ".git"@) == Some(
            owner + "/"@ + name,
        ),
{
    reveal_strlit("git@");
    reveal_strlit(":");
    reveal_strlit("/");
    reveal_strlit(".git");
    let x = "git@"@ + host + ":"@ + owner + "/"@ + name;
    let url = x + ".git"@;
    assert(url =~= "git@"@ + host + ":"@ + owner + "/"@ + name + ".git"@);
    assert(url[0] == 'g');
    assert(url.last() == 't');
    lemma_trim_clean(url);
    assert(x.subrange(x.len() - name.len(), x.len() as int) =~= name);
    assert(x[x.len() - name.len() - 1] == '/');
    lemma_no_git_suffix(x, name);
    lemma_strip_suffix(x);
    let t = x;
    assert(t.take(4) =~= "git@"@);
    let rest = t.skip(4);
    assert(rest =~= host + seq![':'] + (owner + seq!['/'] + name));
    let hn = host.len() as int;
    assert forall|k: int| 0 <= k < hn implies rest[k] != ':' by {
        assert(rest[k] == host[k]);
    }
    lemma_find_char_at(rest, ':', 0, hn);
    assert(rest.skip(hn + 1) =~= owner + seq!['/'] + name);
    lemma_validate_pair(owner, name);
    assert(owner + "/"@ + name =~= owner + seq!['/'] + name);
}

/// An HTTPS remote `https://HOST/OWNER/NAME` gives `OWNER/NAME`: the owner
/// and the whole name, untouched, for any host without `/` and any owner
/// and name that are not empty and hold no `/` (the name not ending in
/// `.git` or in white space).
pub proof fn law_https_remote(host: Seq<char>, owner: Seq<char>, name: Seq<char>)
    requires
        lacks(host, '/'),
        segment(owner),
        segment(name),
        !has_suffix(name, ".git"@),
        !is_space(name.last()),
    ensures
        parse_git_remote_spec("https://"@ + host + "/"@ + owner + "/"@ + name) == Some(
            owner + "/"@ + name,
        ),
{
    reveal_strlit("https://");
    reveal_strlit("http://");
    reveal_strlit("git@");
    reveal_strlit("/");
    let url = "https://"@ + host + "/"@ + owner + "/"@ + name;
    assert(url[0] == 'h');
    assert(url.last() == name.last());
    lemma_trim_clean(url);
    assert(url.subrange(url.len() - name.len(), url.len() as int) =~= name);
    assert(url[url.len() - name.len() - 1] == '/');
    lemma_no_git_suffix(url, name);
    lemma_strip_suffix(url);
    let t = url;
    assert(!has_prefix(t, "git@"@)) by {
        assert(t.take(4)[0] == 'h');
    }
    assert(t.take(8) =~= "https://"@);
    let rest = t.skip(8);
    assert(rest =~= host + seq!['/'] + (owner + seq!['/'] + name));
    let hn = host.len() as int;
    assert forall|k: int| 0 <= k < hn implies rest[k] != '/' by {
        assert(rest[k] == host[k]);
    }
    lemma_find_char_at(rest, '/', 0, hn);
    assert(rest.skip(hn + 1) =~= owner + seq!['/'] + name);
    lemma_validate_pair(owner, name);
    assert(owner + "/"@ + name =~= owner + seq!['/'] + name);
}

} // verus!
