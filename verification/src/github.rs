//! The code host's REST API: the repository a client works on, its URLs,
//! the token it authenticates with, and file contents it returns.

use vstd::prelude::*;
use crate::base64::{b64_decode, decode};
use crate::error::{parse_repo, parse_repo_spec, AppError};
use crate::text::{
    all_space, chars_of, is_space, is_space_char, push_char, push_str_chars, string_of, trim,
    trim_bounds,
};

verus! {

/// Where the API lives.
pub const API_BASE: &'static str = "https://api.github.com";

/// A client of the API for one repository (`owner/name`).
pub struct GithubClient {
    repo: String,
}

impl GithubClient {
    pub closed spec fn spec_repo(&self) -> Seq<char> {
        self.repo@
    }

    /// A client for `repo`, which must be in the form `owner/name`.
    pub fn new(repo: &str) -> (r: Result<GithubClient, AppError>)
        ensures
            match r {
                Ok(c) => parse_repo_spec(repo@) is Some && c.spec_repo() == repo@,
                Err(e) => parse_repo_spec(repo@) is None && (e matches AppError::InvalidRepoName(
                    s,
                ) && s@ == repo@),
            },
    {
        match parse_repo(repo) {
            Ok(_) => {
                let mut r = String::new();
                push_str_chars(&mut r, repo);
                Ok(GithubClient { repo: r })
            },
            Err(e) => Err(e),
        }
    }

    /// The repository, `owner/name`.
    pub fn repo(&self) -> (r: &str)
        ensures
            r@ == self.spec_repo(),
    {
        self.repo.as_str()
    }

    /// `https://api.github.com/repos/{owner/name}/{path}`.
    pub fn url(&self, path: &str) -> (r: String)
        ensures
            r@ == API_BASE@ + "/repos/"@ + self.spec_repo() + "/"@ + path@,
    {
        let mut r = String::new();
        push_str_chars(&mut r, API_BASE);
        push_str_chars(&mut r, "/repos/");
        push_str_chars(&mut r, self.repo.as_str());
        push_str_chars(&mut r, "/");
        push_str_chars(&mut r, path);
        r
    }
}

/// The API path of a file's contents.
pub fn contents_path(path: &str) -> (r: String)
    ensures
        r@ == "contents/"@ + path@,
{
    let mut r = String::new();
    push_str_chars(&mut r, "contents/");
    push_str_chars(&mut r, path);
    r
}

/// The API path of the comparison of `base` with `head` (the commits in
/// `head` that are not in `base`).
pub fn compare_path(base: &str, head: &str) -> (r: String)
    ensures
        r@ == "compare/"@ + base@ + "..."@ + head@,
{
    let mut r = String::new();
    push_str_chars(&mut r, "compare/");
    push_str_chars(&mut r, base);
    push_str_chars(&mut r, "...");
    push_str_chars(&mut r, head);
    r
}

/// The token from `GITHUB_TOKEN`, when it is set and not blank (it is used
/// as it is, untrimmed).
pub fn token_from_env(value: Option<&str>) -> (r: Option<String>)
    ensures
        match value {
            Some(v) => if trim(v@).len() > 0 {
                r matches Some(t) && t@ == v@
            } else {
                r is None
            },
            None => r is None,
        },
{
    match value {
        Some(v) => {
            let cs = chars_of(v);
            let (b, e) = trim_bounds(&cs);
            if b < e {
                let mut t = String::new();
                push_str_chars(&mut t, v);
                Some(t)
            } else {
                None
            }
        },
        None => None,
    }
}

/// The token from the output of `gh auth token`: its stdout trimmed, when
/// the command ran and succeeded and printed something.
pub fn token_from_gh(succeeded: bool, stdout: &str) -> (r: Result<String, String>)
    ensures
        !succeeded ==> (r matches Err(m) && m@
            == "no GitHub token available: set GITHUB_TOKEN or run `gh auth login`"@),
        succeeded && trim(stdout@).len() == 0 ==> (r matches Err(m) && m@
            == "GITHUB_TOKEN not set and `gh auth token` returned empty output"@),
        succeeded && trim(stdout@).len() > 0 ==> (r matches Ok(t) && t@ == trim(stdout@)),
{
    if !succeeded {
        let mut m = String::new();
        push_str_chars(&mut m, "no GitHub token available: set GITHUB_TOKEN or run `gh auth login`");
        return Err(m);
    }
    let cs = chars_of(stdout);
    let (b, e) = trim_bounds(&cs);
    if b == e {
        let mut m = String::new();
        push_str_chars(&mut m, "GITHUB_TOKEN not set and `gh auth token` returned empty output");
        return Err(m);
    }
    Ok(string_of(&cs, b, e))
}

/// The value of the `Authorization` header for a token.
pub fn bearer_header(token: &str) -> (r: String)
    ensures
        r@ == "Bearer "@ + token@,
{
    let mut r = String::new();
    push_str_chars(&mut r, "Bearer ");
    push_str_chars(&mut r, token);
    r
}

/// `s` without its white space characters.
pub open spec fn strip_space(s: Seq<char>) -> Seq<char>
    decreases s.len(),
{
    if s.len() == 0 {
        seq![]
    } else if is_space(s.last()) {
        strip_space(s.drop_last())
    } else {
        strip_space(s.drop_last()).push(s.last())
    }
}

/// The bytes of a file from the contents endpoint: the content must be
/// base64 (which the service wraps over lines, so white space is dropped
/// first).
pub open spec fn decode_contents_spec(content: Seq<char>, encoding: Seq<char>) -> Result<
    Seq<u8>,
    Seq<char>,
> {
    if encoding != "base64"@ {
        Err("unexpected encoding from GitHub: "@ + encoding)
    } else {
        match b64_decode(vstd::utf8::encode_utf8(strip_space(content))) {
            Some(b) => Ok(b),
            None => Err("base64 decode failed: "@ + "invalid base64 character"@),
        }
    }
}

/// Decodes a file from the contents endpoint (see
/// [`decode_contents_spec`]).
pub fn decode_contents(content: &str, encoding: &str) -> (r: Result<Vec<u8>, String>)
    ensures
        match (r, decode_contents_spec(content@, encoding@)) {
            (Ok(b), Ok(v)) => b@ == v,
            (Err(m), Err(w)) => m@ == w,
            _ => false,
        },
{
    if !crate::text::str_eq(encoding, "base64") {
        let mut m = String::new();
        push_str_chars(&mut m, "unexpected encoding from GitHub: ");
        push_str_chars(&mut m, encoding);
        return Err(m);
    }
    let cs = chars_of(content);
    let mut cleaned = String::new();
    let mut i: usize = 0;
    while i < cs.len()
        invariant
            i <= cs@.len(),
            cs@ == content@,
            cleaned@ == strip_space(cs@.take(i as int)),
        decreases cs@.len() - i,
    {
        assert(cs@.take(i + 1).drop_last() =~= cs@.take(i as int));
        assert(cs@.take(i + 1).last() == cs@[i as int]);
        if !is_space_char(cs[i]) {
            push_char(&mut cleaned, cs[i]);
        }
        i = i + 1;
    }
    assert(cs@.take(cs@.len() as int) =~= cs@);
    match decode(cleaned.as_str()) {
        Ok(b) => Ok(b),
        Err(e) => {
            let mut m = String::new();
            push_str_chars(&mut m, "base64 decode failed: ");
            push_str_chars(&mut m, e);
            Err(m)
        },
    }
}

/// What the service answers when a release is created.
#[derive(Clone, Debug)]
pub struct ReleaseResponse {
    pub html_url: String,
    pub tag_name: String,
}

} // verus!
