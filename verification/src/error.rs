//! The errors the tool reports, and the `owner/name` form of a repository.

use vstd::prelude::*;
use crate::text::{
    chars_of, find_char, find_char_exec, lemma_find_char_bounds, push_str_chars, string_of,
};

verus! {

/// An error of the tool's own, with what it is about.
#[derive(Debug)]
pub enum AppError {
    ProjectNotFound(String),
    ProjectNotRegistered(String),
    StageNotFound(String, String),
    NoPendingApproval(String),
    MissingEnv(&'static str),
    InvalidRepoName(String),
}

/// The message of an error.
pub open spec fn app_error_message(e: AppError) -> Seq<char> {
    match e {
        AppError::ProjectNotFound(n) => "project '"@ + n@
            + "' is not registered (run `aws-utils add` inside its directory)"@,
        AppError::ProjectNotRegistered(p) => "no project registered for current directory: "@
            + p@,
        AppError::StageNotFound(s, p) => "pipeline stage '"@ + s@ + "' not found in pipeline '"@
            + p@ + "'"@,
        AppError::NoPendingApproval(s) => "no pending manual approval action found in stage '"@
            + s@ + "'"@,
        AppError::MissingEnv(v) => "missing required environment variable: "@ + v@,
        AppError::InvalidRepoName(r) => "repo must be in `owner/name` form, got: "@ + r@,
    }
}

impl AppError {
    /// The message shown to the user.
    pub fn message(&self) -> (r: String)
        ensures
            r@ == app_error_message(*self),
    {
        let mut r = String::new();
        match self {
            AppError::ProjectNotFound(n) => {
                push_str_chars(&mut r, "project '");
                push_str_chars(&mut r, n.as_str());
                push_str_chars(
                    &mut r,
                    "' is not registered (run `aws-utils add` inside its directory)",
                );
            },
            AppError::ProjectNotRegistered(p) => {
                push_str_chars(&mut r, "no project registered for current directory: ");
                push_str_chars(&mut r, p.as_str());
            },
            AppError::StageNotFound(s, p) => {
                push_str_chars(&mut r, "pipeline stage '");
                push_str_chars(&mut r, s.as_str());
                push_str_chars(&mut r, "' not found in pipeline '");
                push_str_chars(&mut r, p.as_str());
                push_str_chars(&mut r, "'");
            },
            AppError::NoPendingApproval(s) => {
                push_str_chars(&mut r, "no pending manual approval action found in stage '");
                push_str_chars(&mut r, s.as_str());
                push_str_chars(&mut r, "'");
            },
            AppError::MissingEnv(v) => {
                push_str_chars(&mut r, "missing required environment variable: ");
                push_str_chars(&mut r, v);
            },
            AppError::InvalidRepoName(s) => {
                push_str_chars(&mut r, "repo must be in `owner/name` form, got: ");
                push_str_chars(&mut r, s.as_str());
            },
        }
        r
    }
}

/// `owner/name`: a non-empty owner, one `/`, a non-empty name without `/`.
pub open spec fn parse_repo_spec(slug: Seq<char>) -> Option<(Seq<char>, Seq<char>)> {
    let i = find_char(slug, '/', 0);
    if 0 < i && i + 1 < slug.len() && find_char(slug, '/', i + 1) == slug.len() {
        Some((slug.subrange(0, i), slug.subrange(i + 1, slug.len() as int)))
    } else {
        None
    }
}

/// Splits `owner/name`; [`AppError::InvalidRepoName`] when `slug` is not
/// in that form.
pub fn parse_repo(slug: &str) -> (r: Result<(String, String), AppError>)
    ensures
        match r {
            Ok((o, n)) => parse_repo_spec(slug@) == Some((o@, n@)),
            Err(e) => parse_repo_spec(slug@) is None && (e matches AppError::InvalidRepoName(s)
                && s@ == slug@),
        },
{
    let cs = chars_of(slug);
    let n = cs.len();
    let i = find_char_exec(&cs, '/', 0);
    if 0 < i && i < n && i + 1 < n {
        let j = find_char_exec(&cs, '/', i + 1);
        if j == n {
            return Ok((string_of(&cs, 0, i), string_of(&cs, i + 1, n)));
        }
    }
    Err(AppError::InvalidRepoName(string_of(&cs, 0, n)))
}

} // verus!
