//! Release notes in Markdown: a header, the tickets of the release, and the
//! commits grouped by their conventional-commit type.

use vstd::prelude::*;
use crate::jira::Ticket;
use crate::text::{
    chars_eq, chars_of, is_ascii_alpha, is_space, is_space_char, lines, lower, lower_seq,
    next_line, push_char, push_str_chars, short, skip_space, skip_space_exec, string_of,
    take_chars, to_lower, ymd_text, dmy_text,
};

verus! {

/// A commit as the hosting service's compare endpoint lists it.
#[derive(Clone, Debug)]
pub struct Commit {
    pub sha: String,
    pub commit: CommitDetails,
    pub author: Option<CommitAuthor>,
    pub html_url: Option<String>,
}

/// The git side of a commit: its message and author.
#[derive(Clone, Debug)]
pub struct CommitDetails {
    pub message: String,
    pub author: Option<CommitAuthorDetails>,
}

impl Default for CommitDetails {
    fn default() -> (r: CommitDetails)
        ensures
            r.message@ == Seq::<char>::empty(),
            r.author is None,
    {
        CommitDetails { message: String::new(), author: None }
    }
}

/// The author recorded in git.
#[derive(Clone, Debug)]
pub struct CommitAuthorDetails {
    pub name: Option<String>,
    pub email: Option<String>,
    pub date: Option<String>,
}

/// The account of the hosting service that authored the commit.
#[derive(Clone, Debug)]
pub struct CommitAuthor {
    pub login: Option<String>,
}

/// The first line of `message` (empty when it has none).
pub open spec fn first_line_spec(message: Seq<char>) -> Seq<char> {
    if lines(message).len() > 0 {
        lines(message)[0]
    } else {
        seq![]
    }
}

impl Commit {
    /// The first seven characters of the hash.
    pub fn short_sha(&self) -> (r: String)
        ensures
            r@ == take_chars(self.sha@, 7),
    {
        short(self.sha.as_str())
    }

    /// The subject line of the message.
    pub fn first_line(&self) -> (r: String)
        ensures
            r@ == first_line_spec(self.commit.message@),
    {
        let cs = chars_of(self.commit.message.as_str());
        if cs.len() == 0 {
            assert(lines(cs@) == Seq::<Seq<char>>::empty());
            return String::new();
        }
        let (line, _next) = next_line(&cs, 0);
        string_of(&line, 0, line.len())
    }
}

/// End of the run of ASCII letters from `i`.
pub open spec fn letter_end(s: Seq<char>, i: int) -> int
    decreases s.len() - i,
{
    if 0 <= i < s.len() && is_ascii_alpha(s[i]) {
        letter_end(s, i + 1)
    } else {
        i
    }
}

/// Position of the first `)` at or after `i` (the length when there is
/// none).
pub open spec fn paren_end(s: Seq<char>, i: int) -> int
    decreases s.len() - i,
{
    if 0 <= i < s.len() && s[i] != ')' {
        paren_end(s, i + 1)
    } else {
        i
    }
}

/// What `\s*(.+)$` captures of `r`: `r` without its leading white space,
/// or its last character when it is all white space.
pub open spec fn subject_of(r: Seq<char>) -> Seq<char> {
    if skip_space(r, 0) < r.len() {
        r.skip(skip_space(r, 0))
    } else {
        r.skip(r.len() - 1)
    }
}

/// The rest of a conventional subject from `p`, after the type and the
/// scope: an optional `!`, a `:`, then the subject (at least one character).
pub open spec fn conventional_tail(
    s: Seq<char>,
    kind_end: int,
    scope: Option<Seq<char>>,
    p: int,
) -> Option<(Seq<char>, Option<Seq<char>>, bool, Seq<char>)> {
    let bang = p < s.len() && s[p] == '!';
    let c = if bang {
        p + 1
    } else {
        p
    };
    if c < s.len() && s[c] == ':' && c + 1 < s.len() {
        Some((s.subrange(0, kind_end), scope, bang, subject_of(s.subrange(c + 1, s.len() as int))))
    } else {
        None
    }
}

/// A conventional-commit subject `type(scope)!: subject`: the type (ASCII
/// letters), the scope (no `)`, at least one character) if any, whether
/// `!` marks it breaking, and the subject.
pub open spec fn conventional(s: Seq<char>) -> Option<(Seq<char>, Option<Seq<char>>, bool, Seq<char>)> {
    let t = letter_end(s, 0);
    if t == 0 {
        None
    } else if t < s.len() && s[t] == '(' {
        let q = paren_end(s, t + 1);
        if q < s.len() && q > t + 1 {
            conventional_tail(s, t, Some(s.subrange(t + 1, q)), q + 1)
        } else {
            None
        }
    } else {
        conventional_tail(s, t, None, t)
    }
}

proof fn lemma_letter_end_bounds(s: Seq<char>, i: int)
    requires
        0 <= i <= s.len(),
    ensures
        i <= letter_end(s, i) <= s.len(),
    decreases s.len() - i,
{
    if i < s.len() && is_ascii_alpha(s[i]) {
        lemma_letter_end_bounds(s, i + 1);
    }
}

proof fn lemma_paren_end_bounds(s: Seq<char>, i: int)
    requires
        0 <= i <= s.len(),
    ensures
        i <= paren_end(s, i) <= s.len(),
    decreases s.len() - i,
{
    if i < s.len() && s[i] != ')' {
        lemma_paren_end_bounds(s, i + 1);
    }
}

fn letter_end_exec(cs: &Vec<char>, i: usize) -> (r: usize)
    requires
        i <= cs@.len(),
    ensures
        r == letter_end(cs@, i as int),
        i <= r <= cs@.len(),
{
    let mut j = i;
    while j < cs.len() && (('a' <= cs[j] && cs[j] <= 'z') || ('A' <= cs[j] && cs[j] <= 'Z'))
        invariant
            i <= j <= cs@.len(),
            letter_end(cs@, j as int) == letter_end(cs@, i as int),
        decreases cs@.len() - j,
    {
        j = j + 1;
    }
    j
}

fn paren_end_exec(cs: &Vec<char>, i: usize) -> (r: usize)
    requires
        i <= cs@.len(),
    ensures
        r == paren_end(cs@, i as int),
        i <= r <= cs@.len(),
{
    let mut j = i;
    while j < cs.len() && cs[j] != ')'
        invariant
            i <= j <= cs@.len(),
            paren_end(cs@, j as int) == paren_end(cs@, i as int),
        decreases cs@.len() - j,
    {
        j = j + 1;
    }
    j
}

/// The parts of a conventional subject, each as a string.
pub struct Conventional {
    pub kind: String,
    pub scope: Option<String>,
    pub breaking: bool,
    pub subject: String,
}

/// The view of an optional string.
pub open spec fn opt_seq(o: Option<String>) -> Option<Seq<char>> {
    match o {
        Some(s) => Some(s@),
        None => None,
    }
}

fn tail_exec(
    cs: &Vec<char>,
    kind_end: usize,
    scope: Option<String>,
    p: usize,
) -> (r: Option<Conventional>)
    requires
        kind_end <= p <= cs@.len(),
    ensures
        match r {
            Some(c) => conventional_tail(cs@, kind_end as int, opt_seq(scope), p as int) == Some(
                (c.kind@, opt_seq(c.scope), c.breaking, c.subject@),
            ),
            None => conventional_tail(cs@, kind_end as int, opt_seq(scope), p as int) is None,
        },
{
    let n = cs.len();
    let bang = p < n && cs[p] == '!';
    let c = if bang {
        p + 1
    } else {
        p
    };
    if !(c < n && cs[c] == ':' && c + 1 < n) {
        return None;
    }
    let w = skip_space_exec(cs, c + 1, n);
    let start = if w < n {
        w
    } else {
        n - 1
    };
    proof {
        let r = cs@.subrange(c + 1, n as int);
        crate::text::lemma_skip_space_at(r, 0, w - (c + 1));
        if w < n {
            assert(r.skip(w - (c + 1)) =~= cs@.subrange(w as int, n as int));
        } else {
            assert(r.skip(r.len() - 1) =~= cs@.subrange(n - 1, n as int));
        }
    }
    Some(
        Conventional {
            kind: string_of(cs, 0, kind_end),
            scope: scope,
            breaking: bang,
            subject: string_of(cs, start, n),
        },
    )
}

/// Splits a commit subject in the conventional form `type(scope)!: subject`
/// into its parts; `None` when the subject is not in that form.
pub fn parse_conventional(line: &str) -> (r: Option<Conventional>)
    ensures
        match r {
            Some(c) => conventional(line@) == Some(
                (c.kind@, opt_seq(c.scope), c.breaking, c.subject@),
            ),
            None => conventional(line@) is None,
        },
{
    let cs = chars_of(line);
    let n = cs.len();
    let t = letter_end_exec(&cs, 0);
    if t == 0 {
        return None;
    }
    if t < n && cs[t] == '(' {
        let q = paren_end_exec(&cs, t + 1);
        if q < n && q > t + 1 {
            let scope = string_of(&cs, t + 1, q);
            tail_exec(&cs, t, Some(scope), q + 1)
        } else {
            None
        }
    } else {
        tail_exec(&cs, t, None, t)
    }
}


/// The sections of the notes, in the order they are rendered.
#[derive(Clone, Copy, Debug, PartialEq, Eq, Structural)]
pub enum Group {
    Features,
    BugFixes,
    Performance,
    Refactors,
    Documentation,
    Tests,
    BuildSystem,
    Ci,
    Chores,
    Reverts,
    Miscellaneous,
}

/// The number of sections.
pub const GROUP_COUNT: usize = 11;

/// The section at position `i` of the rendering order.
pub open spec fn group_at(i: int) -> Group {
    if i == 0 {
        Group::Features
    } else if i == 1 {
        Group::BugFixes
    } else if i == 2 {
        Group::Performance
    } else if i == 3 {
        Group::Refactors
    } else if i == 4 {
        Group::Documentation
    } else if i == 5 {
        Group::Tests
    } else if i == 6 {
        Group::BuildSystem
    } else if i == 7 {
        Group::Ci
    } else if i == 8 {
        Group::Chores
    } else if i == 9 {
        Group::Reverts
    } else {
        Group::Miscellaneous
    }
}

/// The heading of a section.
pub open spec fn heading_spec(g: Group) -> Seq<char> {
    match g {
        Group::Features => "Features"@,
        Group::BugFixes => "Bug Fixes"@,
        Group::Performance => "Performance"@,
        Group::Refactors => "Refactors"@,
        Group::Documentation => "Documentation"@,
        Group::Tests => "Tests"@,
        Group::BuildSystem => "Build System"@,
        Group::Ci => "CI"@,
        Group::Chores => "Chores"@,
        Group::Reverts => "Reverts"@,
        Group::Miscellaneous => "Miscellaneous"@,
    }
}

/// The section of a (lower-case) conventional type; unknown types go to
/// [`Group::Miscellaneous`].
pub open spec fn kind_group(k: Seq<char>) -> Group {
    if k == "feat"@ {
        Group::Features
    } else if k == "fix"@ {
        Group::BugFixes
    } else if k == "perf"@ {
        Group::Performance
    } else if k == "refactor"@ {
        Group::Refactors
    } else if k == "docs"@ {
        Group::Documentation
    } else if k == "test"@ {
        Group::Tests
    } else if k == "build"@ {
        Group::BuildSystem
    } else if k == "ci"@ {
        Group::Ci
    } else if k == "chore"@ {
        Group::Chores
    } else if k == "revert"@ {
        Group::Reverts
    } else {
        Group::Miscellaneous
    }
}

impl Group {
    /// The section at position `i` of the rendering order.
    pub fn at(i: usize) -> (g: Group)
        ensures
            g == group_at(i as int),
    {
        if i == 0 {
            Group::Features
        } else if i == 1 {
            Group::BugFixes
        } else if i == 2 {
            Group::Performance
        } else if i == 3 {
            Group::Refactors
        } else if i == 4 {
            Group::Documentation
        } else if i == 5 {
            Group::Tests
        } else if i == 6 {
            Group::BuildSystem
        } else if i == 7 {
            Group::Ci
        } else if i == 8 {
            Group::Chores
        } else if i == 9 {
            Group::Reverts
        } else {
            Group::Miscellaneous
        }
    }

    /// The heading of the section.
    pub fn heading(&self) -> (r: &'static str)
        ensures
            r@ == heading_spec(*self),
    {
        match self {
            Group::Features => "Features",
            Group::BugFixes => "Bug Fixes",
            Group::Performance => "Performance",
            Group::Refactors => "Refactors",
            Group::Documentation => "Documentation",
            Group::Tests => "Tests",
            Group::BuildSystem => "Build System",
            Group::Ci => "CI",
            Group::Chores => "Chores",
            Group::Reverts => "Reverts",
            Group::Miscellaneous => "Miscellaneous",
        }
    }

    /// The section of a lower-case conventional type.
    pub fn of_kind(k: &str) -> (g: Group)
        ensures
            g == kind_group(k@),
            forall|i: int|
                0 <= i < 10 && k@ == #[trigger] type_headings()[i].0 ==> heading_spec(g)
                    == type_headings()[i].1,
    {
        proof {
            law_type_headings_table();
        }
        let cs = chars_of(k);
        if chars_eq(&cs, &chars_of("feat")) {
            Group::Features
        } else if chars_eq(&cs, &chars_of("fix")) {
            Group::BugFixes
        } else if chars_eq(&cs, &chars_of("perf")) {
            Group::Performance
        } else if chars_eq(&cs, &chars_of("refactor")) {
            Group::Refactors
        } else if chars_eq(&cs, &chars_of("docs")) {
            Group::Documentation
        } else if chars_eq(&cs, &chars_of("test")) {
            Group::Tests
        } else if chars_eq(&cs, &chars_of("build")) {
            Group::BuildSystem
        } else if chars_eq(&cs, &chars_of("ci")) {
            Group::Ci
        } else if chars_eq(&cs, &chars_of("chore")) {
            Group::Chores
        } else if chars_eq(&cs, &chars_of("revert")) {
            Group::Reverts
        } else {
            Group::Miscellaneous
        }
    }
}

/// A commit as the notes list it.
pub struct ParsedCommit {
    pub short_sha: String,
    pub group: Group,
    pub scope: Option<String>,
    pub breaking: bool,
    pub subject: String,
    /// The first line of the message, untouched.
    pub first_line: String,
}

/// The section a commit is listed under.
pub open spec fn commit_group_spec(c: Commit) -> Group {
    match conventional(first_line_spec(c.commit.message@)) {
        Some(p) => kind_group(lower_seq(p.0)),
        None => Group::Miscellaneous,
    }
}

/// The list item of a parsed commit: `- \`SHA\` ` and, for a
/// miscellaneous commit, its first line untouched; otherwise a
/// `**BREAKING** ` marker when it is breaking, `**SCOPE**: ` when it has a
/// scope, and the subject.
pub open spec fn format_line_spec(p: ParsedCommit) -> Seq<char> {
    if p.group == Group::Miscellaneous {
        "- `"@ + p.short_sha@ + "` "@ + p.first_line@
    } else {
        "- `"@ + p.short_sha@ + "` "@ + (if p.breaking {
            "**BREAKING** "@
        } else {
            seq![]
        }) + match p.scope {
            Some(sc) => "**"@ + sc@ + "**: "@,
            None => seq![],
        } + p.subject@
    }
}

/// The list item of a commit.
pub open spec fn commit_line_spec(c: Commit) -> Seq<char> {
    let first = first_line_spec(c.commit.message@);
    let sh = take_chars(c.sha@, 7);
    match conventional(first) {
        Some(p) => if kind_group(lower_seq(p.0)) == Group::Miscellaneous {
            "- `"@ + sh + "` "@ + first
        } else {
            "- `"@ + sh + "` "@ + (if p.2 {
                "**BREAKING** "@
            } else {
                seq![]
            }) + match p.1 {
                Some(sc) => "**"@ + sc + "**: "@,
                None => seq![],
            } + p.3
        },
        None => "- `"@ + sh + "` "@ + first,
    }
}

fn lowercase(s: &str) -> (r: String)
    ensures
        r@ == lower_seq(s@),
{
    let cs = chars_of(s);
    let mut r = String::new();
    let mut i: usize = 0;
    while i < cs.len()
        invariant
            i <= cs@.len(),
            cs@ == s@,
            r@ == lower_seq(cs@.take(i as int)),
        decreases cs@.len() - i,
    {
        push_char(&mut r, to_lower(cs[i]));
        assert(lower_seq(cs@.take(i + 1)) =~= lower_seq(cs@.take(i as int)).push(lower(cs@[i as int])));
        i = i + 1;
    }
    assert(cs@.take(cs@.len() as int) =~= cs@);
    r
}

/// Reads a commit for the notes: its short hash, its first line, and the
/// parts of that line when it is a conventional subject.
pub fn parse_commit(c: &Commit) -> (r: ParsedCommit)
    ensures
        r.short_sha@ == take_chars(c.sha@, 7),
        r.first_line@ == first_line_spec(c.commit.message@),
        r.group == commit_group_spec(*c),
        conventional(first_line_spec(c.commit.message@)) matches Some(p) ==> forall|i: int|
            0 <= i < 10 && lower_seq(p.0) == #[trigger] type_headings()[i].0 ==> heading_spec(
                r.group,
            ) == type_headings()[i].1,
        format_line_spec(r) == commit_line_spec(*c),
        match conventional(first_line_spec(c.commit.message@)) {
            Some(p) => opt_seq(r.scope) == p.1 && r.breaking == p.2 && r.subject@ == p.3,
            None => r.scope is None && !r.breaking && r.subject@ == first_line_spec(
                c.commit.message@,
            ),
        },
{
    proof {
        law_type_headings(*c);
    }
    let first = c.first_line();
    let short_sha = c.short_sha();
    match parse_conventional(first.as_str()) {
        Some(conv) => {
            let kind = lowercase(conv.kind.as_str());
            let group = Group::of_kind(kind.as_str());
            ParsedCommit {
                short_sha,
                group,
                scope: conv.scope,
                breaking: conv.breaking,
                subject: conv.subject,
                first_line: first,
            }
        },
        None => {
            let subject = first.clone();
            ParsedCommit {
                short_sha,
                group: Group::Miscellaneous,
                scope: None,
                breaking: false,
                subject,
                first_line: first,
            }
        },
    }
}

/// The list item of a parsed commit (see [`format_line_spec`]).
pub fn format_line(p: &ParsedCommit) -> (r: String)
    ensures
        r@ == format_line_spec(*p),
{
    let mut line = String::new();
    push_str_chars(&mut line, "- `");
    push_str_chars(&mut line, p.short_sha.as_str());
    push_str_chars(&mut line, "` ");
    if p.group == Group::Miscellaneous {
        push_str_chars(&mut line, p.first_line.as_str());
        return line;
    }
    let ghost head = line@;
    if p.breaking {
        push_str_chars(&mut line, "**BREAKING** ");
    }
    let ghost with_mark = line@;
    match &p.scope {
        Some(scope) => {
            push_str_chars(&mut line, "**");
            push_str_chars(&mut line, scope.as_str());
            push_str_chars(&mut line, "**: ");
            assert(line@ =~= with_mark + ("**"@ + scope@ + "**: "@));
        },
        None => {
            assert(line@ =~= with_mark + Seq::<char>::empty());
        },
    }
    push_str_chars(&mut line, p.subject.as_str());
    assert(line@ =~= format_line_spec(*p));
    line
}


/// What the notes are made from.
pub struct ChangelogInput<'a> {
    pub project: &'a str,
    pub pipeline: &'a str,
    pub from_stage: &'a str,
    pub to_stage: &'a str,
    pub from_sha: &'a str,
    pub to_sha: &'a str,
    pub commits: &'a [Commit],
    pub tickets: &'a [Ticket],
}

/// The value of an optional string, or `default`.
pub open spec fn or_default(o: Option<String>, default: Seq<char>) -> Seq<char> {
    match o {
        Some(s) => s@,
        None => default,
    }
}

/// The title and the pipeline, stage and commit range of the notes.
pub open spec fn header_spec(input: ChangelogInput, date: Seq<char>) -> Seq<char> {
    "# Release "@ + date + " — "@ + input.project@ + "\n\n"@ + "Pipeline: `"@ + input.pipeline@
        + "`  \nStages: `"@ + input.from_stage@ + "` → `"@ + input.to_stage@
        + "`  \nCommits: `"@ + take_chars(input.to_sha@, 7) + "` → `"@ + take_chars(
        input.from_sha@,
        7,
    ) + "`\n\n"@
}

/// The list item of a ticket: link, summary, status (`?` when unknown) and
/// assignee (`unassigned` when none).
pub open spec fn ticket_line_spec(t: Ticket) -> Seq<char> {
    "- ["@ + t.key@ + "]("@ + t.url@ + ") — "@ + t.summary@ + " _(status: "@ + or_default(
        t.status,
        "?"@,
    ) + ", assignee: "@ + or_default(t.assignee, "unassigned"@) + ")_\n"@
}

pub open spec fn ticket_lines_spec(ts: Seq<Ticket>) -> Seq<char>
    decreases ts.len(),
{
    if ts.len() == 0 {
        seq![]
    } else {
        ticket_lines_spec(ts.drop_last()) + ticket_line_spec(ts.last())
    }
}

/// The tickets section.
pub open spec fn tickets_section_spec(ts: Seq<Ticket>) -> Seq<char> {
    "## Tickets\n\n"@ + if ts.len() == 0 {
        "_No JIRA tickets referenced in commit messages._\n\n"@
    } else {
        ticket_lines_spec(ts) + "\n"@
    }
}

/// The items of the commits of section `g`, in input order, each ended by a
/// line break.
pub open spec fn group_lines_spec(cs: Seq<Commit>, g: Group) -> Seq<char>
    decreases cs.len(),
{
    if cs.len() == 0 {
        seq![]
    } else {
        group_lines_spec(cs.drop_last(), g) + if commit_group_spec(cs.last()) == g {
            commit_line_spec(cs.last()) + "\n"@
        } else {
            seq![]
        }
    }
}

/// Whether some commit falls in section `g`.
pub open spec fn in_group(cs: Seq<Commit>, g: Group) -> bool {
    exists|i: int| 0 <= i < cs.len() && #[trigger] commit_group_spec(cs[i]) == g
}

/// Section `g`: its heading and items, or nothing when it has no commit.
pub open spec fn group_block_spec(cs: Seq<Commit>, g: Group) -> Seq<char> {
    if in_group(cs, g) {
        "### "@ + heading_spec(g) + "\n\n"@ + group_lines_spec(cs, g) + "\n"@
    } else {
        seq![]
    }
}

/// The first `n` sections in rendering order.
pub open spec fn group_blocks_spec(cs: Seq<Commit>, n: nat) -> Seq<char>
    decreases n,
{
    if n == 0 {
        seq![]
    } else {
        group_blocks_spec(cs, (n - 1) as nat) + group_block_spec(cs, group_at(n - 1))
    }
}

/// The commits section.
pub open spec fn commits_section_spec(cs: Seq<Commit>) -> Seq<char> {
    "## Commits\n\n"@ + if cs.len() == 0 {
        "_No commits between stages._\n"@
    } else {
        group_blocks_spec(cs, GROUP_COUNT as nat)
    }
}

/// The notes for `input` dated `date`.
pub open spec fn render_spec(input: ChangelogInput, date: Seq<char>) -> Seq<char> {
    header_spec(input, date) + tickets_section_spec(input.tickets@) + commits_section_spec(
        input.commits@,
    )
}

fn push_opt_or(out: &mut String, o: &Option<String>, default: &str)
    ensures
        final(out)@ == old(out)@ + or_default(*o, default@),
{
    match o {
        Some(v) => push_str_chars(out, v.as_str()),
        None => push_str_chars(out, default),
    }
}

fn push_ticket_line(out: &mut String, t: &Ticket)
    ensures
        final(out)@ == old(out)@ + ticket_line_spec(*t),
{
    let ghost start = out@;
    push_str_chars(out, "- [");
    push_str_chars(out, t.key.as_str());
    push_str_chars(out, "](");
    push_str_chars(out, t.url.as_str());
    push_str_chars(out, ") — ");
    push_str_chars(out, t.summary.as_str());
    push_str_chars(out, " _(status: ");
    push_opt_or(out, &t.status, "?");
    push_str_chars(out, ", assignee: ");
    push_opt_or(out, &t.assignee, "unassigned");
    push_str_chars(out, ")_\n");
    assert(out@ =~= start + ticket_line_spec(*t));
}

/// Renders the release notes for `input` with the given date.
pub fn render_with_date(input: &ChangelogInput, date: &str) -> (r: String)
    ensures
        r@ == render_spec(*input, date@),
{
    let mut out = String::new();
    push_str_chars(&mut out, "# Release ");
    push_str_chars(&mut out, date);
    push_str_chars(&mut out, " — ");
    push_str_chars(&mut out, input.project);
    push_str_chars(&mut out, "\n\n");
    push_str_chars(&mut out, "Pipeline: `");
    push_str_chars(&mut out, input.pipeline);
    push_str_chars(&mut out, "`  \nStages: `");
    push_str_chars(&mut out, input.from_stage);
    push_str_chars(&mut out, "` → `");
    push_str_chars(&mut out, input.to_stage);
    push_str_chars(&mut out, "`  \nCommits: `");
    let to_short = short(input.to_sha);
    push_str_chars(&mut out, to_short.as_str());
    push_str_chars(&mut out, "` → `");
    let from_short = short(input.from_sha);
    push_str_chars(&mut out, from_short.as_str());
    push_str_chars(&mut out, "`\n\n");
    let ghost header = out@;
    assert(header =~= header_spec(*input, date@));
    push_str_chars(&mut out, "## Tickets\n\n");
    let ghost tickets_head = out@;
    if input.tickets.len() == 0 {
        push_str_chars(&mut out, "_No JIRA tickets referenced in commit messages._\n\n");
    } else {
        let mut i: usize = 0;
        while i < input.tickets.len()
            invariant
                i <= input.tickets@.len(),
                out@ == tickets_head + ticket_lines_spec(input.tickets@.take(i as int)),
            decreases input.tickets@.len() - i,
        {
            assert(input.tickets@.take(i + 1).drop_last() =~= input.tickets@.take(i as int));
            push_ticket_line(&mut out, &input.tickets[i]);
            i = i + 1;
        }
        assert(input.tickets@.take(input.tickets@.len() as int) =~= input.tickets@);
        push_str_chars(&mut out, "\n");
    }
    assert(out@ =~= header + tickets_section_spec(input.tickets@));
    let ghost before_commits = out@;
    push_str_chars(&mut out, "## Commits\n\n");
    let ghost commits_head = out@;
    let cs = input.commits;
    if cs.len() == 0 {
        push_str_chars(&mut out, "_No commits between stages._\n");
        assert(out@ =~= before_commits + commits_section_spec(cs@));
        return out;
    }
    let mut parsed: Vec<ParsedCommit> = Vec::new();
    let mut i: usize = 0;
    while i < cs.len()
        invariant
            i <= cs@.len(),
            parsed@.len() == i,
            forall|k: int|
                0 <= k < i ==> (#[trigger] parsed@[k]).group == commit_group_spec(cs@[k])
                    && format_line_spec(parsed@[k]) == commit_line_spec(cs@[k]),
        decreases cs@.len() - i,
    {
        parsed.push(parse_commit(&cs[i]));
        i = i + 1;
    }
    let mut gi: usize = 0;
    while gi < GROUP_COUNT
        invariant
            gi <= GROUP_COUNT,
            cs@.len() > 0,
            parsed@.len() == cs@.len(),
            forall|k: int|
                0 <= k < cs@.len() ==> (#[trigger] parsed@[k]).group == commit_group_spec(cs@[k])
                    && format_line_spec(parsed@[k]) == commit_line_spec(cs@[k]),
            out@ == commits_head + group_blocks_spec(cs@, gi as nat),
        decreases GROUP_COUNT - gi,
    {
        let g = Group::at(gi);
        let mut lines = String::new();
        let mut found = false;
        let mut j: usize = 0;
        while j < parsed.len()
            invariant
                j <= parsed@.len() == cs@.len(),
                g == group_at(gi as int),
                forall|k: int|
                    0 <= k < cs@.len() ==> (#[trigger] parsed@[k]).group == commit_group_spec(
                        cs@[k],
                    ) && format_line_spec(parsed@[k]) == commit_line_spec(cs@[k]),
                lines@ == group_lines_spec(cs@.take(j as int), g),
                found == in_group(cs@.take(j as int), g),
            decreases parsed@.len() - j,
        {
            let ghost t0 = cs@.take(j as int);
            let ghost t1 = cs@.take(j + 1);
            assert(t1.drop_last() =~= t0);
            assert(t1.last() == cs@[j as int]);
            let p = &parsed[j];
            if p.group == g {
                let l = format_line(p);
                push_str_chars(&mut lines, l.as_str());
                push_str_chars(&mut lines, "\n");
                assert(commit_group_spec(t1[j as int]) == g);
                found = true;
            } else {
                assert(lines@ =~= group_lines_spec(t1, g));
                assert(in_group(t1, g) == in_group(t0, g)) by {
                    if in_group(t1, g) {
                        let w = choose|w: int| 0 <= w < t1.len() && #[trigger] commit_group_spec(t1[w]) == g;
                        assert(t0[w] == t1[w]);
                    }
                    if in_group(t0, g) {
                        let w = choose|w: int| 0 <= w < t0.len() && #[trigger] commit_group_spec(t0[w]) == g;
                        assert(t1[w] == t0[w]);
                    }
                }
            }
            j = j + 1;
        }
        assert(cs@.take(cs@.len() as int) =~= cs@);
        let ghost before = out@;
        if found {
            push_str_chars(&mut out, "### ");
            push_str_chars(&mut out, g.heading());
            push_str_chars(&mut out, "\n\n");
            push_str_chars(&mut out, lines.as_str());
            push_str_chars(&mut out, "\n");
        }
        assert(out@ =~= before + group_block_spec(cs@, g));
        gi = gi + 1;
    }
    assert(out@ =~= before_commits + commits_section_spec(cs@));
    out
}

/// The current local date written with the pattern `fmt`, one of
/// `%Y-%m-%d` and `%d-%m-%Y`: the system time since the Unix epoch, made a
/// `chrono::DateTime` (`DateTime::from_timestamp`), moved into the local
/// time zone (`with_timezone(&Local)`) and written with `format(fmt)`.
/// `None` when the clock is before the epoch or out of chrono's range
/// (where `chrono::Local::now` would panic). Of a date it states the shape
/// chrono's `%Y`, `%m` and `%d` write; which date is left unsaid, since it
/// depends on the clock and the time zone. chrono's zone lookup
/// (`offset/local/unix.rs`) `expect`s success; it fails only for years
/// beyond the range of `i32` or times at the ends of `i64`, which a
/// `DateTime` made by `from_timestamp` (years within ±262 143) never is.
#[verifier::external_body]
pub(crate) fn local_date_text(fmt: &str) -> (r: Option<String>)
    requires
        fmt@ == "%Y-%m-%d"@ || fmt@ == "%d-%m-%Y"@,
    ensures
        r matches Some(d) ==> (fmt@ == "%Y-%m-%d"@ ==> ymd_text(d@)) && (fmt@ == "%d-%m-%Y"@
            ==> dmy_text(d@)),
{
    let since = std::time::SystemTime::now().duration_since(std::time::UNIX_EPOCH).ok()?;
    let secs = i64::try_from(since.as_secs()).ok()?;
    let utc = chrono::DateTime::from_timestamp(secs, since.subsec_nanos())?;
    Some(utc.with_timezone(&chrono::Local).format(fmt).to_string())
}

/// Renders the release notes for `input`, dated today (`YYYY-MM-DD`,
/// local time). `None` when the system clock gives no date.
pub fn render(input: &ChangelogInput) -> (r: Option<String>)
    ensures
        r matches Some(s) ==> exists|date: Seq<char>|
            ymd_text(date) && s@ == #[trigger] render_spec(*input, date),
{
    match local_date_text("%Y-%m-%d") {
        Some(date) => Some(render_with_date(input, date.as_str())),
        None => None,
    }
}


/// The conventional types and the headings they are listed under.
pub open spec fn type_headings() -> Seq<(Seq<char>, Seq<char>)> {
    seq![
        ("feat"@, "Features"@),
        ("fix"@, "Bug Fixes"@),
        ("perf"@, "Performance"@),
        ("refactor"@, "Refactors"@),
        ("docs"@, "Documentation"@),
        ("test"@, "Tests"@),
        ("build"@, "Build System"@),
        ("ci"@, "CI"@),
        ("chore"@, "Chores"@),
        ("revert"@, "Reverts"@)
    ]
}

/// The table's types go to the table's headings.
pub proof fn law_type_headings_table()
    ensures
        type_headings().len() == 10,
        forall|i: int|
            0 <= i < 10 ==> heading_spec(kind_group(#[trigger] type_headings()[i].0))
                == type_headings()[i].1,
{
    reveal_strlit("feat");
    reveal_strlit("fix");
    reveal_strlit("perf");
    reveal_strlit("refactor");
    reveal_strlit("docs");
    reveal_strlit("test");
    reveal_strlit("build");
    reveal_strlit("ci");
    reveal_strlit("chore");
    reveal_strlit("revert");
    let t = type_headings();
    assert forall|i: int| 0 <= i < 10 implies heading_spec(kind_group(#[trigger] t[i].0)) == t[i].1 by {
        if i == 0 {
            assert(t[0].0 == "feat"@ && t[0].1 == "Features"@);
            assert(kind_group(t[0].0) == Group::Features);
        } else if i == 1 {
            assert(t[1].0 == "fix"@ && t[1].1 == "Bug Fixes"@);
            assert("fix"@.len() != "feat"@.len());
            assert(kind_group(t[1].0) == Group::BugFixes);
        } else if i == 2 {
            assert(t[2].0 == "perf"@ && t[2].1 == "Performance"@);
            assert("perf"@[0] != "feat"@[0]);
            assert("perf"@.len() != "fix"@.len());
            assert(kind_group(t[2].0) == Group::Performance);
        } else if i == 3 {
            assert(t[3].0 == "refactor"@ && t[3].1 == "Refactors"@);
            assert("refactor"@.len() != "feat"@.len());
            assert("refactor"@.len() != "fix"@.len());
            assert("refactor"@.len() != "perf"@.len());
            assert(kind_group(t[3].0) == Group::Refactors);
        } else if i == 4 {
            assert(t[4].0 == "docs"@ && t[4].1 == "Documentation"@);
            assert("docs"@[0] != "feat"@[0]);
            assert("docs"@.len() != "fix"@.len());
            assert("docs"@[0] != "perf"@[0]);
            assert("docs"@.len() != "refactor"@.len());
            assert(kind_group(t[4].0) == Group::Documentation);
        } else if i == 5 {
            assert(t[5].0 == "test"@ && t[5].1 == "Tests"@);
            assert("test"@[0] != "feat"@[0]);
            assert("test"@.len() != "fix"@.len());
            assert("test"@[0] != "perf"@[0]);
            assert("test"@.len() != "refactor"@.len());
            assert("test"@[0] != "docs"@[0]);
            assert(kind_group(t[5].0) == Group::Tests);
        } else if i == 6 {
            assert(t[6].0 == "build"@ && t[6].1 == "Build System"@);
            assert("build"@.len() != "feat"@.len());
            assert("build"@.len() != "fix"@.len());
            assert("build"@.len() != "perf"@.len());
            assert("build"@.len() != "refactor"@.len());
            assert("build"@.len() != "docs"@.len());
            assert("build"@.len() != "test"@.len());
            assert(kind_group(t[6].0) == Group::BuildSystem);
        } else if i == 7 {
            assert(t[7].0 == "ci"@ && t[7].1 == "CI"@);
            assert("ci"@.len() != "feat"@.len());
            assert("ci"@.len() != "fix"@.len());
            assert("ci"@.len() != "perf"@.len());
            assert("ci"@.len() != "refactor"@.len());
            assert("ci"@.len() != "docs"@.len());
            assert("ci"@.len() != "test"@.len());
            assert("ci"@.len() != "build"@.len());
            assert(kind_group(t[7].0) == Group::Ci);
        } else if i == 8 {
            assert(t[8].0 == "chore"@ && t[8].1 == "Chores"@);
            assert("chore"@.len() != "feat"@.len());
            assert("chore"@.len() != "fix"@.len());
            assert("chore"@.len() != "perf"@.len());
            assert("chore"@.len() != "refactor"@.len());
            assert("chore"@.len() != "docs"@.len());
            assert("chore"@.len() != "test"@.len());
            assert("chore"@[0] != "build"@[0]);
            assert("chore"@.len() != "ci"@.len());
            assert(kind_group(t[8].0) == Group::Chores);
        } else if i == 9 {
            assert(t[9].0 == "revert"@ && t[9].1 == "Reverts"@);
            assert("revert"@.len() != "feat"@.len());
            assert("revert"@.len() != "fix"@.len());
            assert("revert"@.len() != "perf"@.len());
            assert("revert"@.len() != "refactor"@.len());
            assert("revert"@.len() != "docs"@.len());
            assert("revert"@.len() != "test"@.len());
            assert("revert"@.len() != "build"@.len());
            assert("revert"@.len() != "ci"@.len());
            assert("revert"@.len() != "chore"@.len());
            assert(kind_group(t[9].0) == Group::Reverts);
        }
    }
}

/// Each known conventional type is listed under its heading of the table
/// `feat` → Features, `fix` → Bug Fixes, `perf` → Performance,
/// `refactor` → Refactors, `docs` → Documentation, `test` → Tests,
/// `build` → Build System, `ci` → CI, `chore` → Chores,
/// `revert` → Reverts, whatever the case the type is written in; every
/// other type, and a first line that is no conventional subject, goes to
/// Miscellaneous.
pub proof fn law_type_headings(c: Commit)
    ensures
        type_headings().len() == 10,
        forall|i: int|
            0 <= i < 10 ==> heading_spec(kind_group(#[trigger] type_headings()[i].0))
                == type_headings()[i].1,
        match conventional(first_line_spec(c.commit.message@)) {
            Some(p) => (forall|i: int|
                0 <= i < 10 && lower_seq(p.0) == #[trigger] type_headings()[i].0 ==> heading_spec(
                    commit_group_spec(c),
                ) == type_headings()[i].1) && ((forall|i: int|
                0 <= i < 10 ==> lower_seq(p.0) != #[trigger] type_headings()[i].0)
                ==> commit_group_spec(c) == Group::Miscellaneous),
            None => commit_group_spec(c) == Group::Miscellaneous,
        },
{
    reveal_strlit("feat");
    reveal_strlit("fix");
    reveal_strlit("perf");
    reveal_strlit("refactor");
    reveal_strlit("docs");
    reveal_strlit("test");
    reveal_strlit("build");
    reveal_strlit("ci");
    reveal_strlit("chore");
    reveal_strlit("revert");
    law_type_headings_table();
    let t = type_headings();
    if let Some(p) = conventional(first_line_spec(c.commit.message@)) {
        let k = lower_seq(p.0);
        if forall|i: int| 0 <= i < 10 ==> k != #[trigger] t[i].0 {
            assert(k != t[0].0);
            assert(k != t[1].0);
            assert(k != t[2].0);
            assert(k != t[3].0);
            assert(k != t[4].0);
            assert(k != t[5].0);
            assert(k != t[6].0);
            assert(k != t[7].0);
            assert(k != t[8].0);
            assert(k != t[9].0);
        }
    }
}

} // verus!
