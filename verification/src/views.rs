//! What the browser's panes say: the text of each line, cut into spans
//! that each carry a tone. Drawing them is left to the terminal layer.

use vstd::prelude::*;
use crate::changelog::{first_line_spec, Commit};
use crate::config::Account;
use crate::keyset::string_views;
use crate::pipeline::StageRevision;
use crate::recipe::Recipe;
use crate::text::{
    chars_eq, chars_of, decimal, join_strings, join_with, lines, lines_from, next_line, push_decimal,
    push_str_chars, short, string_of, take_chars,
};
use crate::tui::{status_is_error, status_is_error_spec, ProjectView, StageFetchState, Tab};

verus! {

/// How a span is shown.
#[derive(Clone, Copy, Debug, PartialEq, Eq, Structural)]
pub enum Tone {
    Plain,
    Bold,
    Dim,
    Yellow,
    Red,
    Green,
    GreenBold,
}

/// A piece of a line with its tone.
#[derive(Clone, Debug)]
pub struct Span {
    pub text: String,
    pub tone: Tone,
}

/// A line as (text, tone) pairs.
pub open spec fn span_views(l: Seq<Span>) -> Seq<(Seq<char>, Tone)> {
    l.map_values(|s: Span| (s.text@, s.tone))
}

/// Lines as sequences of (text, tone) pairs.
pub open spec fn line_views(ls: Seq<Vec<Span>>) -> Seq<Seq<(Seq<char>, Tone)>> {
    ls.map_values(|l: Vec<Span>| span_views(l@))
}

fn span(text: &str, tone: Tone) -> (r: Span)
    ensures
        r.text@ == text@,
        r.tone == tone,
{
    let mut t = String::new();
    push_str_chars(&mut t, text);
    Span { text: t, tone }
}

fn one(text: String, tone: Tone) -> (r: Vec<Span>)
    ensures
        span_views(r@) == seq![(text@, tone)],
{
    let v = vec![Span { text, tone }];
    assert(span_views(v@) =~= seq![(text@, tone)]);
    v
}

fn single(text: &str, tone: Tone) -> (r: Vec<Span>)
    ensures
        span_views(r@) == seq![(text@, tone)],
{
    let v = vec![span(text, tone)];
    assert(span_views(v@) =~= seq![(text@, tone)]);
    v
}

fn labeled(label: &str, value: &str) -> (r: Vec<Span>)
    ensures
        span_views(r@) == seq![(label@, Tone::Bold), (value@, Tone::Plain)],
{
    let v = vec![span(label, Tone::Bold), span(value, Tone::Plain)];
    assert(span_views(v@) =~= seq![(label@, Tone::Bold), (value@, Tone::Plain)]);
    v
}

fn push_line(out: &mut Vec<Vec<Span>>, l: Vec<Span>)
    ensures
        line_views(final(out)@) == line_views(old(out)@).push(span_views(l@)),
{
    let ghost before = out@;
    let ghost lv = span_views(l@);
    out.push(l);
    assert(line_views(out@) =~= line_views(before).push(lv));
}

/// The value of an optional string, or nothing.
pub open spec fn or_empty(o: Option<String>) -> Seq<char> {
    match o {
        Some(s) => s@,
        None => seq![],
    }
}

/// The line of one stage's revision: `  STAGE = SHORT SUMMARY`.
pub open spec fn revision_line_spec(r: StageRevision) -> Seq<char> {
    "  "@ + r.stage@ + " = "@ + take_chars(r.revision_id@, 7) + " "@ + or_empty(r.revision_summary)
}

fn revision_line(r: &StageRevision) -> (s: String)
    ensures
        s@ == revision_line_spec(*r),
{
    let mut s = String::new();
    push_str_chars(&mut s, "  ");
    push_str_chars(&mut s, r.stage.as_str());
    push_str_chars(&mut s, " = ");
    let sh = short(r.revision_id.as_str());
    push_str_chars(&mut s, sh.as_str());
    push_str_chars(&mut s, " ");
    match &r.revision_summary {
        Some(m) => push_str_chars(&mut s, m.as_str()),
        None => {},
    }
    s
}

/// The lines of the stage state in the detail pane.
pub open spec fn stage_lines_spec(st: StageFetchState) -> Seq<Seq<(Seq<char>, Tone)>> {
    match st {
        StageFetchState::Idle => seq![seq![("press `r` to fetch from AWS"@, Tone::Dim)]],
        StageFetchState::Loading => seq![seq![("loading…"@, Tone::Yellow)]],
        StageFetchState::Ready { from, to, .. } => seq![
            seq![(revision_line_spec(from), Tone::Plain)],
            seq![(revision_line_spec(to), Tone::Plain)],
        ] + if from.revision_id@ == to.revision_id@ {
            seq![seq![("  → stages at same revision"@, Tone::Dim)]]
        } else {
            seq![]
        },
        StageFetchState::Failed(e) => seq![seq![("error: "@ + e@, Tone::Red)]],
    }
}

/// The detail pane of a project: name, repository and path; then the
/// configuration error, or the pipeline, stages, region and ticket
/// prefixes (when any), and the stage state.
pub open spec fn project_detail_spec(pv: ProjectView) -> Seq<Seq<(Seq<char>, Tone)>> {
    let head = seq![
        seq![("name:  "@, Tone::Bold), (pv.entry.name@, Tone::Plain)],
        seq![("repo:  "@, Tone::Bold), (pv.entry.repo@, Tone::Plain)],
        seq![("path:  "@, Tone::Bold), (pv.entry.path@, Tone::Plain)],
        seq![(Seq::<char>::empty(), Tone::Plain)],
    ];
    match pv.config_error {
        Some(err) => head.push(seq![("config error: "@ + err@, Tone::Red)]),
        None => match pv.config {
            None => head,
            Some(cfg) => head + seq![
                seq![("pipeline: "@, Tone::Bold), (cfg.pipeline@, Tone::Plain)],
                seq![
                    ("stages:   "@, Tone::Bold),
                    (cfg.from_stage@ + " → "@ + cfg.to_stage@, Tone::Plain),
                ],
                seq![("region:   "@, Tone::Bold), (or_empty(cfg.region), Tone::Plain)],
            ] + (if cfg.jira.prefixes@.len() > 0 {
                seq![
                    seq![
                        ("jira:     "@, Tone::Bold),
                        (join_with(string_views(cfg.jira.prefixes@), ", "@), Tone::Plain),
                    ],
                ]
            } else {
                seq![]
            }) + seq![
                seq![(Seq::<char>::empty(), Tone::Plain)],
                seq![("Stage state"@, Tone::Bold)],
            ] + stage_lines_spec(pv.stage_state),
        },
    }
}

fn push_stage_lines(out: &mut Vec<Vec<Span>>, st: &StageFetchState)
    ensures
        line_views(final(out)@) == line_views(old(out)@) + stage_lines_spec(*st),
{
    let ghost start = line_views(out@);
    match st {
        StageFetchState::Idle => {
            push_line(out, single("press `r` to fetch from AWS", Tone::Dim));
        },
        StageFetchState::Loading => {
            push_line(out, single("loading…", Tone::Yellow));
        },
        StageFetchState::Ready { from, to, .. } => {
            push_line(out, one(revision_line(from), Tone::Plain));
            push_line(out, one(revision_line(to), Tone::Plain));
            if chars_eq(&chars_of(from.revision_id.as_str()), &chars_of(to.revision_id.as_str())) {
                push_line(out, single("  → stages at same revision", Tone::Dim));
            }
        },
        StageFetchState::Failed(e) => {
            let mut m = String::new();
            push_str_chars(&mut m, "error: ");
            push_str_chars(&mut m, e.as_str());
            push_line(out, one(m, Tone::Red));
        },
    }
    assert(line_views(out@) =~~= start + stage_lines_spec(*st));
}

/// The detail pane of a project (see [`project_detail_spec`]).
pub fn project_detail(pv: &ProjectView) -> (r: Vec<Vec<Span>>)
    ensures
        line_views(r@) == project_detail_spec(*pv),
{
    let mut out: Vec<Vec<Span>> = Vec::new();
    push_line(&mut out, labeled("name:  ", pv.entry.name.as_str()));
    push_line(&mut out, labeled("repo:  ", pv.entry.repo.as_str()));
    push_line(&mut out, labeled("path:  ", pv.entry.path.as_str()));
    push_line(&mut out, one(String::new(), Tone::Plain));
    let ghost head = line_views(out@);
    if let Some(err) = &pv.config_error {
        let mut m = String::new();
        push_str_chars(&mut m, "config error: ");
        push_str_chars(&mut m, err.as_str());
        push_line(&mut out, one(m, Tone::Red));
        assert(line_views(out@) =~~= project_detail_spec(*pv));
        return out;
    }
    let cfg = match &pv.config {
        Some(c) => c,
        None => {
            assert(line_views(out@) =~~= project_detail_spec(*pv));
            return out;
        },
    };
    push_line(&mut out, labeled("pipeline: ", cfg.pipeline.as_str()));
    let mut stages = String::new();
    push_str_chars(&mut stages, cfg.from_stage.as_str());
    push_str_chars(&mut stages, " → ");
    push_str_chars(&mut stages, cfg.to_stage.as_str());
    let ghost sv = stages@;
    let sl = vec![span("stages:   ", Tone::Bold), Span { text: stages, tone: Tone::Plain }];
    assert(span_views(sl@) =~= seq![("stages:   "@, Tone::Bold), (sv, Tone::Plain)]);
    push_line(&mut out, sl);
    let region = match &cfg.region {
        Some(g) => g.as_str(),
        None => "",
    };
    proof {
        reveal_strlit("");
    }
    push_line(&mut out, labeled("region:   ", region));
    if cfg.jira.prefixes.len() > 0 {
        let joined = join_strings(cfg.jira.prefixes.as_slice(), ", ");
        let ghost jv = joined@;
        let jl = vec![span("jira:     ", Tone::Bold), Span { text: joined, tone: Tone::Plain }];
        assert(span_views(jl@) =~= seq![("jira:     "@, Tone::Bold), (jv, Tone::Plain)]);
        push_line(&mut out, jl);
    }
    push_line(&mut out, one(String::new(), Tone::Plain));
    push_line(&mut out, single("Stage state", Tone::Bold));
    push_stage_lines(&mut out, &pv.stage_state);
    assert(line_views(out@) =~~= project_detail_spec(*pv));
    out
}

/// The list item of a commit in the changelog pane.
pub open spec fn commit_spans_spec(c: Commit) -> Seq<(Seq<char>, Tone)> {
    seq![
        ("- "@, Tone::Plain),
        (take_chars(c.sha@, 7), Tone::Yellow),
        (" "@, Tone::Plain),
        (first_line_spec(c.commit.message@), Tone::Plain),
    ]
}

/// The changelog pane of a project and its title: a hint before a fetch, a
/// notice while loading, the failure, or the commits between the stages.
pub open spec fn changelog_pane_spec(st: StageFetchState) -> (Seq<Seq<(Seq<char>, Tone)>>, Seq<char>) {
    match st {
        StageFetchState::Idle => (seq![seq![("press `r` to fetch commits"@, Tone::Dim)]], "Changelog"@),
        StageFetchState::Loading => (seq![seq![("fetching commits…"@, Tone::Yellow)]], "Changelog"@),
        StageFetchState::Failed(e) => (
            seq![seq![("stage fetch failed: "@ + e@, Tone::Red)]],
            "Changelog"@,
        ),
        StageFetchState::Ready { commits, commits_error, .. } => (
            match commits_error {
                Some(e) => seq![seq![("commit fetch error: "@ + e@, Tone::Red)]],
                None => if commits@.len() == 0 {
                    seq![seq![("no commits between stages"@, Tone::Dim)]]
                } else {
                    Seq::new(commits@.len(), |i: int| commit_spans_spec(commits@[i]))
                },
            },
            "Commits ("@ + decimal(commits@.len()) + ") (PgUp/PgDn to scroll)"@,
        ),
    }
}

/// The changelog pane of a project (see [`changelog_pane_spec`]).
pub fn changelog_pane(pv: &ProjectView) -> (r: (Vec<Vec<Span>>, String))
    ensures
        (line_views(r.0@), r.1@) == changelog_pane_spec(pv.stage_state),
{
    let mut out: Vec<Vec<Span>> = Vec::new();
    let mut title = String::new();
    match &pv.stage_state {
        StageFetchState::Idle => {
            push_line(&mut out, single("press `r` to fetch commits", Tone::Dim));
            push_str_chars(&mut title, "Changelog");
        },
        StageFetchState::Loading => {
            push_line(&mut out, single("fetching commits…", Tone::Yellow));
            push_str_chars(&mut title, "Changelog");
        },
        StageFetchState::Failed(e) => {
            let mut m = String::new();
            push_str_chars(&mut m, "stage fetch failed: ");
            push_str_chars(&mut m, e.as_str());
            push_line(&mut out, one(m, Tone::Red));
            push_str_chars(&mut title, "Changelog");
        },
        StageFetchState::Ready { commits, commits_error, .. } => {
            match commits_error {
                Some(e) => {
                    let mut m = String::new();
                    push_str_chars(&mut m, "commit fetch error: ");
                    push_str_chars(&mut m, e.as_str());
                    push_line(&mut out, one(m, Tone::Red));
                },
                None => {
                    if commits.len() == 0 {
                        push_line(&mut out, single("no commits between stages", Tone::Dim));
                    } else {
                        let mut i: usize = 0;
                        while i < commits.len()
                            invariant
                                i <= commits@.len(),
                                line_views(out@) == Seq::new(
                                    i as nat,
                                    |k: int| commit_spans_spec(commits@[k]),
                                ),
                            decreases commits@.len() - i,
                        {
                            let c = &commits[i];
                            let l = vec![
                                span("- ", Tone::Plain),
                                Span { text: c.short_sha(), tone: Tone::Yellow },
                                span(" ", Tone::Plain),
                                Span { text: c.first_line(), tone: Tone::Plain },
                            ];
                            assert(span_views(l@) =~= commit_spans_spec(commits@[i as int]));
                            push_line(&mut out, l);
                            assert(line_views(out@) =~= Seq::new(
                                (i + 1) as nat,
                                |k: int| commit_spans_spec(commits@[k]),
                            ));
                            i = i + 1;
                        }
                    }
                },
            }
            push_str_chars(&mut title, "Commits (");
            push_decimal(&mut title, commits.len());
            push_str_chars(&mut title, ") (PgUp/PgDn to scroll)");
        },
    }
    proof {
        let expect = changelog_pane_spec(pv.stage_state);
        assert(line_views(out@) =~~= expect.0);
    }
    (out, title)
}

/// The row of hints under the panes when no status is shown.
pub open spec fn key_hints_spec(tab: Tab) -> Seq<(Seq<char>, Tone)> {
    seq![
        ("Tab"@, Tone::Yellow),
        (": switch  "@, Tone::Plain),
        ("j/k"@, Tone::Yellow),
        (": nav  "@, Tone::Plain),
    ] + match tab {
        Tab::Projects => seq![
            ("r"@, Tone::Yellow),
            (": refresh  "@, Tone::Plain),
            ("PgUp/PgDn"@, Tone::Yellow),
            (": scroll  "@, Tone::Plain),
        ],
        Tab::Recipes => seq![("n"@, Tone::Yellow), (": new recipe  "@, Tone::Plain)],
        Tab::Accounts => seq![("l/Enter"@, Tone::Yellow), (": assume role  "@, Tone::Plain)],
    } + seq![("q"@, Tone::Yellow), (": quit"@, Tone::Plain)]
}

/// The key hints for a tab.
pub fn key_hints(tab: Tab) -> (r: Vec<Span>)
    ensures
        span_views(r@) == key_hints_spec(tab),
{
    let mut v = vec![
        span("Tab", Tone::Yellow),
        span(": switch  ", Tone::Plain),
        span("j/k", Tone::Yellow),
        span(": nav  ", Tone::Plain),
    ];
    match tab {
        Tab::Projects => {
            v.push(span("r", Tone::Yellow));
            v.push(span(": refresh  ", Tone::Plain));
            v.push(span("PgUp/PgDn", Tone::Yellow));
            v.push(span(": scroll  ", Tone::Plain));
        },
        Tab::Recipes => {
            v.push(span("n", Tone::Yellow));
            v.push(span(": new recipe  ", Tone::Plain));
        },
        Tab::Accounts => {
            v.push(span("l/Enter", Tone::Yellow));
            v.push(span(": assume role  ", Tone::Plain));
        },
    }
    v.push(span("q", Tone::Yellow));
    v.push(span(": quit", Tone::Plain));
    assert(span_views(v@) =~= key_hints_spec(tab));
    v
}

/// The status panel: its title (` Error ` or ` Status `), each line of the
/// message in red or green, and a row with the clear and quit keys.
pub open spec fn status_panel_spec(status: Seq<char>) -> (Seq<char>, Seq<Seq<(Seq<char>, Tone)>>) {
    let is_error = status_is_error_spec(status);
    let tone = if is_error {
        Tone::Red
    } else {
        Tone::Green
    };
    (
        if is_error {
            " Error "@
        } else {
            " Status "@
        },
        lines(status).map_values(|l: Seq<char>| seq![(l, tone)]) + seq![
            seq![
                (Seq::<char>::empty(), Tone::Plain),
                ("c"@, Tone::Yellow),
                (": clear  "@, Tone::Plain),
                ("q"@, Tone::Yellow),
                (": quit"@, Tone::Plain),
            ],
        ],
    )
}

/// The status panel for a message (see [`status_panel_spec`]).
pub fn status_panel(status: &str) -> (r: (String, Vec<Vec<Span>>))
    ensures
        (r.0@, line_views(r.1@)) == status_panel_spec(status@),
{
    let is_error = status_is_error(status);
    let tone = if is_error {
        Tone::Red
    } else {
        Tone::Green
    };
    let mut title = String::new();
    if is_error {
        push_str_chars(&mut title, " Error ");
    } else {
        push_str_chars(&mut title, " Status ");
    }
    let cs = chars_of(status);
    let mut out: Vec<Vec<Span>> = Vec::new();
    let ghost mut done: Seq<Seq<char>> = seq![];
    let mut i: usize = 0;
    assert(lines(cs@) =~= done + lines_from(cs@, 0));
    while i < cs.len()
        invariant
            i <= cs@.len(),
            cs@ == status@,
            lines(cs@) == done + lines_from(cs@, i as int),
            line_views(out@) == done.map_values(|l: Seq<char>| seq![(l, tone)]),
        decreases cs@.len() - i,
    {
        let (line, next) = next_line(&cs, i);
        let text = string_of(&line, 0, line.len());
        assert(line@.subrange(0, line@.len() as int) =~= line@);
        push_line(&mut out, one(text, tone));
        proof {
            assert(done + lines_from(cs@, i as int) =~= done.push(line@) + lines_from(
                cs@,
                next as int,
            ));
            assert(done.push(line@).map_values(|l: Seq<char>| seq![(l, tone)]) =~= done.map_values(
                |l: Seq<char>| seq![(l, tone)],
            ).push(seq![(line@, tone)]));
            done = done.push(line@);
        }
        i = next;
    }
    proof {
        assert(lines_from(cs@, i as int) == Seq::<Seq<char>>::empty());
        assert(done + Seq::<Seq<char>>::empty() =~= done);
    }
    let hint = vec![
        Span { text: String::new(), tone: Tone::Plain },
        span("c", Tone::Yellow),
        span(": clear  ", Tone::Plain),
        span("q", Tone::Yellow),
        span(": quit", Tone::Plain),
    ];
    proof {
        reveal_strlit("");
    }
    assert(span_views(hint@) =~= seq![
        (Seq::<char>::empty(), Tone::Plain),
        ("c"@, Tone::Yellow),
        (": clear  "@, Tone::Plain),
        ("q"@, Tone::Yellow),
        (": quit"@, Tone::Plain),
    ]);
    push_line(&mut out, hint);
    proof {
        let expect = status_panel_spec(status@);
        assert(line_views(out@) =~~= expect.1);
    }
    (title, out)
}

/// The title of a list pane: `KIND (N)`.
pub fn list_title(kind: &str, n: usize) -> (r: String)
    ensures
        r@ == kind@ + " ("@ + decimal(n as nat) + ")"@,
{
    let mut r = String::new();
    push_str_chars(&mut r, kind);
    push_str_chars(&mut r, " (");
    push_decimal(&mut r, n);
    push_str_chars(&mut r, ")");
    r
}

/// The banner of the accounts tab: the account of the active session, or
/// a hint when there is none.
pub open spec fn session_banner_spec(current: Option<Seq<char>>) -> Seq<(Seq<char>, Tone)> {
    match current {
        Some(name) => seq![("current: "@, Tone::Plain), (name, Tone::GreenBold)],
        None => seq![("no active session (press l/Enter to assume a role)"@, Tone::Dim)],
    }
}

/// The banner of the accounts tab (see [`session_banner_spec`]).
pub fn session_banner(current: Option<&str>) -> (r: Vec<Span>)
    ensures
        span_views(r@) == session_banner_spec(
            match current {
                Some(c) => Some(c@),
                None => None,
            },
        ),
{
    let v = match current {
        Some(name) => vec![span("current: ", Tone::Plain), span(name, Tone::GreenBold)],
        None => single("no active session (press l/Enter to assume a role)", Tone::Dim),
    };
    assert(span_views(v@) =~= session_banner_spec(
        match current {
            Some(c) => Some(c@),
            None => None,
        },
    ));
    v
}

/// The list item of an account: its name, `(active)` when it is the
/// session's, and its description when it has one.
pub open spec fn account_item_spec(a: Account, current: Option<Seq<char>>) -> Seq<(Seq<char>, Tone)> {
    seq![(a.name@, Tone::Plain)] + (if current == Some(a.name@) {
        seq![("  (active)"@, Tone::Green)]
    } else {
        seq![]
    }) + (if a.description@.len() > 0 {
        seq![("  — "@ + a.description@, Tone::Dim)]
    } else {
        seq![]
    })
}

/// The list item of an account (see [`account_item_spec`]).
pub fn account_item(a: &Account, current: Option<&str>) -> (r: Vec<Span>)
    ensures
        span_views(r@) == account_item_spec(
            *a,
            match current {
                Some(c) => Some(c@),
                None => None,
            },
        ),
{
    let ghost cur = match current {
        Some(c) => Some(c@),
        None => None,
    };
    let mut v = vec![span(a.name.as_str(), Tone::Plain)];
    let active = match current {
        Some(c) => chars_eq(&chars_of(c), &chars_of(a.name.as_str())),
        None => false,
    };
    if active {
        v.push(span("  (active)", Tone::Green));
    }
    if chars_of(a.description.as_str()).len() > 0 {
        let mut d = String::new();
        push_str_chars(&mut d, "  — ");
        push_str_chars(&mut d, a.description.as_str());
        v.push(Span { text: d, tone: Tone::Dim });
    }
    assert(span_views(v@) =~= account_item_spec(*a, cur));
    v
}

/// The detail pane of a recipe: its name, description and numbered steps;
/// a hint when no recipe is selected.
pub open spec fn recipe_detail_spec(r: Option<Recipe>) -> Seq<Seq<(Seq<char>, Tone)>> {
    match r {
        Some(r) => seq![
            seq![("name:        "@, Tone::Bold), (r.name@, Tone::Plain)],
            seq![("description: "@, Tone::Bold), (r.description@, Tone::Plain)],
            seq![(Seq::<char>::empty(), Tone::Plain)],
            seq![("Steps"@, Tone::Bold)],
        ] + Seq::new(
            r.steps@.len(),
            |i: int| seq![("  "@ + decimal((i + 1) as nat) + ". "@ + r.steps@[i].project@, Tone::Plain)],
        ),
        None => seq![
            seq![("No recipes. Create one with `aws-utils recipe create <name>`."@, Tone::Plain)],
        ],
    }
}

/// The detail pane of a recipe (see [`recipe_detail_spec`]).
pub fn recipe_detail(r: Option<&Recipe>) -> (out: Vec<Vec<Span>>)
    ensures
        line_views(out@) == recipe_detail_spec(
            match r {
                Some(x) => Some(*x),
                None => None,
            },
        ),
{
    let mut out: Vec<Vec<Span>> = Vec::new();
    match r {
        None => {
            push_line(
                &mut out,
                single("No recipes. Create one with `aws-utils recipe create <name>`.", Tone::Plain),
            );
            assert(line_views(out@) =~~= recipe_detail_spec(None));
        },
        Some(rec) => {
            push_line(&mut out, labeled("name:        ", rec.name.as_str()));
            push_line(&mut out, labeled("description: ", rec.description.as_str()));
            push_line(&mut out, one(String::new(), Tone::Plain));
            push_line(&mut out, single("Steps", Tone::Bold));
            let ghost head = line_views(out@);
            let mut i: usize = 0;
            while i < rec.steps.len()
                invariant
                    i <= rec.steps@.len(),
                    line_views(out@) == head + Seq::new(
                        i as nat,
                        |k: int| seq![("  "@ + decimal((k + 1) as nat) + ". "@ + rec.steps@[k].project@, Tone::Plain)],
                    ),
                decreases rec.steps@.len() - i,
            {
                let mut t = String::new();
                push_str_chars(&mut t, "  ");
                push_decimal(&mut t, i + 1);
                push_str_chars(&mut t, ". ");
                push_str_chars(&mut t, rec.steps[i].project.as_str());
                push_line(&mut out, one(t, Tone::Plain));
                assert(line_views(out@) =~= head + Seq::new(
                    (i + 1) as nat,
                    |k: int| seq![("  "@ + decimal((k + 1) as nat) + ". "@ + rec.steps@[k].project@, Tone::Plain)],
                ));
                i = i + 1;
            }
            assert(line_views(out@) =~~= recipe_detail_spec(Some(*rec)));
        },
    }
    out
}

} // verus!
