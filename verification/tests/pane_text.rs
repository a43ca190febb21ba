use aws_utils::changelog::{Commit, CommitDetails};
use aws_utils::config::{Account, ProjectConfig, RegistryEntry};
use aws_utils::pipeline::StageRevision;
use aws_utils::recipe::{Recipe, RecipeStep};
use aws_utils::tui::{ProjectView, StageFetchState, Tab};
use aws_utils::views::{
    account_item, changelog_pane, key_hints, list_title, project_detail, recipe_detail,
    session_banner, status_panel, Span, Tone,
};

fn flat(line: &[Span]) -> Vec<(String, Tone)> {
    line.iter().map(|s| (s.text.clone(), s.tone)).collect()
}

fn texts(lines: &[Vec<Span>]) -> Vec<String> {
    lines.iter().map(|l| l.iter().map(|s| s.text.as_str()).collect::<String>()).collect()
}

fn view(config: Option<Result<ProjectConfig, String>>) -> ProjectView {
    ProjectView::new(
        RegistryEntry {
            name: "web".into(),
            path: "/w/web".into(),
            repo: "o/web".into(),
            config: ".aws-utils.toml".into(),
        },
        config,
    )
}

fn rev(stage: &str, id: &str) -> StageRevision {
    StageRevision {
        stage: stage.into(),
        execution_id: "e".into(),
        revision_id: id.into(),
        revision_url: None,
        revision_summary: Some("msg".into()),
    }
}

#[test]
fn detail_pane_lines() {
    let mut cfg = ProjectConfig::template("pipe");
    cfg.jira.prefixes = vec!["APP".into(), "WEB".into()];
    let mut pv = view(Some(Ok(cfg)));
    pv.stage_state = StageFetchState::Ready {
        from: rev("Pre", "abcdef123"),
        to: rev("Prod", "abcdef123"),
        commits: vec![],
        commits_error: None,
    };
    let lines = project_detail(&pv);
    assert_eq!(
        texts(&lines),
        vec![
            "name:  web",
            "repo:  o/web",
            "path:  /w/web",
            "",
            "pipeline: pipe",
            "stages:   DeployPreProd → DeployProd",
            "region:   eu-central-1",
            "jira:     APP, WEB",
            "",
            "Stage state",
            "  Pre = abcdef1 msg",
            "  Prod = abcdef1 msg",
            "  → stages at same revision",
        ]
    );
    assert_eq!(flat(&lines[0]), vec![("name:  ".to_string(), Tone::Bold), ("web".to_string(), Tone::Plain)]);
    let broken = view(Some(Err("bad toml".into())));
    let lines = project_detail(&broken);
    assert_eq!(texts(&lines).last().unwrap(), "config error: bad toml");
    assert_eq!(lines.last().unwrap()[0].tone, Tone::Red);
}

#[test]
fn changelog_pane_states() {
    let mut pv = view(None);
    let (lines, title) = changelog_pane(&pv);
    assert_eq!(title, "Changelog");
    assert_eq!(texts(&lines), vec!["press `r` to fetch commits"]);
    pv.stage_state = StageFetchState::Failed("boom".into());
    assert_eq!(texts(&changelog_pane(&pv).0), vec!["stage fetch failed: boom"]);
    pv.stage_state = StageFetchState::Ready {
        from: rev("a", "1"),
        to: rev("b", "2"),
        commits: vec![Commit {
            sha: "0123456789".into(),
            commit: CommitDetails { message: "feat: x\nbody".into(), author: None },
            author: None,
            html_url: None,
        }],
        commits_error: None,
    };
    let (lines, title) = changelog_pane(&pv);
    assert_eq!(title, "Commits (1) (PgUp/PgDn to scroll)");
    assert_eq!(texts(&lines), vec!["- 0123456 feat: x"]);
    assert_eq!(lines[0][1].tone, Tone::Yellow);
}

#[test]
fn hints_status_and_lists() {
    let h: String = key_hints(Tab::Recipes).iter().map(|s| s.text.as_str()).collect();
    assert_eq!(h, "Tab: switch  j/k: nav  n: new recipe  q: quit");
    let (title, lines) = status_panel("assume failed: x\nline two");
    assert_eq!(title, " Error ");
    assert_eq!(texts(&lines), vec!["assume failed: x", "line two", "c: clear  q: quit"]);
    assert_eq!(lines[0][0].tone, Tone::Red);
    let (title, _) = status_panel("assumed into prod");
    assert_eq!(title, " Status ");
    assert_eq!(list_title("Projects", 12), "Projects (12)");
    assert_eq!(
        flat(&session_banner(Some("prod"))),
        vec![("current: ".to_string(), Tone::Plain), ("prod".to_string(), Tone::GreenBold)]
    );
    let a = Account { name: "prod".into(), description: "Production".into() };
    let item: String = account_item(&a, Some("prod")).iter().map(|s| s.text.as_str()).collect();
    assert_eq!(item, "prod  (active)  — Production");
    let r = Recipe {
        name: "all".into(),
        description: "d".into(),
        steps: vec![RecipeStep { project: "a".into() }, RecipeStep { project: "b".into() }],
    };
    assert_eq!(
        texts(&recipe_detail(Some(&r))),
        vec!["name:        all", "description: d", "", "Steps", "  1. a", "  2. b"]
    );
    assert_eq!(
        texts(&recipe_detail(None)),
        vec!["No recipes. Create one with `aws-utils recipe create <name>`."]
    );
}
