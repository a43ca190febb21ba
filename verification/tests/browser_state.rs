use aws_utils::config::{Account, ProjectConfig, RegistryEntry};
use aws_utils::pipeline::StageRevision;
use aws_utils::recipe::Recipe;
use aws_utils::tui::{
    handle_key, is_quit, load_project_config, meta_height, status_height, status_is_error, Action,
    AppState, Key, ProjectView, StageFetchResult, StageFetchState, Tab,
};

fn entry(name: &str) -> RegistryEntry {
    RegistryEntry {
        name: name.to_string(),
        path: format!("/w/{name}"),
        repo: "o/r".to_string(),
        config: ".aws-utils.toml".to_string(),
    }
}

fn state(n_projects: usize, n_accounts: usize) -> AppState {
    let projects = (0..n_projects)
        .map(|i| ProjectView::new(entry(&format!("p{i}")), Some(Ok(ProjectConfig::template("pipe")))))
        .collect();
    let accounts = (0..n_accounts)
        .map(|i| Account { name: format!("a{i}"), description: String::new() })
        .collect();
    AppState::new(projects, Vec::<Recipe>::new(), accounts)
}

fn revision(stage: &str) -> StageRevision {
    StageRevision {
        stage: stage.to_string(),
        execution_id: "e".to_string(),
        revision_id: "r".to_string(),
        revision_url: None,
        revision_summary: None,
    }
}

#[test]
fn tabs_cycle_and_index() {
    let mut s = state(0, 0);
    assert_eq!(s.tab, Tab::Projects);
    s.next_tab();
    s.next_tab();
    assert_eq!(s.tab, Tab::Accounts);
    assert_eq!(s.tab.index(), 2);
    s.next_tab();
    assert_eq!(s.tab, Tab::Projects);
    s.prev_tab();
    assert_eq!(s.tab, Tab::Accounts);
    s.next_tab();
    assert_eq!(s.tab, Tab::Projects);
    assert_eq!(Tab::titles(), ["Projects", "Recipes", "Accounts"]);
}

#[test]
fn selection_wraps_and_moves_undo() {
    let mut s = state(3, 0);
    assert_eq!(s.projects_list, Some(0));
    assert_eq!(s.recipes_list, None);
    s.move_up();
    assert_eq!(s.projects_list, Some(2));
    s.move_down();
    assert_eq!(s.projects_list, Some(0));
    s.move_down();
    s.move_down();
    s.move_down();
    assert_eq!(s.projects_list, Some(0));
    s.tab = Tab::Recipes;
    s.move_down();
    assert_eq!(s.recipes_list, None);
}

#[test]
fn keys_drive_the_state() {
    let mut s = state(2, 1);
    assert_eq!(handle_key(&mut s, Key::Char('j')), Action::Nothing);
    assert_eq!(s.projects_list, Some(1));
    assert_eq!(handle_key(&mut s, Key::PageDown), Action::ScrollChangelog(5));
    assert_eq!(handle_key(&mut s, Key::Char('r')), Action::StageFetch);
    assert_eq!(handle_key(&mut s, Key::Char('c')), Action::Nothing);
    s.status = Some("x".into());
    assert_eq!(handle_key(&mut s, Key::Char('c')), Action::ClearStatus);
    assert_eq!(handle_key(&mut s, Key::Char('3')), Action::Nothing);
    assert_eq!(s.tab, Tab::Accounts);
    assert_eq!(handle_key(&mut s, Key::Enter), Action::AssumeSelected);
    assert_eq!(handle_key(&mut s, Key::Char('r')), Action::Nothing);
    assert_eq!(s.selected_account_name(), Some("a0"));
    assert!(is_quit(Key::Char('q'), false));
    assert!(is_quit(Key::Esc, false));
    assert!(is_quit(Key::Char('c'), true));
    assert!(!is_quit(Key::Char('c'), false));
}

#[test]
fn stage_fetch_lifecycle() {
    let mut s = state(2, 0);
    let req = s.start_stage_fetch().unwrap();
    assert_eq!(req.project_name, "p0");
    assert_eq!(req.region, "eu-central-1");
    assert_eq!(req.from_stage, "DeployPreProd");
    assert!(matches!(s.projects[0].stage_state, StageFetchState::Loading));
    s.apply_stage_fetch(StageFetchResult {
        project_name: "p0".into(),
        state: StageFetchState::Ready { from: revision("a"), to: revision("b"), commits: vec![], commits_error: None },
    });
    assert!(matches!(s.projects[0].stage_state, StageFetchState::Ready { .. }));
    assert!(matches!(s.projects[1].stage_state, StageFetchState::Idle));
    s.apply_stage_fetch(StageFetchResult { project_name: "zz".into(), state: StageFetchState::Failed("x".into()) });
    assert!(matches!(s.projects[1].stage_state, StageFetchState::Idle));
    let mut missing = AppState::new(vec![ProjectView::new(entry("m"), None)], vec![], vec![]);
    assert!(missing.start_stage_fetch().is_none());
    match &missing.projects[0].stage_state {
        StageFetchState::Failed(m) => assert_eq!(m, "project config missing"),
        _ => panic!("expected failure"),
    }
    assert_eq!(missing.projects[0].config_error.as_deref(), Some("/w/m/.aws-utils.toml not found"));
    s.scroll_changelog(-5);
    assert_eq!(s.projects[0].changelog_scroll, 0);
    s.scroll_changelog(7);
    assert_eq!(s.projects[0].changelog_scroll, 7);
}

#[test]
fn pane_sizes() {
    assert_eq!(status_height(None, 80), 1);
    assert_eq!(status_height(Some("short"), 80), 4);
    assert_eq!(status_height(Some("a\nb\nc"), 80), 6);
    assert_eq!(status_height(Some(&"x".repeat(50)), 12), 8);
    assert_eq!(status_height(Some(&"line\n".repeat(20)), 80), 10);
    let with_cfg = ProjectView::new(entry("a"), Some(Ok(ProjectConfig::template("p"))));
    assert_eq!(meta_height(&with_cfg), 15);
    let broken = ProjectView::new(entry("b"), Some(Err("bad toml".into())));
    assert_eq!(meta_height(&broken), 9);
    let (c, e) = load_project_config("/x", None);
    assert!(c.is_none());
    assert_eq!(e.as_deref(), Some("/x not found"));
    assert!(status_is_error("assume FAILED: x"));
    assert!(status_is_error("git Exited 1"));
    assert!(!status_is_error("assumed into prod"));
}
