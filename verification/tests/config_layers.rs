use aws_utils::config::{
    config_dir_in, default_config_filename, global_config_file_in, is_toml_file, projects_dir_in,
    recipes_dir_in, toml_file_in, Account, GlobalConfig, JiraGlobal, Overrides, ProjectConfig,
    ProjectRegistry, RegistryEntry, Resolved, DEFAULT_REGION,
};
use aws_utils::error::AppError;
use aws_utils::paths::{component_count, file_name, join, starts_with};
use aws_utils::recipe::{asks_to_continue, release_summary, steps_label, Recipe, RecipeStep};

fn entry(name: &str, path: &str) -> RegistryEntry {
    RegistryEntry {
        name: name.to_string(),
        path: path.to_string(),
        repo: "o/r".to_string(),
        config: ".aws-utils.toml".to_string(),
    }
}

#[test]
fn paths_join_like_std() {
    assert_eq!(join("/a", "b"), "/a/b");
    assert_eq!(join("/a/", "b"), "/a/b");
    assert_eq!(join("", "b"), "b");
    assert_eq!(join("/a", "/b"), "/b");
    assert_eq!(config_dir_in("/home/u/.config"), "/home/u/.config/aws-utils");
    assert_eq!(global_config_file_in("/c"), "/c/aws-utils/config.toml");
    assert_eq!(projects_dir_in("/c"), "/c/aws-utils/projects");
    assert_eq!(recipes_dir_in("/c"), "/c/aws-utils/recipes");
    assert_eq!(toml_file_in("/p", "web"), "/p/web.toml");
    assert_eq!(ProjectRegistry::entry_path_in("/p", "web"), "/p/web.toml");
    assert_eq!(Recipe::file_path_in("/r", "all"), "/r/all.toml");
    assert_eq!(default_config_filename(), ".aws-utils.toml");
    assert_eq!(entry("x", "/w/x").project_config_path(), "/w/x/.aws-utils.toml");
}

#[test]
fn components_compare_like_std() {
    assert!(starts_with("/a/b/c", "/a/b"));
    assert!(starts_with("/a/b", "/a/b/"));
    assert!(!starts_with("/a/bc", "/a/b"));
    assert!(starts_with("/a//./b", "/a/b"));
    assert!(!starts_with("a/b", "/a"));
    assert_eq!(component_count("/a/b/"), 3);
    assert_eq!(component_count("./a"), 2);
    assert_eq!(component_count(""), 0);
    assert_eq!(file_name("/a/b.toml").as_deref(), Some("b.toml"));
    assert_eq!(file_name("/a/.."), None);
    assert!(is_toml_file("web.toml"));
    assert!(is_toml_file("..toml"));
    assert!(!is_toml_file(".toml"));
    assert!(!is_toml_file("web.toml.bak"));
    assert!(!is_toml_file("toml"));
}

#[test]
fn config_dir_is_under_the_os_directory() {
    match aws_utils::config::_touch_paths() {
        Ok(p) => assert!(p.ends_with("/aws-utils")),
        Err(e) => assert_eq!(e, "could not resolve OS config dir"),
    }
    if let Ok(p) = aws_utils::config::global_config_file() {
        assert!(p.ends_with("/aws-utils/config.toml"));
    }
}

#[test]
fn closest_registered_ancestor_wins() {
    let entries = vec![
        (entry("root", "/w"), "/w".to_string()),
        (entry("deep", "/w/app"), "/w/app".to_string()),
        (entry("other", "/x"), "/x".to_string()),
        (entry("deep2", "/w/./app/"), "/w/app".to_string()),
    ];
    let found = ProjectRegistry::find_for_cwd("/w/app/src", entries).unwrap();
    assert_eq!(found.name, "deep2");
    let none = ProjectRegistry::find_for_cwd("/elsewhere", vec![(entry("a", "/w"), "/w".to_string())]);
    match none {
        Err(AppError::ProjectNotRegistered(p)) => assert_eq!(p, "/elsewhere"),
        _ => panic!("expected ProjectNotRegistered"),
    }
}

#[test]
fn registry_and_recipes_sort_stably() {
    let sorted = ProjectRegistry::sort_entries(vec![entry("b", "/1"), entry("a", "/2"), entry("b", "/3")]);
    let got: Vec<(&str, &str)> = sorted.iter().map(|e| (e.name.as_str(), e.path.as_str())).collect();
    assert_eq!(got, vec![("a", "/2"), ("b", "/1"), ("b", "/3")]);
    let r = Recipe::sort(vec![
        Recipe { name: "z".into(), description: String::new(), steps: vec![] },
        Recipe { name: "m".into(), description: String::new(), steps: vec![RecipeStep { project: "p".into() }] },
    ]);
    assert_eq!(r[0].name, "m");
    assert_eq!(steps_label(1), "1 step");
    assert_eq!(steps_label(3), "3 steps");
    assert_eq!(steps_label(12), "12 steps");
    assert_eq!(release_summary("all"), "Released via recipe `all`");
    assert!(asks_to_continue(0, 2));
    assert!(!asks_to_continue(1, 2));
}

#[test]
fn template_and_merge_precedence() {
    let t = ProjectConfig::template("web");
    assert_eq!(t.pipeline, "web");
    assert_eq!(t.region.as_deref(), Some(DEFAULT_REGION));
    assert_eq!(t.from_stage, "DeployPreProd");
    assert_eq!(t.to_stage, "DeployProd");
    let mut project = ProjectConfig::template("pipe");
    project.region = None;
    let plain = Resolved::merge(entry("w", "/w"), project.clone(), &Overrides::default(), None);
    assert_eq!(plain.region, "eu-central-1");
    assert_eq!(plain.from_stage, "DeployPreProd");
    assert_eq!(plain.pipeline, "pipe");
    assert_eq!(plain.project_config_path, "/w/.aws-utils.toml");
    let global = Resolved::merge(entry("w", "/w"), project.clone(), &Overrides::default(), Some("us-east-1".into()));
    assert_eq!(global.region, "us-east-1");
    let mut over = Overrides::default();
    over.region = Some("ap-south-1".into());
    over.to_stage = Some("Live".into());
    let o = Resolved::merge(entry("w", "/w"), ProjectConfig::template("pipe"), &over, Some("us-east-1".into()));
    assert_eq!(o.region, "ap-south-1");
    assert_eq!(o.to_stage, "Live");
    assert_eq!(o.from_stage, "DeployPreProd");
}

#[test]
fn accounts_add_and_remove() {
    let mut g = GlobalConfig::default();
    g.add_account("prod".into(), Some("Production".into())).unwrap();
    g.add_account("dev".into(), None).unwrap();
    assert_eq!(
        g.add_account("prod".into(), None).unwrap_err(),
        "account 'prod' is already configured"
    );
    assert_eq!(g.accounts.len(), 2);
    assert_eq!(g.accounts[1].description, "");
    g.remove_account("prod").unwrap();
    assert_eq!(g.accounts.len(), 1);
    assert_eq!(g.accounts[0].name, "dev");
    assert_eq!(g.remove_account("prod").unwrap_err(), "account 'prod' not found");
    let before: Vec<String> = g.accounts.iter().map(|a: &Account| a.name.clone()).collect();
    g.add_account("tmp".into(), None).unwrap();
    g.remove_account("tmp").unwrap();
    let after: Vec<String> = g.accounts.iter().map(|a| a.name.clone()).collect();
    assert_eq!(before, after);
}

#[test]
fn credentials_do_not_override_environment() {
    let j = JiraGlobal {
        base_url: Some("https://x".into()),
        email: Some("e@x".into()),
        api_token: None,
    };
    assert_eq!(
        j.env_to_set(false, true, false),
        vec![("JIRA_BASE_URL".to_string(), "https://x".to_string())]
    );
    assert!(j.env_to_set(true, true, true).is_empty());
}

#[test]
fn recipes_live_next_to_projects() {
    let base = "/home/u/.config";
    assert_eq!(recipes_dir_in(base), "/home/u/.config/aws-utils/recipes");
    assert_eq!(projects_dir_in(base), "/home/u/.config/aws-utils/projects");
    assert_eq!(recipes_dir_in("/c/"), "/c/aws-utils/recipes");
}
