use aws_utils::remote::{origin_repo, parse_git_remote, project_name, validate};

#[test]
fn parses_ssh() {
    assert_eq!(
        parse_git_remote("git@github.com:mindtwo/foo.git").as_deref(),
        Some("mindtwo/foo")
    );
}

#[test]
fn parses_https() {
    assert_eq!(
        parse_git_remote("https://github.com/mindtwo/foo.git").as_deref(),
        Some("mindtwo/foo")
    );
}

#[test]
fn rejects_garbage() {
    assert!(parse_git_remote("not-a-url").is_none());
}

#[test]
fn remote_edge_cases() {
    assert_eq!(
        parse_git_remote("  http://host/o/n/extra.git.git \n").as_deref(),
        Some("o/n")
    );
    assert!(parse_git_remote("git@github.com").is_none());
    assert!(parse_git_remote("https://github.com").is_none());
    assert!(parse_git_remote("https://github.com//n").is_none());
    assert_eq!(validate("a/b/c").as_deref(), Some("a/b"));
    assert!(validate("a").is_none());
    assert!(validate("a/").is_none());
}

#[test]
fn project_name_and_origin() {
    assert_eq!(project_name(Some("x"), "/a/b").unwrap(), "x");
    assert_eq!(project_name(None, "/a/b/").unwrap(), "b");
    assert_eq!(
        project_name(None, "/").unwrap_err(),
        "could not derive project name from /"
    );
    assert_eq!(
        origin_repo(true, " git@h:o/n.git\n", "/w").unwrap(),
        "o/n"
    );
    assert_eq!(
        origin_repo(false, "", "/w").unwrap_err(),
        "no `origin` git remote in /w — pass --repo owner/name"
    );
    assert_eq!(
        origin_repo(true, "file:///x\n", "/w").unwrap_err(),
        "could not parse owner/name from git remote: file:///x"
    );
}

#[test]
fn parsed_slugs_are_accepted_as_repo_names() {
    for url in [
        "git@github.com:mindtwo/foo.git",
        "https://github.com/mindtwo/foo/tree/main",
        "  http://host/a/b.git.git  ",
    ] {
        let slug = parse_git_remote(url).unwrap();
        assert!(aws_utils::error::parse_repo(&slug).is_ok(), "{slug}");
    }
}
