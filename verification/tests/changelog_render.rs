use aws_utils::changelog::{
    format_line, parse_commit, parse_conventional, render, render_with_date, ChangelogInput,
    Commit, CommitDetails, Group,
};
use aws_utils::jira::Ticket;

fn commit(sha: &str, msg: &str) -> Commit {
    Commit {
        sha: sha.to_string(),
        commit: CommitDetails {
            message: msg.to_string(),
            author: None,
        },
        author: None,
        html_url: None,
    }
}

#[test]
fn renders_empty_input() {
    let r = render(&ChangelogInput {
        project: "demo",
        pipeline: "demo-pipeline",
        from_stage: "Preprod",
        to_stage: "Prod",
        from_sha: "aaaaaaa1234",
        to_sha: "bbbbbbb5678",
        commits: &[],
        tickets: &[],
    })
    .unwrap();
    assert!(r.contains("# Release"));
    assert!(r.contains("No JIRA tickets"));
    assert!(r.contains("No commits"));
}

#[test]
fn groups_by_conventional_type() {
    let commits = vec![
        commit("aaaaaaa", "feat: add foo"),
        commit("bbbbbbb", "fix(api): handle null"),
        commit("ccccccc", "random commit without prefix"),
        commit("ddddddd", "chore: bump deps"),
        commit("eeeeeee", "feat(tui)!: rewrite event loop"),
        commit("fffffff", "wip thing"),
    ];
    let r = render(&ChangelogInput {
        project: "demo",
        pipeline: "p",
        from_stage: "a",
        to_stage: "b",
        from_sha: "0",
        to_sha: "1",
        commits: &commits,
        tickets: &[],
    })
    .unwrap();
    let feat = r.find("### Features").unwrap();
    let fix = r.find("### Bug Fixes").unwrap();
    let chore = r.find("### Chores").unwrap();
    let misc = r.find("### Miscellaneous").unwrap();
    assert!(feat < fix && fix < chore && chore < misc);
    assert!(r.contains("**api**: handle null"));
    assert!(r.contains("**BREAKING** **tui**: rewrite event loop"));
    assert!(r.contains("random commit without prefix"));
    assert!(r.contains("wip thing"));
}

#[test]
fn unknown_conventional_type_goes_to_misc() {
    let commits = vec![commit("aaaaaaa", "noop: did nothing")];
    let r = render(&ChangelogInput {
        project: "demo",
        pipeline: "p",
        from_stage: "a",
        to_stage: "b",
        from_sha: "0",
        to_sha: "1",
        commits: &commits,
        tickets: &[],
    })
    .unwrap();
    assert!(r.contains("### Miscellaneous"));
    assert!(r.contains("noop: did nothing"));
}

#[test]
fn full_rendering_with_date() {
    let commits = vec![
        commit("1234567890", "Fix: upper-case type\n\nbody"),
        commit("abcdef0", "docs(readme): typo"),
        commit("0000000", "feat: second feature"),
    ];
    let tickets = vec![Ticket {
        key: "APP-1".to_string(),
        summary: "Do it".to_string(),
        status: None,
        assignee: Some("Ann".to_string()),
        url: "https://x/browse/APP-1".to_string(),
    }];
    let r = render_with_date(
        &ChangelogInput {
            project: "demo",
            pipeline: "pipe",
            from_stage: "Pre",
            to_stage: "Prod",
            from_sha: "fffffffff",
            to_sha: "eeeeeeeee",
            commits: &commits,
            tickets: &tickets,
        },
        "2024-05-01",
    );
    let expected = "# Release 2024-05-01 — demo\n\n\
Pipeline: `pipe`  \nStages: `Pre` → `Prod`  \nCommits: `eeeeeee` → `fffffff`\n\n\
## Tickets\n\n\
- [APP-1](https://x/browse/APP-1) — Do it _(status: ?, assignee: Ann)_\n\n\
## Commits\n\n\
### Features\n\n- `0000000` second feature\n\n\
### Bug Fixes\n\n- `1234567` upper-case type\n\n\
### Documentation\n\n- `abcdef0` **readme**: typo\n\n";
    assert_eq!(r, expected);
}

#[test]
fn conventional_subject_parts() {
    let c = parse_conventional("feat(api)!:   add x").unwrap();
    assert_eq!(c.kind, "feat");
    assert_eq!(c.scope.as_deref(), Some("api"));
    assert!(c.breaking);
    assert_eq!(c.subject, "add x");
    let blank = parse_conventional("fix:   ").unwrap();
    assert_eq!(blank.subject, " ");
    assert!(parse_conventional("fix:").is_none());
    assert!(parse_conventional("fix(): x").is_none());
    assert!(parse_conventional("fix(a)b: x").is_none());
    assert!(parse_conventional("1fix: x").is_none());
}

#[test]
fn parsed_commit_lines() {
    let p = parse_commit(&commit("abcdefghij", "Perf(db): faster\nmore"));
    assert_eq!(p.group, Group::Performance);
    assert_eq!(format_line(&p), "- `abcdefg` **db**: faster");
    let m = parse_commit(&commit("xyz", "hello: world"));
    assert_eq!(m.group, Group::Miscellaneous);
    assert_eq!(format_line(&m), "- `xyz` hello: world");
    let empty = commit("a", "");
    assert_eq!(empty.first_line(), "");
    assert_eq!(commit("abcdefghi", "x").short_sha(), "abcdefg");
}
