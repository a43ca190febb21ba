use aws_utils::jira::{
    active_sprint_jql, basic_auth_header, extract_keys, join_quoted, keys_in, keys_jql, mask,
    tickets_from_issues, valid_base_url, Issue, JiraClient,
};
use aws_utils::error::AppError;

#[test]
fn normalises_to_uppercase() {
    assert_eq!(keys_in("learn-9 and APP-1"), vec!["APP-1", "LEARN-9"]);
}

#[test]
fn deduplicates_across_case() {
    assert_eq!(
        keys_in("learn-1 here, LEARN-1 again, Learn-1 once more"),
        vec!["LEARN-1"]
    );
}

#[test]
fn ignores_single_letter_prefix() {
    assert!(keys_in("a-1 foo").is_empty());
}

#[test]
fn matches_inside_subject_and_body() {
    let msg = "feat(api): learn-9 add foo\n\nRefs: APP-42";
    assert_eq!(keys_in(msg), vec!["APP-42", "LEARN-9"]);
}

#[test]
fn key_boundaries() {
    assert!(keys_in("xapp-1").len() == 1);
    assert!(keys_in("app-1x").is_empty());
    assert!(keys_in("_app-1").is_empty());
    assert_eq!(keys_in("(app_2-10)"), vec!["APP_2-10"]);
}

#[test]
fn extract_keys_filters_by_prefix() {
    let msgs = vec!["fix app-1 and web-2".to_string(), "APP-3; app-1".to_string()];
    assert_eq!(extract_keys(&msgs, &["app".to_string()]), vec!["APP-1", "APP-3"]);
    assert_eq!(extract_keys(&msgs, &[]), vec!["APP-1", "APP-3", "WEB-2"]);
    assert_eq!(keys_jql(&["A-1".to_string()]), "key in (\"A-1\")");
}

#[test]
fn client_urls_and_credentials() {
    let c = JiraClient::new("https://x.atlassian.net//");
    assert_eq!(c.base_url(), "https://x.atlassian.net");
    assert_eq!(c.url("search"), "https://x.atlassian.net/rest/api/3/search");
    assert_eq!(c.browse_url("A-1"), "https://x.atlassian.net/browse/A-1");
    assert_eq!(basic_auth_header("a@b.c", "tok"), "Basic YUBiLmM6dG9r");
    assert!(valid_base_url("http://x"));
    assert!(!valid_base_url("ftp://x"));
    assert_eq!(mask("12345678"), "********");
    assert_eq!(mask("abcdefghij"), "****…ghij");
    assert_eq!(join_quoted(&["a\"b".to_string(), "c".to_string()]), "\"a\\\"b\", \"c\"");
    assert_eq!(active_sprint_jql(&[], &[]), None);
    assert_eq!(
        active_sprint_jql(&["P".to_string()], &["Done".to_string()]).unwrap(),
        "project in (\"P\") AND sprint in openSprints() AND status in (\"Done\")"
    );
}

#[test]
fn client_from_environment_values() {
    assert!(matches!(
        JiraClient::from_env(None, Some("e"), Some("t")),
        Err(AppError::MissingEnv("JIRA_BASE_URL"))
    ));
    assert!(matches!(
        JiraClient::from_env(Some("u"), None, None),
        Err(AppError::MissingEnv("JIRA_EMAIL"))
    ));
    assert!(matches!(
        JiraClient::from_env(Some("u"), Some("e"), None),
        Err(AppError::MissingEnv("JIRA_API_TOKEN"))
    ));
    let c = JiraClient::from_env(Some("https://h/"), Some("e"), Some("t")).ok().unwrap();
    let t = tickets_from_issues(
        &c,
        vec![
            Issue { key: "B-2".into(), summary: "s2".into(), status: None, assignee: None },
            Issue { key: "A-1".into(), summary: "s1".into(), status: Some("Done".into()), assignee: None },
            Issue { key: "B-2".into(), summary: "dup".into(), status: None, assignee: None },
        ],
    );
    let keys: Vec<&str> = t.iter().map(|x| x.key.as_str()).collect();
    assert_eq!(keys, vec!["A-1", "B-2", "B-2"]);
    assert_eq!(t[1].summary, "s2");
    assert_eq!(t[2].summary, "dup");
    assert_eq!(t[0].url, "https://h/browse/A-1");
}

#[test]
fn keys_ignore_the_case_of_the_message() {
    let m = "Fix learn-9 and App-1 (see LEARN-9)";
    let keys = keys_in(m);
    assert_eq!(keys, vec!["APP-1", "LEARN-9"]);
    assert_eq!(keys_in(&m.to_ascii_lowercase()), keys);
    assert_eq!(keys_in(&m.to_ascii_uppercase()), keys);
}

#[test]
fn word_boundaries_follow_unicode() {
    assert!(keys_in("éab-12").is_empty());
    assert!(keys_in("ab-12é").is_empty());
    assert_eq!(keys_in("«ab-12» and “cd-3”"), vec!["AB-12", "CD-3"]);
    assert_eq!(keys_in("\u{212A}ey-1"), vec!["\u{212A}EY-1"]);
}

#[test]
fn key_numbers_take_unicode_digits() {
    assert_eq!(keys_in("see ab-١٢ now"), vec!["AB-١٢"]);
    assert_eq!(keys_in("ab-12٣"), vec!["AB-12٣"]);
    for k in keys_in("fix learn-9, app_x-10 and z-1 in (ok-2)") {
        let (head, digits) = k.split_once('-').unwrap();
        assert!(head.len() >= 2 && head.chars().next().unwrap().is_ascii_uppercase());
        assert!(head.chars().all(|c| c.is_ascii_uppercase() || c.is_ascii_digit() || c == '_'));
        assert!(!digits.is_empty() && digits.chars().all(|c| c.is_ascii_digit()));
    }
}
