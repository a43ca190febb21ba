use aws_utils::role::{
    binary_path, debug_log_body, failure_message, format_diagnostics, has_active_session,
    is_propagated, logout_keys, parse_output, propagated, render_exports, source_command,
    unescape, unset_script, ExportMap,
};

#[test]
fn parses_eval_output() {
    let sample = r#"
export AWS_REGION="eu-central-1";
export AWS_ACCESS_KEY_ID="AKIAEXAMPLE";
export AWS_SECRET_ACCESS_KEY="secret";
export AWS_SESSION_TOKEN="token";
export GEO_ENV="prod-app-teach";
not an export line
export AWS_EMPTY="";
"#;
    let parsed = parse_output(sample);
    assert_eq!(parsed.exports.get("AWS_REGION").unwrap(), "eu-central-1");
    assert_eq!(parsed.exports.get("AWS_ACCESS_KEY_ID").unwrap(), "AKIAEXAMPLE");
    assert_eq!(parsed.exports.get("AWS_SESSION_TOKEN").unwrap(), "token");
    assert_eq!(parsed.exports.get("GEO_ENV").unwrap(), "prod-app-teach");
    assert_eq!(parsed.exports.get("AWS_EMPTY").unwrap(), "");
    assert!(parsed.messages.is_empty());
}

#[test]
fn captures_echo_messages() {
    let sample = "
echo \"aws sts get-session-token error\";
echo \"Failed to export session envars.\";
";
    let parsed = parse_output(sample);
    assert!(parsed.exports.is_empty());
    assert_eq!(
        parsed.messages,
        vec![
            "aws sts get-session-token error".to_string(),
            "Failed to export session envars.".to_string(),
        ]
    );
}

#[test]
fn echo_and_export_intermixed() {
    let sample = r#"
echo "Using source profile mindtwo";
export AWS_REGION="eu-central-1";
echo "switched role";
export AWS_ACCESS_KEY_ID="AKIA";
"#;
    let parsed = parse_output(sample);
    assert_eq!(parsed.exports.len(), 2);
    assert_eq!(parsed.messages.len(), 2);
}

#[test]
fn empty_output() {
    let parsed = parse_output("nothing here");
    assert!(parsed.exports.is_empty());
    assert!(parsed.messages.is_empty());
}

#[test]
fn unescape_handles_quotes() {
    assert_eq!(unescape(r#"a\"b"#), r#"a"b"#);
}

#[test]
fn only_aws_keys_propagated() {
    assert!(is_propagated("AWS_REGION"));
    assert!(is_propagated("GEO_ENV"));
    assert!(is_propagated("KUBECONFIG"));
    assert!(!is_propagated("PATH"));
    assert!(!is_propagated("HOME"));
}

#[test]
fn format_diagnostics_combines_sources() {
    assert_eq!(format_diagnostics(&[], ""), "");
    assert_eq!(
        format_diagnostics(&["one".into(), "two".into()], ""),
        "\n  one\n  two"
    );
    assert_eq!(
        format_diagnostics(&[], "  An error\noccurred  "),
        "\n  An error\n  occurred"
    );
    assert_eq!(
        format_diagnostics(&["echo msg".into()], "stderr line"),
        "\n  echo msg\n  stderr line"
    );
}

#[test]
fn later_export_wins_and_keeps_place() {
    let parsed = parse_output("export A_B=\"1\";\nexport C=\"2\"\nexport A_B=\"3\";\n");
    assert_eq!(parsed.exports.len(), 2);
    assert_eq!(parsed.exports.get("A_B").unwrap(), "3");
    assert_eq!(parsed.exports.keys(), vec!["A_B".to_string(), "C".to_string()]);
}

#[test]
fn malformed_lines_are_ignored() {
    let text = "export lower=\"x\";\nexport A=\"unterminated\nexport B=\"v\" trailing\necho \"   \";\n  export   OK_1=\"a\\\\b\";  \r\n";
    let parsed = parse_output(text);
    assert_eq!(parsed.exports.len(), 1);
    assert_eq!(parsed.exports.get("OK_1").unwrap(), "a\\b");
    assert!(parsed.messages.is_empty());
}

#[test]
fn unescape_drops_lone_trailing_backslash() {
    assert_eq!(unescape("ab\\"), "ab");
    assert_eq!(unescape("\\\\n"), "\\n");
}

#[test]
fn failure_message_cases() {
    let ok = parse_output("export AWS_REGION=\"x\";\n");
    assert_eq!(failure_message(true, "exit status: 0", &ok, "", None), None);
    let none = parse_output("echo \"no mfa\";\n");
    assert_eq!(
        failure_message(true, "exit status: 0", &none, " boom \n", Some("/tmp/l.log")).unwrap(),
        "assume-role returned no credentials\n  no mfa\n  boom\n  (full output: /tmp/l.log)"
    );
    assert_eq!(
        failure_message(false, "exit status: 1", &ok, "", None).unwrap(),
        "assume-role exited with exit status: 1"
    );
}

#[test]
fn source_command_escapes_quotes() {
    assert_eq!(
        source_command("/opt/my \"role\"/assume-role"),
        "source \"/opt/my \\\"role\\\"/assume-role\"; assume-role \"$1\"; exit $?"
    );
}

#[test]
fn binary_path_and_session_flags() {
    assert_eq!(binary_path(None), "/usr/local/bin/assume-role");
    assert_eq!(binary_path(Some("/x/y")), "/x/y");
    assert!(has_active_session(Some("tok")));
    assert!(!has_active_session(Some("")));
    assert!(!has_active_session(None));
}

#[test]
fn debug_log_layout() {
    assert_eq!(
        debug_log_body("prod", "exit status: 2", "out", "err"),
        "account: prod\nexit: exit status: 2\n\n=== stdout ===\nout\n=== stderr ===\nerr"
    );
}

#[test]
fn propagation_keeps_only_known_variables() {
    let parsed = parse_output("export AWS_REGION=\"r\";\nexport PATH=\"/bin\";\nexport KUBECONFIG=\"k\";\n");
    let vars = propagated(&parsed.exports);
    assert_eq!(
        vars,
        vec![
            ("AWS_REGION".to_string(), "r".to_string()),
            ("KUBECONFIG".to_string(), "k".to_string())
        ]
    );
}

#[test]
fn session_file_reads_back() {
    let mut m = ExportMap::new();
    m.insert("AWS_SESSION_TOKEN".to_string(), "a\"b$c`d\\e".to_string());
    m.insert("GEO_ENV".to_string(), "prod".to_string());
    let text = render_exports(&m);
    assert_eq!(
        text,
        "export AWS_SESSION_TOKEN=\"a\\\"b\\$c\\`d\\\\e\";\nexport GEO_ENV=\"prod\";\n"
    );
    let back = parse_output(&text);
    assert_eq!(back.exports.len(), 2);
    assert_eq!(back.exports.get("AWS_SESSION_TOKEN").unwrap(), "a\"b$c`d\\e");
    assert_eq!(back.exports.get("GEO_ENV").unwrap(), "prod");
    assert!(back.messages.is_empty());
}

#[test]
fn logout_uses_session_file_or_standard_list() {
    let keys = logout_keys(Some("export B=\"1\";\nexport A=\"2\";\nexport B=\"3\";\n"));
    assert_eq!(keys, vec!["A".to_string(), "B".to_string()]);
    assert_eq!(unset_script(&keys), "unset A;\nunset B;\n");
    let std_keys = logout_keys(None);
    assert_eq!(std_keys.len(), 18);
    assert_eq!(std_keys[0], "AWS_ACCESS_KEY_ID");
    assert_eq!(std_keys[17], "KUBECONFIG");
    assert_eq!(logout_keys(Some("nothing")).len(), 18);
}
