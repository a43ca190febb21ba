use aws_utils::s3::{
    bucket_names, latest_deletion, parse_keys, tally, DeleteMarker, ExistenceCheck, Finding,
    HeadOutcome,
};

#[test]
fn parses_basic_keys() {
    let text = "# comment\nfoo/bar\n/leading/slash\ns3://mybucket/some/key\n  whitespaced  \n";
    let keys = parse_keys(text);
    assert_eq!(
        keys,
        vec![
            "foo/bar".to_string(),
            "leading/slash".to_string(),
            "some/key".to_string(),
            "whitespaced".to_string(),
        ]
    );
}

#[test]
fn key_list_edge_cases() {
    let keys = parse_keys("a # note\n\n   \ns3://bucketonly\n//x//y\ns3://s3://b/k");
    assert_eq!(
        keys,
        vec![
            "a".to_string(),
            "bucketonly".to_string(),
            "x//y".to_string(),
            "k".to_string()
        ]
    );
}

#[test]
fn findings_and_tally() {
    let checks = vec![
        ExistenceCheck::from_outcome(HeadOutcome::Found(None)),
        ExistenceCheck::from_outcome(HeadOutcome::Found(Some(true))),
        ExistenceCheck::from_outcome(HeadOutcome::NotFound),
        ExistenceCheck::from_outcome(HeadOutcome::Failed("denied".to_string())),
        ExistenceCheck::from_outcome(HeadOutcome::NotFound),
    ];
    assert_eq!(checks[0].finding(), Finding::Exists);
    assert_eq!(checks[1].finding(), Finding::Deleted);
    assert_eq!(checks[2].finding(), Finding::Missing);
    assert_eq!(checks[3].finding(), Finding::Error);
    let t = tally(&checks);
    assert_eq!((t.exists, t.missing, t.deleted, t.errors), (1, 2, 1, 1));
}

#[test]
fn deletion_marker_lookup() {
    let markers = vec![
        DeleteMarker {
            key: Some("a/b".to_string()),
            is_latest: Some(false),
            last_modified: Some("t0".to_string()),
            version_id: Some("v0".to_string()),
        },
        DeleteMarker {
            key: Some("a/bc".to_string()),
            is_latest: Some(true),
            last_modified: Some("t1".to_string()),
            version_id: Some("v1".to_string()),
        },
        DeleteMarker {
            key: Some("a/b".to_string()),
            is_latest: Some(true),
            last_modified: Some("t2".to_string()),
            version_id: None,
        },
    ];
    let info = latest_deletion(&markers, "a/b").unwrap();
    assert_eq!(info.deleted_at.as_deref(), Some("t2"));
    assert_eq!(info.version_id, None);
    assert!(latest_deletion(&markers, "zzz").is_none());
    assert_eq!(
        bucket_names(vec![Some("x".to_string()), None, Some("y".to_string())]),
        vec!["x".to_string(), "y".to_string()]
    );
}
