use aws_utils::cli::default_log_level;
use aws_utils::error::{parse_repo, AppError};
use aws_utils::pipeline::{
    find_pending_approval, pending_approval, revision_from, stage_execution, stage_names,
    ActionExecution, ActionState, ArtifactRevision, StageRevision, StageState,
};
use aws_utils::release::{
    approval_summary, fallback_signature, nothing_to_release, release_step, release_tag_name,
    tag_message, tag_name_for, tag_refspec, ReleaseAction, ReleaseEnd, ReleaseEvent, ReleasePhase,
    ReleaseState,
};
use aws_utils::pipeline::PendingApproval;
use aws_utils::recipe::{recipe_start, recipe_step, RecipeAction, RecipeEvent};
use aws_utils::text::short_sha;

fn action(name: Option<&str>, latest: Option<(bool, Option<&str>)>) -> ActionState {
    ActionState {
        action_name: name.map(|s| s.to_string()),
        latest_execution: latest.map(|(p, t)| ActionExecution {
            in_progress: p,
            token: t.map(|s| s.to_string()),
        }),
    }
}

fn stage(name: &str, actions: Vec<ActionState>) -> StageState {
    StageState {
        stage_name: Some(name.to_string()),
        latest_execution_id: Some(format!("{name}-exec")),
        actions,
    }
}

#[test]
fn finds_the_waiting_approval() {
    let s = stage(
        "Pre",
        vec![
            action(Some("Build"), Some((false, None))),
            action(Some("Approve"), Some((true, Some("tok")))),
        ],
    );
    let p = find_pending_approval(&s).unwrap();
    assert_eq!((p.stage.as_str(), p.action.as_str(), p.token.as_str()), ("Pre", "Approve", "tok"));
    let never_ran = stage("Pre", vec![action(Some("A"), None), action(Some("B"), Some((true, Some("t"))))]);
    let p = find_pending_approval(&never_ran).unwrap();
    assert_eq!((p.action.as_str(), p.token.as_str()), ("B", "t"));
    let no_token = stage("Pre", vec![action(Some("B"), Some((true, None)))]);
    assert!(find_pending_approval(&no_token).is_none());
    let deploy_then_approval = stage(
        "Pre",
        vec![action(Some("Deploy"), Some((true, None))), action(Some("Gate"), Some((true, Some("g"))))],
    );
    assert_eq!(find_pending_approval(&deploy_then_approval).unwrap().action, "Gate");
}

#[test]
fn approval_errors_name_stage_and_pipeline() {
    let stages = vec![stage("Pre", vec![action(Some("A"), Some((false, None)))])];
    match pending_approval(&stages, "Prod", "pipe") {
        Err(e @ AppError::StageNotFound(_, _)) => assert_eq!(
            e.message(),
            "pipeline stage 'Prod' not found in pipeline 'pipe'"
        ),
        _ => panic!("expected StageNotFound"),
    }
    match pending_approval(&stages, "Pre", "pipe") {
        Err(e @ AppError::NoPendingApproval(_)) => assert_eq!(
            e.message(),
            "no pending manual approval action found in stage 'Pre'"
        ),
        _ => panic!("expected NoPendingApproval"),
    }
    assert_eq!(stage_names(&stages), vec!["Pre".to_string()]);
}

#[test]
fn stage_revision_steps() {
    let mut stages = vec![stage("Pre", vec![])];
    assert_eq!(stage_execution(&stages, "Pre", "p").unwrap(), "Pre-exec");
    stages[0].latest_execution_id = None;
    assert_eq!(
        stage_execution(&stages, "Pre", "p").unwrap_err(),
        "stage 'Pre' has no latest execution"
    );
    assert_eq!(
        revision_from("Pre", "e1", None).unwrap_err(),
        "no pipeline execution returned for e1"
    );
    assert_eq!(
        revision_from("Pre", "e1", Some(vec![])).unwrap_err(),
        "execution e1 has no artifact revisions"
    );
    let rev = revision_from(
        "Pre",
        "e1",
        Some(vec![ArtifactRevision {
            revision_id: Some("abc".into()),
            revision_url: None,
            revision_summary: Some("msg".into()),
        }]),
    )
    .unwrap();
    assert_eq!(rev.revision_id, "abc");
    assert_eq!(rev.revision_summary.as_deref(), Some("msg"));
}

#[test]
fn release_decisions() {
    let a = StageRevision {
        stage: "a".into(),
        execution_id: "1".into(),
        revision_id: "x".into(),
        revision_url: None,
        revision_summary: None,
    };
    let mut b = a.clone();
    assert!(nothing_to_release(&a, &b));
    b.revision_id = "y".into();
    assert!(!nothing_to_release(&a, &b));
    assert_eq!(approval_summary(None), "Released by aws-utils");
    assert_eq!(approval_summary(Some("s")), "s");
    assert_eq!(tag_name_for("01-02-2024"), "release-01-02-2024");
    let tag = release_tag_name().unwrap();
    let cs: Vec<char> = tag.chars().collect();
    assert!(tag.starts_with("release-"));
    assert!(cs.len() >= 18);
    assert_eq!((cs[10], cs[13]), ('-', '-'));
    assert!(cs[8..10].iter().chain(&cs[11..13]).all(|c| c.is_ascii_digit()));
    assert_eq!(tag_message("t", ""), "Release t");
    assert_eq!(tag_message("t", "notes"), "notes");
    assert_eq!(tag_refspec("t"), "refs/tags/t:refs/tags/t");
    assert_eq!(
        fallback_signature(None, Some("me"), None),
        ("me".to_string(), "aws-utils@local".to_string())
    );
    assert_eq!(short_sha("0123456789"), "0123456");
    assert_eq!(default_log_level(true, true), "debug");
    assert_eq!(default_log_level(false, true), "error");
    assert_eq!(default_log_level(false, false), "info");
}

#[test]
fn repo_slugs() {
    assert_eq!(parse_repo("o/n").unwrap(), ("o".to_string(), "n".to_string()));
    for bad in ["o", "/n", "o/", "o/n/x", ""] {
        match parse_repo(bad) {
            Err(e @ AppError::InvalidRepoName(_)) => assert_eq!(
                e.message(),
                format!("repo must be in `owner/name` form, got: {bad}")
            ),
            _ => panic!("expected InvalidRepoName for {bad}"),
        }
    }
    assert_eq!(
        AppError::ProjectNotFound("w".into()).message(),
        "project 'w' is not registered (run `aws-utils add` inside its directory)"
    );
    assert_eq!(
        AppError::MissingEnv("X").message(),
        "missing required environment variable: X"
    );
}

fn revision(id: &str) -> StageRevision {
    StageRevision {
        stage: "S".into(),
        execution_id: "e".into(),
        revision_id: id.into(),
        revision_url: None,
        revision_summary: None,
    }
}

#[test]
fn release_stops_when_nothing_to_release() {
    let s = ReleaseState::new(false, false, None);
    let (s, a) = release_step(s, ReleaseEvent::Revisions(revision("abc"), revision("abc")));
    assert!(matches!(a, ReleaseAction::Stop(ReleaseEnd::NothingToRelease)));
    assert_eq!(s.phase, ReleasePhase::Finished);
}

#[test]
fn release_runs_through_approval_and_tag() {
    let s = ReleaseState::new(false, false, None);
    let (s, a) = release_step(s, ReleaseEvent::Revisions(revision("new"), revision("old")));
    assert!(matches!(a, ReleaseAction::RenderChangelog));
    let (s, a) = release_step(s, ReleaseEvent::Changelog(String::new()));
    assert!(matches!(a, ReleaseAction::AskConfirm));
    let (s, a) = release_step(s, ReleaseEvent::Confirmed(true));
    assert!(matches!(a, ReleaseAction::FindApproval));
    let p = PendingApproval { stage: "Pre".into(), action: "Gate".into(), token: "t".into() };
    let (s, a) = release_step(s, ReleaseEvent::ApprovalFound(p));
    match a {
        ReleaseAction::Approve { stage, action, token, summary } => {
            assert_eq!((stage.as_str(), action.as_str(), token.as_str()), ("Pre", "Gate", "t"));
            assert_eq!(summary, "Released by aws-utils");
        }
        _ => panic!("expected Approve"),
    }
    let (s, a) = release_step(s, ReleaseEvent::Approved(Some("release-01-02-2024".into())));
    let tag = match a {
        ReleaseAction::CreateTag { revision, tag, message } => {
            assert_eq!(revision, "new");
            assert_eq!(tag, "release-01-02-2024");
            assert_eq!(message, "Release release-01-02-2024");
            tag
        }
        _ => panic!("expected CreateTag"),
    };
    let (s, a) = release_step(s, ReleaseEvent::Tagged);
    assert!(matches!(a, ReleaseAction::AskPush));
    let (s, a) = release_step(s, ReleaseEvent::PushConfirmed(true));
    match a {
        ReleaseAction::PushTag { tag: t } => assert_eq!(t, tag),
        _ => panic!("expected PushTag"),
    }
    let (s, a) = release_step(s, ReleaseEvent::Pushed);
    assert!(matches!(a, ReleaseAction::Stop(ReleaseEnd::Released)));
    assert_eq!(s.phase, ReleasePhase::Finished);
}

#[test]
fn release_declined_or_untagged() {
    let s = ReleaseState::new(true, true, Some("why".into()));
    let (s, a) = release_step(s, ReleaseEvent::Revisions(revision("new"), revision("old")));
    assert!(matches!(a, ReleaseAction::AskConfirm));
    assert_eq!(s.changelog, "");
    let (s2, a) = release_step(s, ReleaseEvent::Confirmed(false));
    assert!(matches!(a, ReleaseAction::Stop(ReleaseEnd::Aborted)));
    let (s3, a) = release_step(s2, ReleaseEvent::Tagged);
    assert!(matches!(a, ReleaseAction::Stop(ReleaseEnd::OutOfOrder)));
    assert_eq!(s3.phase, ReleasePhase::Finished);

    let s = ReleaseState::new(true, true, Some("why".into()));
    let (s, _) = release_step(s, ReleaseEvent::Revisions(revision("new"), revision("old")));
    let (s, _) = release_step(s, ReleaseEvent::Confirmed(true));
    let p = PendingApproval { stage: "Pre".into(), action: "Gate".into(), token: "t".into() };
    let (s, a) = release_step(s, ReleaseEvent::ApprovalFound(p));
    assert!(matches!(a, ReleaseAction::Approve { ref summary, .. } if summary == "why"));
    let (_, a) = release_step(s, ReleaseEvent::Approved(None));
    assert!(matches!(a, ReleaseAction::Stop(ReleaseEnd::Released)));
}

#[test]
fn recipe_steps_stop_on_error_and_no() {
    assert_eq!(recipe_start(0), RecipeAction::Complete);
    assert_eq!(recipe_start(3), RecipeAction::RunStep(0));
    assert_eq!(recipe_step(0, 3, RecipeEvent::StepDone), RecipeAction::AskContinue);
    assert_eq!(recipe_step(0, 3, RecipeEvent::Continue(true)), RecipeAction::RunStep(1));
    assert_eq!(recipe_step(1, 3, RecipeEvent::Continue(false)), RecipeAction::Abort);
    assert_eq!(recipe_step(1, 3, RecipeEvent::StepFailed), RecipeAction::Fail);
    assert_eq!(recipe_step(2, 3, RecipeEvent::StepDone), RecipeAction::Complete);
}

#[test]
fn release_without_a_date_stops() {
    let s = ReleaseState::new(false, true, None);
    let (s, _) = release_step(s, ReleaseEvent::Revisions(revision("new"), revision("old")));
    let (s, _) = release_step(s, ReleaseEvent::Confirmed(true));
    let p = PendingApproval { stage: "Pre".into(), action: "Gate".into(), token: "t".into() };
    let (s, _) = release_step(s, ReleaseEvent::ApprovalFound(p));
    let (s, a) = release_step(s, ReleaseEvent::Approved(None));
    assert!(matches!(a, ReleaseAction::Stop(ReleaseEnd::NoDate)));
    assert_eq!(s.phase, ReleasePhase::Finished);
}
