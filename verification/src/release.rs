//! The decisions of a release: whether there is anything to release, the
//! approval summary, and the tag that marks the released commit.

use vstd::prelude::*;
use crate::changelog::local_date_text;
use crate::pipeline::{PendingApproval, StageRevision};
use crate::text::{chars_of, dmy_text, push_str_chars, str_eq};

verus! {

/// Whether the two stages run the same commit, so there is nothing to
/// release.
pub fn nothing_to_release(from: &StageRevision, to: &StageRevision) -> (r: bool)
    ensures
        r == (from.revision_id@ == to.revision_id@),
{
    str_eq(from.revision_id.as_str(), to.revision_id.as_str())
}

/// The summary sent with the approval: the one given, else
/// `Released by aws-utils`.
pub fn approval_summary(summary: Option<&str>) -> (r: String)
    ensures
        r@ == match summary {
            Some(s) => s@,
            None => "Released by aws-utils"@,
        },
{
    let mut r = String::new();
    match summary {
        Some(s) => push_str_chars(&mut r, s),
        None => push_str_chars(&mut r, "Released by aws-utils"),
    }
    r
}

/// The tag of a release on `date` (`DD-MM-YYYY`): `release-DATE`.
pub fn tag_name_for(date: &str) -> (r: String)
    ensures
        r@ == "release-"@ + date@,
{
    let mut r = String::new();
    push_str_chars(&mut r, "release-");
    push_str_chars(&mut r, date);
    r
}

/// The tag of a release today: `release-` and the local date as
/// `DD-MM-YYYY`. `None` when the system clock gives no date.
pub fn release_tag_name() -> (r: Option<String>)
    ensures
        r matches Some(t) ==> exists|date: Seq<char>|
            dmy_text(date) && t@ == "release-"@ + date,
        r matches Some(t) ==> t@.len() >= 18 && t@[10] == '-' && t@[13] == '-',
{
    match local_date_text("%d-%m-%Y") {
        Some(date) => {
            let r = tag_name_for(date.as_str());
            proof {
                reveal_strlit("release-");
                assert(r@ == "release-"@ + date@);
                assert(r@[10] == date@[2]);
                assert(r@[13] == date@[5]);
            }
            Some(r)
        },
        None => None,
    }
}

/// The message of the tag: the changelog, or `Release TAG` when there is
/// none.
pub fn tag_message(tag: &str, changelog: &str) -> (r: String)
    ensures
        r@ == if changelog@.len() == 0 {
            "Release "@ + tag@
        } else {
            changelog@
        },
{
    let mut r = String::new();
    if chars_of(changelog).len() == 0 {
        push_str_chars(&mut r, "Release ");
        push_str_chars(&mut r, tag);
    } else {
        push_str_chars(&mut r, changelog);
    }
    r
}

/// The refspec that pushes tag `tag` to the same tag on the remote.
pub fn tag_refspec(tag: &str) -> (r: String)
    ensures
        r@ == "refs/tags/"@ + tag@ + ":refs/tags/"@ + tag@,
{
    let mut r = String::new();
    push_str_chars(&mut r, "refs/tags/");
    push_str_chars(&mut r, tag);
    push_str_chars(&mut r, ":refs/tags/");
    push_str_chars(&mut r, tag);
    r
}

/// The tagger when git has no identity configured: the name from
/// `GIT_AUTHOR_NAME`, else `USER`, else `aws-utils`; the email from
/// `GIT_AUTHOR_EMAIL`, else `aws-utils@local`.
pub fn fallback_signature(
    git_author_name: Option<&str>,
    user: Option<&str>,
    git_author_email: Option<&str>,
) -> (r: (String, String))
    ensures
        r.0@ == match git_author_name {
            Some(n) => n@,
            None => match user {
                Some(u) => u@,
                None => "aws-utils"@,
            },
        },
        r.1@ == match git_author_email {
            Some(e) => e@,
            None => "aws-utils@local"@,
        },
{
    let mut name = String::new();
    match git_author_name {
        Some(n) => push_str_chars(&mut name, n),
        None => match user {
            Some(u) => push_str_chars(&mut name, u),
            None => push_str_chars(&mut name, "aws-utils"),
        },
    }
    let mut email = String::new();
    match git_author_email {
        Some(e) => push_str_chars(&mut email, e),
        None => push_str_chars(&mut email, "aws-utils@local"),
    }
    (name, email)
}


/// The text of [`approval_summary`].
pub open spec fn summary_text(summary: Option<String>) -> Seq<char> {
    match summary {
        Some(s) => s@,
        None => "Released by aws-utils"@,
    }
}

/// The text of [`tag_message`].
pub open spec fn tag_message_text(tag: Seq<char>, changelog: Seq<char>) -> Seq<char> {
    if changelog.len() == 0 {
        "Release "@ + tag
    } else {
        changelog
    }
}

/// Where a release run stands: what it waits for next.
#[derive(Clone, Copy, Debug, PartialEq, Eq, Structural)]
pub enum ReleasePhase {
    /// The deployed revisions of the two stages.
    AwaitRevisions,
    /// The rendered changelog.
    AwaitChangelog,
    /// The user's answer to "approve?".
    AwaitConfirm,
    /// The pending approval of the source stage.
    AwaitApproval,
    /// The approval being sent.
    AwaitApproved,
    /// The tag being created.
    AwaitTagged,
    /// The user's answer to "push the tag?".
    AwaitPushConfirm,
    /// The tag being pushed.
    AwaitPushed,
    /// Nothing more to do.
    Finished,
}

/// A release run: its options and what it has learnt so far.
pub struct ReleaseState {
    pub phase: ReleasePhase,
    /// Stop after the approval, without a tag.
    pub no_tag: bool,
    /// Skip the changelog.
    pub no_changelog: bool,
    /// The approval summary given on the command line.
    pub summary: Option<String>,
    /// The revision of the source stage, which the tag marks.
    pub from_revision: String,
    /// The rendered changelog (empty when skipped).
    pub changelog: String,
    /// The tag created, once there is one.
    pub tag: String,
}

/// What the outside world reports back to a release run.
pub enum ReleaseEvent {
    /// The revisions of the source stage and of the target stage.
    Revisions(StageRevision, StageRevision),
    /// The rendered changelog.
    Changelog(String),
    /// The answer to "approve?".
    Confirmed(bool),
    /// The approval waiting in the source stage.
    ApprovalFound(PendingApproval),
    /// The approval was sent; with the name of today's tag, as
    /// [`release_tag_name`] gives it (`None` when the clock gives no date).
    Approved(Option<String>),
    /// The tag was created.
    Tagged,
    /// The answer to "push the tag?".
    PushConfirmed(bool),
    /// The tag was pushed.
    Pushed,
}

/// How a release run ends.
#[derive(Clone, Copy, Debug, PartialEq, Eq, Structural)]
pub enum ReleaseEnd {
    /// Both stages run the same commit.
    NothingToRelease,
    /// The user declined the approval.
    Aborted,
    /// The release went through (with or without a tag).
    Released,
    /// The system clock gives no date to name the tag.
    NoDate,
    /// An event came that the run was not waiting for.
    OutOfOrder,
}

/// What a release run asks the outside world to do next.
pub enum ReleaseAction {
    /// Render the changelog between the two revisions.
    RenderChangelog,
    /// Ask "approve the pending release?".
    AskConfirm,
    /// Look up the pending approval of the source stage.
    FindApproval,
    /// Send the approval.
    Approve { stage: String, action: String, token: String, summary: String },
    /// Create the annotated tag `tag` on `revision`.
    CreateTag { revision: String, tag: String, message: String },
    /// Ask "push the tag?".
    AskPush,
    /// Push tag `tag` to `origin`.
    PushTag { tag: String },
    /// The run is over.
    Stop(ReleaseEnd),
}

impl ReleaseState {
    /// A run that waits for the two stages' revisions.
    pub fn new(no_tag: bool, no_changelog: bool, summary: Option<String>) -> (r: ReleaseState)
        ensures
            r.phase == ReleasePhase::AwaitRevisions,
            r.no_tag == no_tag,
            r.no_changelog == no_changelog,
            r.summary == summary,
            r.from_revision@ == Seq::<char>::empty(),
            r.changelog@ == Seq::<char>::empty(),
            r.tag@ == Seq::<char>::empty(),
    {
        ReleaseState {
            phase: ReleasePhase::AwaitRevisions,
            no_tag,
            no_changelog,
            summary,
            from_revision: String::new(),
            changelog: String::new(),
            tag: String::new(),
        }
    }
}

/// `ns` keeps the options of `s`.
pub open spec fn same_options(s: ReleaseState, ns: ReleaseState) -> bool {
    ns.no_tag == s.no_tag && ns.no_changelog == s.no_changelog && ns.summary == s.summary
}

/// `ns` keeps the options, revision, changelog and tag of `s`.
pub open spec fn same_record(s: ReleaseState, ns: ReleaseState) -> bool {
    same_options(s, ns) && ns.from_revision@ == s.from_revision@ && ns.changelog@ == s.changelog@
        && ns.tag@ == s.tag@
}

/// One step of a release run: from state `s` and event `e` to state `ns`
/// and action `a`. The revisions decide whether there is anything to
/// release; the approval is sent only after a yes; the tag is made only
/// without `no_tag`, on the source stage's revision, named after today's
/// date; it is pushed only after a yes.
pub open spec fn release_step_ok(
    s: ReleaseState,
    e: ReleaseEvent,
    ns: ReleaseState,
    a: ReleaseAction,
) -> bool {
    match (s.phase, e) {
        (ReleasePhase::AwaitRevisions, ReleaseEvent::Revisions(f, t)) => {
            &&& same_options(s, ns)
            &&& if f.revision_id@ == t.revision_id@ {
                ns.phase == ReleasePhase::Finished && a == ReleaseAction::Stop(
                    ReleaseEnd::NothingToRelease,
                )
            } else {
                &&& ns.from_revision@ == f.revision_id@
                &&& ns.tag@ == s.tag@
                &&& if s.no_changelog {
                    ns.phase == ReleasePhase::AwaitConfirm && ns.changelog@ == Seq::<char>::empty()
                        && a is AskConfirm
                } else {
                    ns.phase == ReleasePhase::AwaitChangelog && ns.changelog@ == s.changelog@
                        && a is RenderChangelog
                }
            }
        },
        (ReleasePhase::AwaitChangelog, ReleaseEvent::Changelog(c)) => {
            &&& same_options(s, ns)
            &&& ns.from_revision@ == s.from_revision@ && ns.tag@ == s.tag@
            &&& ns.changelog@ == c@
            &&& ns.phase == ReleasePhase::AwaitConfirm && a is AskConfirm
        },
        (ReleasePhase::AwaitConfirm, ReleaseEvent::Confirmed(yes)) => {
            &&& same_record(s, ns)
            &&& if yes {
                ns.phase == ReleasePhase::AwaitApproval && a is FindApproval
            } else {
                ns.phase == ReleasePhase::Finished && a == ReleaseAction::Stop(ReleaseEnd::Aborted)
            }
        },
        (ReleasePhase::AwaitApproval, ReleaseEvent::ApprovalFound(p)) => {
            &&& same_record(s, ns)
            &&& ns.phase == ReleasePhase::AwaitApproved
            &&& a matches ReleaseAction::Approve { stage, action, token, summary } && stage@
                == p.stage@ && action@ == p.action@ && token@ == p.token@ && summary@
                == summary_text(s.summary)
        },
        (ReleasePhase::AwaitApproved, ReleaseEvent::Approved(today)) => {
            &&& same_options(s, ns)
            &&& ns.from_revision@ == s.from_revision@ && ns.changelog@ == s.changelog@
            &&& if s.no_tag {
                ns.phase == ReleasePhase::Finished && ns.tag@ == s.tag@ && a == ReleaseAction::Stop(
                    ReleaseEnd::Released,
                )
            } else {
                match today {
                    None => ns.phase == ReleasePhase::Finished && ns.tag@ == s.tag@ && a
                        == ReleaseAction::Stop(ReleaseEnd::NoDate),
                    Some(t) => {
                        &&& ns.phase == ReleasePhase::AwaitTagged
                        &&& ns.tag@ == t@
                        &&& a matches ReleaseAction::CreateTag { revision, tag, message }
                            && revision@ == s.from_revision@ && tag@ == t@ && message@
                            == tag_message_text(t@, s.changelog@)
                    },
                }
            }
        },
        (ReleasePhase::AwaitTagged, ReleaseEvent::Tagged) => {
            same_record(s, ns) && ns.phase == ReleasePhase::AwaitPushConfirm && a is AskPush
        },
        (ReleasePhase::AwaitPushConfirm, ReleaseEvent::PushConfirmed(yes)) => {
            &&& same_record(s, ns)
            &&& if yes {
                &&& ns.phase == ReleasePhase::AwaitPushed
                &&& a matches ReleaseAction::PushTag { tag } && tag@ == s.tag@
            } else {
                ns.phase == ReleasePhase::Finished && a == ReleaseAction::Stop(ReleaseEnd::Released)
            }
        },
        (ReleasePhase::AwaitPushed, ReleaseEvent::Pushed) => {
            same_record(s, ns) && ns.phase == ReleasePhase::Finished && a == ReleaseAction::Stop(
                ReleaseEnd::Released,
            )
        },
        _ => same_record(s, ns) && ns.phase == s.phase && a == ReleaseAction::Stop(
            ReleaseEnd::OutOfOrder,
        ),
    }
}

fn copy_of(s: &str) -> (r: String)
    ensures
        r@ == s@,
{
    let mut r = String::new();
    push_str_chars(&mut r, s);
    r
}

/// One step of a release run.
pub fn release_step(state: ReleaseState, event: ReleaseEvent) -> (r: (ReleaseState, ReleaseAction))
    ensures
        release_step_ok(state, event, r.0, r.1),
{
    let ghost s = state;
    let ReleaseState { phase, no_tag, no_changelog, summary, from_revision, changelog, tag } =
        state;
    match (phase, event) {
        (ReleasePhase::AwaitRevisions, ReleaseEvent::Revisions(f, t)) => {
            if nothing_to_release(&f, &t) {
                let ns = ReleaseState {
                    phase: ReleasePhase::Finished,
                    no_tag,
                    no_changelog,
                    summary,
                    from_revision,
                    changelog,
                    tag,
                };
                (ns, ReleaseAction::Stop(ReleaseEnd::NothingToRelease))
            } else if no_changelog {
                let ns = ReleaseState {
                    phase: ReleasePhase::AwaitConfirm,
                    no_tag,
                    no_changelog,
                    summary,
                    from_revision: copy_of(f.revision_id.as_str()),
                    changelog: String::new(),
                    tag,
                };
                (ns, ReleaseAction::AskConfirm)
            } else {
                let ns = ReleaseState {
                    phase: ReleasePhase::AwaitChangelog,
                    no_tag,
                    no_changelog,
                    summary,
                    from_revision: copy_of(f.revision_id.as_str()),
                    changelog,
                    tag,
                };
                (ns, ReleaseAction::RenderChangelog)
            }
        },
        (ReleasePhase::AwaitChangelog, ReleaseEvent::Changelog(c)) => {
            let ns = ReleaseState {
                phase: ReleasePhase::AwaitConfirm,
                no_tag,
                no_changelog,
                summary,
                from_revision,
                changelog: c,
                tag,
            };
            (ns, ReleaseAction::AskConfirm)
        },
        (ReleasePhase::AwaitConfirm, ReleaseEvent::Confirmed(yes)) => {
            let next = if yes {
                ReleasePhase::AwaitApproval
            } else {
                ReleasePhase::Finished
            };
            let ns = ReleaseState {
                phase: next,
                no_tag,
                no_changelog,
                summary,
                from_revision,
                changelog,
                tag,
            };
            if yes {
                (ns, ReleaseAction::FindApproval)
            } else {
                (ns, ReleaseAction::Stop(ReleaseEnd::Aborted))
            }
        },
        (ReleasePhase::AwaitApproval, ReleaseEvent::ApprovalFound(p)) => {
            let text = match &summary {
                Some(t) => approval_summary(Some(t.as_str())),
                None => approval_summary(None),
            };
            let ns = ReleaseState {
                phase: ReleasePhase::AwaitApproved,
                no_tag,
                no_changelog,
                summary,
                from_revision,
                changelog,
                tag,
            };
            let PendingApproval { stage, action, token } = p;
            (ns, ReleaseAction::Approve { stage, action, token, summary: text })
        },
        (ReleasePhase::AwaitApproved, ReleaseEvent::Approved(today)) => {
            if no_tag {
                let ns = ReleaseState {
                    phase: ReleasePhase::Finished,
                    no_tag,
                    no_changelog,
                    summary,
                    from_revision,
                    changelog,
                    tag,
                };
                (ns, ReleaseAction::Stop(ReleaseEnd::Released))
            } else {
                match today {
                    None => {
                        let ns = ReleaseState {
                            phase: ReleasePhase::Finished,
                            no_tag,
                            no_changelog,
                            summary,
                            from_revision,
                            changelog,
                            tag,
                        };
                        (ns, ReleaseAction::Stop(ReleaseEnd::NoDate))
                    },
                    Some(name) => {
                        let message = tag_message(name.as_str(), changelog.as_str());
                        let revision = copy_of(from_revision.as_str());
                        let tag_copy = copy_of(name.as_str());
                        let ns = ReleaseState {
                            phase: ReleasePhase::AwaitTagged,
                            no_tag,
                            no_changelog,
                            summary,
                            from_revision,
                            changelog,
                            tag: name,
                        };
                        (ns, ReleaseAction::CreateTag { revision, tag: tag_copy, message })
                    },
                }
            }
        },
        (ReleasePhase::AwaitTagged, ReleaseEvent::Tagged) => {
            let ns = ReleaseState {
                phase: ReleasePhase::AwaitPushConfirm,
                no_tag,
                no_changelog,
                summary,
                from_revision,
                changelog,
                tag,
            };
            (ns, ReleaseAction::AskPush)
        },
        (ReleasePhase::AwaitPushConfirm, ReleaseEvent::PushConfirmed(yes)) => {
            if yes {
                let pushed = copy_of(tag.as_str());
                let ns = ReleaseState {
                    phase: ReleasePhase::AwaitPushed,
                    no_tag,
                    no_changelog,
                    summary,
                    from_revision,
                    changelog,
                    tag,
                };
                (ns, ReleaseAction::PushTag { tag: pushed })
            } else {
                let ns = ReleaseState {
                    phase: ReleasePhase::Finished,
                    no_tag,
                    no_changelog,
                    summary,
                    from_revision,
                    changelog,
                    tag,
                };
                (ns, ReleaseAction::Stop(ReleaseEnd::Released))
            }
        },
        (ReleasePhase::AwaitPushed, ReleaseEvent::Pushed) => {
            let ns = ReleaseState {
                phase: ReleasePhase::Finished,
                no_tag,
                no_changelog,
                summary,
                from_revision,
                changelog,
                tag,
            };
            (ns, ReleaseAction::Stop(ReleaseEnd::Released))
        },
        (phase, _) => {
            let ns = ReleaseState {
                phase,
                no_tag,
                no_changelog,
                summary,
                from_revision,
                changelog,
                tag,
            };
            (ns, ReleaseAction::Stop(ReleaseEnd::OutOfOrder))
        },
    }
}

} // verus!
