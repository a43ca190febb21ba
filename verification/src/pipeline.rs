//! Decisions on the state of a deployment pipeline: which commit a stage
//! runs, and which manual approval is waiting.

use vstd::prelude::*;
use crate::error::{app_error_message, AppError};
use crate::keyset::{names_present, present_names, string_views};
use crate::text::{chars_eq, chars_of, push_str_chars, str_eq};

verus! {

/// The latest deployed commit of one stage.
#[derive(Clone, Debug)]
pub struct StageRevision {
    pub stage: String,
    pub execution_id: String,
    pub revision_id: String,
    pub revision_url: Option<String>,
    pub revision_summary: Option<String>,
}

/// A manual approval waiting in a stage, with what approving it needs.
#[derive(Clone, Debug)]
pub struct PendingApproval {
    pub stage: String,
    pub action: String,
    pub token: String,
}

/// The latest run of one action of a stage.
pub struct ActionExecution {
    /// Its status is "in progress".
    pub in_progress: bool,
    pub token: Option<String>,
}

/// One action of a stage.
pub struct ActionState {
    pub action_name: Option<String>,
    pub latest_execution: Option<ActionExecution>,
}

/// One stage of the pipeline's state.
pub struct StageState {
    pub stage_name: Option<String>,
    /// The id of the stage's latest pipeline execution.
    pub latest_execution_id: Option<String>,
    pub actions: Vec<ActionState>,
}

/// An artifact revision of a pipeline execution.
pub struct ArtifactRevision {
    pub revision_id: Option<String>,
    pub revision_url: Option<String>,
    pub revision_summary: Option<String>,
}

/// Whether action `a` is a manual approval waiting for an answer: its
/// latest execution is in progress and carries an approval token.
pub open spec fn awaits_approval(a: ActionState) -> bool {
    a.latest_execution matches Some(l) && l.in_progress && l.token is Some
        && a.action_name is Some
}

/// The approval found from action `i` on: the first action, in order,
/// that awaits an approval (actions that never ran, are not in progress
/// or carry no token are passed over).
pub open spec fn pending_from(stage: Seq<char>, acts: Seq<ActionState>, i: int) -> Option<
    (Seq<char>, Seq<char>, Seq<char>),
>
    decreases acts.len() - i,
{
    if i < 0 || i >= acts.len() {
        None
    } else if awaits_approval(acts[i]) {
        Some((stage, acts[i].action_name->0@, acts[i].latest_execution->0.token->0@))
    } else {
        pending_from(stage, acts, i + 1)
    }
}

/// The approval waiting in a stage, as (stage, action, token).
pub open spec fn pending_approval_spec(stage: StageState) -> Option<(Seq<char>, Seq<char>, Seq<char>)> {
    match stage.stage_name {
        None => None,
        Some(n) => pending_from(n@, stage.actions@, 0),
    }
}

/// The approval waiting in `stage`, if any.
pub fn find_pending_approval(stage: &StageState) -> (r: Option<PendingApproval>)
    ensures
        match r {
            Some(p) => pending_approval_spec(*stage) == Some((p.stage@, p.action@, p.token@)),
            None => pending_approval_spec(*stage) is None,
        },
{
    let name = match &stage.stage_name {
        Some(n) => n,
        None => return None,
    };
    let acts = &stage.actions;
    let mut i: usize = 0;
    while i < acts.len()
        invariant
            i <= acts@.len(),
            acts@ == stage.actions@,
            stage.stage_name == Some(*name),
            pending_from(name@, acts@, i as int) == pending_from(name@, acts@, 0),
        decreases acts@.len() - i,
    {
        let a = &acts[i];
        if let Some(l) = &a.latest_execution {
            if l.in_progress {
                if let (Some(t), Some(an)) = (&l.token, &a.action_name) {
                    return Some(
                        PendingApproval { stage: name.clone(), action: an.clone(), token: t.clone() },
                    );
                }
            }
        }
        i = i + 1;
    }
    None
}

/// Whether the stage is named `name`.
pub open spec fn stage_named(s: StageState, name: Seq<char>) -> bool {
    s.stage_name matches Some(n) && n@ == name
}

/// The first stage named `name`.
pub open spec fn stage_index(stages: Seq<StageState>, name: Seq<char>) -> Option<int> {
    if exists|i: int| 0 <= i < stages.len() && #[trigger] stage_named(stages[i], name) {
        Some(
            choose|i: int|
                0 <= i < stages.len() && #[trigger] stage_named(stages[i], name) && forall|j: int|
                    0 <= j < i ==> !stage_named(stages[j], name),
        )
    } else {
        None
    }
}

/// Index of the first stage named `name`.
pub fn find_stage(stages: &[StageState], name: &str) -> (r: Option<usize>)
    ensures
        match r {
            Some(i) => i < stages@.len() && stage_named(stages@[i as int], name@) && forall|j: int|
                0 <= j < i ==> !stage_named(stages@[j], name@),
            None => forall|i: int| 0 <= i < stages@.len() ==> !stage_named(stages@[i], name@),
        },
        match r {
            Some(i) => stage_index(stages@, name@) == Some(i as int),
            None => stage_index(stages@, name@) is None,
        },
{
    let mut i: usize = 0;
    while i < stages.len()
        invariant
            i <= stages@.len(),
            forall|j: int| 0 <= j < i ==> !stage_named(stages@[j], name@),
        decreases stages@.len() - i,
    {
        let hit = match &stages[i].stage_name {
            Some(n) => str_eq(n.as_str(), name),
            None => false,
        };
        if hit {
            proof {
                assert(stage_named(stages@[i as int], name@));
                let c = choose|c: int|
                    0 <= c < stages@.len() && #[trigger] stage_named(stages@[c], name@) && forall|
                        j: int,
                    | 0 <= j < c ==> !stage_named(stages@[j], name@);
                if c < i {
                } else if c > i {
                    assert(!stage_named(stages@[i as int], name@));
                }
            }
            return Some(i);
        }
        i = i + 1;
    }
    None
}

/// The stage names of the pipeline, in order.
pub fn stage_names(stages: &[StageState]) -> (r: Vec<String>)
    ensures
        r@.len() <= stages@.len(),
        string_views(r@) == present_names(
            Seq::new(stages@.len(), |i: int| stages@[i].stage_name),
        ),
{
    let mut names: Vec<Option<String>> = Vec::new();
    let mut i: usize = 0;
    while i < stages.len()
        invariant
            i <= stages@.len(),
            names@ == Seq::new(i as nat, |k: int| stages@[k].stage_name),
        decreases stages@.len() - i,
    {
        let n = match &stages[i].stage_name {
            Some(s) => Some(s.clone()),
            None => None,
        };
        names.push(n);
        assert(names@ =~= Seq::new((i + 1) as nat, |k: int| stages@[k].stage_name));
        i = i + 1;
    }
    let r = names_present(names);
    proof {
        lemma_present_len(Seq::new(stages@.len(), |k: int| stages@[k].stage_name));
    }
    r
}

proof fn lemma_present_len(s: Seq<Option<String>>)
    ensures
        present_names(s).len() <= s.len(),
    decreases s.len(),
{
    if s.len() > 0 {
        lemma_present_len(s.drop_last());
    }
}

/// Finds the waiting approval of stage `stage_name` of `pipeline`:
/// [`AppError::StageNotFound`] when no stage has that name,
/// [`AppError::NoPendingApproval`] when the stage has none waiting.
pub fn pending_approval(stages: &[StageState], stage_name: &str, pipeline: &str) -> (r: Result<
    PendingApproval,
    AppError,
>)
    ensures
        match r {
            Ok(p) => stage_index(stages@, stage_name@) matches Some(i) && pending_approval_spec(
                stages@[i],
            ) == Some((p.stage@, p.action@, p.token@)),
            Err(e) => match stage_index(stages@, stage_name@) {
                None => e matches AppError::StageNotFound(s, p) && s@ == stage_name@ && p@
                    == pipeline@,
                Some(i) => pending_approval_spec(stages@[i]) is None && (
                e matches AppError::NoPendingApproval(s) && s@ == stage_name@),
            },
        },
{
    match find_stage(stages, stage_name) {
        None => Err(AppError::StageNotFound(owned(stage_name), owned(pipeline))),
        Some(i) => match find_pending_approval(&stages[i]) {
            Some(p) => Ok(p),
            None => Err(AppError::NoPendingApproval(owned(stage_name))),
        },
    }
}

fn owned(s: &str) -> (r: String)
    ensures
        r@ == s@,
{
    let mut r = String::new();
    push_str_chars(&mut r, s);
    r
}

/// The execution whose revision a stage runs: the stage's latest
/// execution. The error is the message to report: the stage is not in the
/// pipeline, or it never ran.
pub fn stage_execution(stages: &[StageState], stage_name: &str, pipeline: &str) -> (r: Result<
    String,
    String,
>)
    ensures
        match stage_index(stages@, stage_name@) {
            None => r matches Err(m) && m@ == "pipeline stage '"@ + stage_name@
                + "' not found in pipeline '"@ + pipeline@ + "'"@,
            Some(i) => match stages@[i].latest_execution_id {
                Some(id) => r matches Ok(x) && x@ == id@,
                None => r matches Err(m) && m@ == "stage '"@ + stage_name@
                    + "' has no latest execution"@,
            },
        },
{
    match find_stage(stages, stage_name) {
        None => {
            let e = AppError::StageNotFound(owned(stage_name), owned(pipeline));
            Err(e.message())
        },
        Some(i) => match &stages[i].latest_execution_id {
            Some(id) => Ok(id.clone()),
            None => {
                let mut m = String::new();
                push_str_chars(&mut m, "stage '");
                push_str_chars(&mut m, stage_name);
                push_str_chars(&mut m, "' has no latest execution");
                Err(m)
            },
        },
    }
}

/// The revision of a stage from its execution's artifact revisions (the
/// first one counts); `None` when no execution came back. The error is the
/// message to report.
pub fn revision_from(
    stage_name: &str,
    execution_id: &str,
    revisions: Option<Vec<ArtifactRevision>>,
) -> (r: Result<StageRevision, String>)
    ensures
        match revisions {
            None => r matches Err(m) && m@ == "no pipeline execution returned for "@
                + execution_id@,
            Some(rs) => if rs@.len() == 0 {
                r matches Err(m) && m@ == "execution "@ + execution_id@
                    + " has no artifact revisions"@
            } else {
                match rs@[0].revision_id {
                    None => r matches Err(m) && m@ == "revision had no id"@,
                    Some(id) => r matches Ok(s) && s.stage@ == stage_name@ && s.execution_id@
                        == execution_id@ && s.revision_id@ == id@ && s.revision_url
                        == rs@[0].revision_url && s.revision_summary == rs@[0].revision_summary,
                }
            },
        },
{
    let rs = match revisions {
        None => {
            let mut m = String::new();
            push_str_chars(&mut m, "no pipeline execution returned for ");
            push_str_chars(&mut m, execution_id);
            return Err(m);
        },
        Some(rs) => rs,
    };
    if rs.len() == 0 {
        let mut m = String::new();
        push_str_chars(&mut m, "execution ");
        push_str_chars(&mut m, execution_id);
        push_str_chars(&mut m, " has no artifact revisions");
        return Err(m);
    }
    let mut rs = rs;
    let first = rs.remove(0);
    match first.revision_id {
        None => Err(owned("revision had no id")),
        Some(id) => Ok(
            StageRevision {
                stage: owned(stage_name),
                execution_id: owned(execution_id),
                revision_id: id,
                revision_url: first.revision_url,
                revision_summary: first.revision_summary,
            },
        ),
    }
}

} // verus!
