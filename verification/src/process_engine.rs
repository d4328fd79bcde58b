//! The process state machine and the dependency resolver. Pure rules: the
//! service layer applies them inside a database transaction.
//!
//! Transition matrix (rows: current status, columns: action):
//! ```text
//!               start    pause    resume   complete block    unblock  cancel
//! PENDING       -        -        -        -        -        -        x
//! READY         x        -        -        -        x        -        x
//! IN_PROGRESS   -        x        -        x        x        -        x
//! PAUSED        -        -        x        -        -        -        -
//! BLOCKED       -        -        -        -        -        x        -
//! COMPLETED     -        -        -        -        -        -        -
//! CANCELLED     -        -        -        -        -        -        -
//! ```
//! `unblock` returns to the status recorded when the execution was blocked,
//! so the matrix alone cannot answer it: see [`unblock_target`].

use vstd::prelude::*;
use crate::entities::{EventType, ProcessStatus};
use crate::errors::DomainError;
use crate::text::{join2, owned};

verus! {

/// Status changing actions, one per action endpoint.
#[derive(Debug, Clone, Copy, PartialEq, Eq, Structural)]
pub enum Transition {
    Start,
    Pause,
    Resume,
    Complete,
    Block,
    Unblock,
    Cancel,
}

impl Transition {
    pub open spec fn name(self) -> Seq<char> {
        match self {
            Transition::Start => "start"@,
            Transition::Pause => "pause"@,
            Transition::Resume => "resume"@,
            Transition::Complete => "complete"@,
            Transition::Block => "block"@,
            Transition::Unblock => "unblock"@,
            Transition::Cancel => "cancel"@,
        }
    }

    /// Lower-case action name, as used in the action URLs.
    pub fn as_str(&self) -> (r: &'static str)
        ensures
            r@ == self.name(),
    {
        match self {
            Transition::Start => "start",
            Transition::Pause => "pause",
            Transition::Resume => "resume",
            Transition::Complete => "complete",
            Transition::Block => "block",
            Transition::Unblock => "unblock",
            Transition::Cancel => "cancel",
        }
    }

    pub open spec fn spec_event(self) -> EventType {
        match self {
            Transition::Start => EventType::Started,
            Transition::Pause => EventType::Paused,
            Transition::Resume => EventType::Resumed,
            Transition::Complete => EventType::Completed,
            Transition::Block => EventType::Blocked,
            Transition::Unblock => EventType::Unblocked,
            Transition::Cancel => EventType::Cancelled,
        }
    }

    /// The event that the action records in the execution's event log.
    pub fn event_type(&self) -> (r: EventType)
        ensures
            r == self.spec_event(),
    {
        match self {
            Transition::Start => EventType::Started,
            Transition::Pause => EventType::Paused,
            Transition::Resume => EventType::Resumed,
            Transition::Complete => EventType::Completed,
            Transition::Block => EventType::Blocked,
            Transition::Unblock => EventType::Unblocked,
            Transition::Cancel => EventType::Cancelled,
        }
    }

    /// Variant name, as the error messages spell it.
    pub open spec fn label(self) -> Seq<char> {
        match self {
            Transition::Start => "Start"@,
            Transition::Pause => "Pause"@,
            Transition::Resume => "Resume"@,
            Transition::Complete => "Complete"@,
            Transition::Block => "Block"@,
            Transition::Unblock => "Unblock"@,
            Transition::Cancel => "Cancel"@,
        }
    }

    fn label_str(&self) -> (r: &'static str)
        ensures
            r@ == self.label(),
    {
        match self {
            Transition::Start => "Start",
            Transition::Pause => "Pause",
            Transition::Resume => "Resume",
            Transition::Complete => "Complete",
            Transition::Block => "Block",
            Transition::Unblock => "Unblock",
            Transition::Cancel => "Cancel",
        }
    }
}

/// Variant name of a status, as the error messages spell it.
pub open spec fn status_label(s: ProcessStatus) -> Seq<char> {
    match s {
        ProcessStatus::Pending => "Pending"@,
        ProcessStatus::Ready => "Ready"@,
        ProcessStatus::InProgress => "InProgress"@,
        ProcessStatus::Paused => "Paused"@,
        ProcessStatus::Blocked => "Blocked"@,
        ProcessStatus::Completed => "Completed"@,
        ProcessStatus::Cancelled => "Cancelled"@,
    }
}

fn status_label_str(s: ProcessStatus) -> (r: &'static str)
    ensures
        r@ == status_label(s),
{
    match s {
        ProcessStatus::Pending => "Pending",
        ProcessStatus::Ready => "Ready",
        ProcessStatus::InProgress => "InProgress",
        ProcessStatus::Paused => "Paused",
        ProcessStatus::Blocked => "Blocked",
        ProcessStatus::Completed => "Completed",
        ProcessStatus::Cancelled => "Cancelled",
    }
}

/// Why a transition was refused.
#[derive(Debug, Clone, Copy, PartialEq, Eq, Structural)]
pub enum InvalidTransition {
    /// The action is not allowed from this status.
    Invalid { from: ProcessStatus, action: Transition },
    /// `unblock` is resolved by [`unblock_target`] with the recorded status.
    UnblockNeedsBefore,
    /// The recorded pre-block status is missing or not a valid target.
    InvalidUnblockTarget(Option<ProcessStatus>),
}

impl InvalidTransition {
    pub open spec fn spec_message(self) -> Seq<char> {
        match self {
            InvalidTransition::Invalid { from, action } =>
                action.label() + " aksiyonu "@ + status_label(from) + " durumundan uygulanamaz."@,
            InvalidTransition::UnblockNeedsBefore =>
                "unblock yalnızca BLOCKED durumundan ve kayıtlı önceki durum ile yapılır."@,
            InvalidTransition::InvalidUnblockTarget(None) => "Geçersiz unblock hedefi: None"@,
            InvalidTransition::InvalidUnblockTarget(Some(s)) =>
                "Geçersiz unblock hedefi: Some("@ + status_label(s) + ")"@,
        }
    }

    /// Human readable description of the refusal.
    pub fn message(&self) -> (r: String)
        ensures
            r@ == self.spec_message(),
    {
        match self {
            InvalidTransition::Invalid { from, action } => {
                let mut r = join2(action.label_str(), " aksiyonu ");
                r.append(status_label_str(*from));
                r.append(" durumundan uygulanamaz.");
                r
            },
            InvalidTransition::UnblockNeedsBefore => owned(
                "unblock yalnızca BLOCKED durumundan ve kayıtlı önceki durum ile yapılır.",
            ),
            InvalidTransition::InvalidUnblockTarget(None) => owned("Geçersiz unblock hedefi: None"),
            InvalidTransition::InvalidUnblockTarget(Some(s)) => {
                let mut r = join2("Geçersiz unblock hedefi: Some(", status_label_str(*s));
                r.append(")");
                r
            },
        }
    }
}

/// The cells of the transition matrix that move the state machine; `unblock`
/// is not among them.
pub open spec fn matrix_target(current: ProcessStatus, action: Transition) -> Option<ProcessStatus> {
    match (current, action) {
        (ProcessStatus::Ready, Transition::Start) => Some(ProcessStatus::InProgress),
        (ProcessStatus::InProgress, Transition::Pause) => Some(ProcessStatus::Paused),
        (ProcessStatus::Paused, Transition::Resume) => Some(ProcessStatus::InProgress),
        (ProcessStatus::InProgress, Transition::Complete) => Some(ProcessStatus::Completed),
        (ProcessStatus::Ready, Transition::Block) => Some(ProcessStatus::Blocked),
        (ProcessStatus::InProgress, Transition::Block) => Some(ProcessStatus::Blocked),
        (ProcessStatus::Pending, Transition::Cancel) => Some(ProcessStatus::Cancelled),
        (ProcessStatus::Ready, Transition::Cancel) => Some(ProcessStatus::Cancelled),
        (ProcessStatus::InProgress, Transition::Cancel) => Some(ProcessStatus::Cancelled),
        _ => None,
    }
}

/// Outcome of [`transition`]: the target and, for `block`, the status to
/// record for the later `unblock`.
pub open spec fn spec_transition(current: ProcessStatus, action: Transition) -> Result<
    (ProcessStatus, Option<ProcessStatus>),
    InvalidTransition,
> {
    match matrix_target(current, action) {
        Some(to) => Ok((to, if action == Transition::Block { Some(current) } else { None })),
        None => if current == ProcessStatus::Blocked && action == Transition::Unblock {
            Err(InvalidTransition::UnblockNeedsBefore)
        } else {
            Err(InvalidTransition::Invalid { from: current, action })
        },
    }
}

/// Applies the transition matrix: the new status and, for `block`, the status
/// that `unblock` will return to.
pub fn transition(current: ProcessStatus, action: Transition) -> (r: Result<
    (ProcessStatus, Option<ProcessStatus>),
    InvalidTransition,
>)
    ensures
        r == spec_transition(current, action),
{
    let next = match (current, action) {
        (ProcessStatus::Ready, Transition::Start) => ProcessStatus::InProgress,
        (ProcessStatus::InProgress, Transition::Pause) => ProcessStatus::Paused,
        (ProcessStatus::Paused, Transition::Resume) => ProcessStatus::InProgress,
        (ProcessStatus::InProgress, Transition::Complete) => ProcessStatus::Completed,
        (ProcessStatus::Ready, Transition::Block) => {
            return Ok((ProcessStatus::Blocked, Some(ProcessStatus::Ready)));
        },
        (ProcessStatus::InProgress, Transition::Block) => {
            return Ok((ProcessStatus::Blocked, Some(ProcessStatus::InProgress)));
        },
        (ProcessStatus::Blocked, Transition::Unblock) => {
            return Err(InvalidTransition::UnblockNeedsBefore);
        },
        (ProcessStatus::Pending, Transition::Cancel)
        | (ProcessStatus::Ready, Transition::Cancel)
        | (ProcessStatus::InProgress, Transition::Cancel) => ProcessStatus::Cancelled,
        _ => {
            return Err(InvalidTransition::Invalid { from: current, action });
        },
    };
    Ok((next, None))
}

/// Statuses that `unblock` may return to.
pub open spec fn is_unblock_target(s: ProcessStatus) -> bool {
    s == ProcessStatus::Ready || s == ProcessStatus::InProgress
}

pub open spec fn spec_unblock_target(before: Option<ProcessStatus>) -> Result<ProcessStatus, InvalidTransition> {
    match before {
        Some(s) => if is_unblock_target(s) {
            Ok(s)
        } else {
            Err(InvalidTransition::InvalidUnblockTarget(before))
        },
        None => Err(InvalidTransition::InvalidUnblockTarget(None)),
    }
}

/// `unblock`: the target is the status recorded when the execution was
/// blocked; it must be READY or IN_PROGRESS.
pub fn unblock_target(before: Option<ProcessStatus>) -> (r: Result<ProcessStatus, InvalidTransition>)
    ensures
        r == spec_unblock_target(before),
{
    match before {
        Some(ProcessStatus::Ready) => Ok(ProcessStatus::Ready),
        Some(ProcessStatus::InProgress) => Ok(ProcessStatus::InProgress),
        other => Err(InvalidTransition::InvalidUnblockTarget(other)),
    }
}

/// Every dependency has reached its required status.
pub open spec fn spec_dependencies_satisfied(deps: Seq<(ProcessStatus, ProcessStatus)>) -> bool {
    forall|i: int| 0 <= i < deps.len() ==> #[trigger] deps[i].0 == deps[i].1
}

/// A step with no dependency is free to start; adding a dependency keeps it
/// free exactly when that dependency has reached its required status; and one
/// dependency short of its required status, wherever it stands in the list,
/// holds the step back, so a PENDING step with it is not promoted.
pub proof fn lemma_every_dependency_counts(
    deps: Seq<(ProcessStatus, ProcessStatus)>,
    extra: (ProcessStatus, ProcessStatus),
    k: int,
)
    ensures
        spec_dependencies_satisfied(Seq::empty()),
        spec_dependencies_satisfied(deps.push(extra)) == (spec_dependencies_satisfied(deps) && extra.0 == extra.1),
        0 <= k < deps.len() && deps[k].0 != deps[k].1 ==> !spec_dependencies_satisfied(deps),
{
    let d = deps.push(extra);
    if spec_dependencies_satisfied(deps) && extra.0 == extra.1 {
        assert forall|i: int| 0 <= i < d.len() implies #[trigger] d[i].0 == d[i].1 by {
            if i < deps.len() {
                assert(d[i] == deps[i]);
            }
        }
    }
    if spec_dependencies_satisfied(d) {
        assert(d[deps.len() as int] == extra);
        assert forall|i: int| 0 <= i < deps.len() implies #[trigger] deps[i].0 == deps[i].1 by {
            assert(d[i] == deps[i]);
        }
    }
}

/// Are the step's dependencies met? Each pair is (actual status of the
/// execution depended on, required status). No dependency means met.
pub fn dependencies_satisfied(dependencies: &[(ProcessStatus, ProcessStatus)]) -> (r: bool)
    ensures
        r == spec_dependencies_satisfied(dependencies@),
{
    let n = dependencies.len();
    let mut i: usize = 0;
    while i < n
        invariant
            n == dependencies@.len(),
            i <= n,
            forall|j: int| 0 <= j < i ==> #[trigger] dependencies@[j].0 == dependencies@[j].1,
        decreases n - i,
    {
        let (actual, required) = dependencies[i];
        if actual != required {
            return false;
        }
        i = i + 1;
    }
    true
}

/// The resolver's decision: a PENDING execution whose dependencies are all met
/// moves to READY.
pub fn should_promote_to_ready(
    current: ProcessStatus,
    dependencies: &[(ProcessStatus, ProcessStatus)],
) -> (r: bool)
    ensures
        r == (current == ProcessStatus::Pending && spec_dependencies_satisfied(dependencies@)),
{
    current == ProcessStatus::Pending && dependencies_satisfied(dependencies)
}

/// The changes that one action makes to an execution: its new status, the
/// recorded pre-block status, which timestamps to stamp with the current
/// time, the event to append and whether downstream steps are re-resolved.
#[derive(Debug, Clone, Copy, PartialEq, Eq, Structural)]
pub struct TransitionPlan {
    pub new_status: ProcessStatus,
    pub status_before_block: Option<ProcessStatus>,
    pub stamp_ready_at: bool,
    pub stamp_started_at: bool,
    pub stamp_completed_at: bool,
    pub event_type: EventType,
    pub previous_status: ProcessStatus,
    pub promote_downstream: bool,
}

/// The new status and recorded pre-block status of an action: `unblock`
/// returns to the recorded status, every other action follows the matrix.
pub open spec fn spec_step(
    status: ProcessStatus,
    before: Option<ProcessStatus>,
    action: Transition,
) -> Result<(ProcessStatus, Option<ProcessStatus>), InvalidTransition> {
    if action == Transition::Unblock {
        match spec_unblock_target(before) {
            Ok(t) => Ok((t, None)),
            Err(e) => Err(e),
        }
    } else {
        spec_transition(status, action)
    }
}

/// Decides what an action does to an execution in `status` whose recorded
/// pre-block status is `before`. A refused action is a validation error that
/// carries the refusal's description.
pub fn plan_transition(
    status: ProcessStatus,
    before: Option<ProcessStatus>,
    action: Transition,
) -> (r: Result<TransitionPlan, DomainError>)
    ensures
        match spec_step(status, before, action) {
            Ok((to, b)) => r matches Ok(plan) && plan == (TransitionPlan {
                new_status: to,
                status_before_block: b,
                stamp_ready_at: to == ProcessStatus::Ready,
                stamp_started_at: action == Transition::Start,
                stamp_completed_at: action == Transition::Complete,
                event_type: action.spec_event(),
                previous_status: status,
                promote_downstream: action == Transition::Complete,
            }),
            Err(e) => r matches Err(DomainError::Validation { message }) && message@ == e.spec_message(),
        },
{
    let step = if action == Transition::Unblock {
        match unblock_target(before) {
            Ok(t) => Ok((t, None)),
            Err(e) => Err(e),
        }
    } else {
        transition(status, action)
    };
    match step {
        Ok((to, b)) => Ok(TransitionPlan {
            new_status: to,
            status_before_block: b,
            stamp_ready_at: to == ProcessStatus::Ready,
            stamp_started_at: action == Transition::Start,
            stamp_completed_at: action == Transition::Complete,
            event_type: action.event_type(),
            previous_status: status,
            promote_downstream: action == Transition::Complete,
        }),
        Err(e) => Err(DomainError::Validation { message: e.message() }),
    }
}

/// Consistency of an execution's status with its recorded pre-block status:
/// a status is recorded exactly while the execution is BLOCKED, and it is one
/// that `unblock` accepts.
pub open spec fn execution_consistent(status: ProcessStatus, before: Option<ProcessStatus>) -> bool {
    &&& (status == ProcessStatus::Blocked <==> before is Some)
    &&& (before matches Some(b) ==> is_unblock_target(b))
}

/// What each action does: start takes a READY step into work; pause and
/// resume move a step between IN_PROGRESS and PAUSED; complete finishes a
/// step in progress; block stops a READY or IN_PROGRESS step; cancel stops a
/// PENDING, READY or IN_PROGRESS step. Every other pair of status and action
/// (unblock among them, which needs the recorded status) is refused.
pub proof fn lemma_action_effects(status: ProcessStatus, action: Transition)
    ensures
        spec_transition(status, action) is Ok <==> {
            ||| action == Transition::Start && status == ProcessStatus::Ready
            ||| action == Transition::Pause && status == ProcessStatus::InProgress
            ||| action == Transition::Resume && status == ProcessStatus::Paused
            ||| action == Transition::Complete && status == ProcessStatus::InProgress
            ||| action == Transition::Block && (status == ProcessStatus::Ready || status == ProcessStatus::InProgress)
            ||| action == Transition::Cancel && (status == ProcessStatus::Pending || status == ProcessStatus::Ready
                || status == ProcessStatus::InProgress)
        },
        spec_transition(status, action) matches Ok((to, _)) ==> {
            &&& action == Transition::Start ==> to == ProcessStatus::InProgress
            &&& action == Transition::Pause ==> to == ProcessStatus::Paused
            &&& action == Transition::Resume ==> to == ProcessStatus::InProgress
            &&& action == Transition::Complete ==> to == ProcessStatus::Completed
            &&& action == Transition::Block ==> to == ProcessStatus::Blocked
            &&& action == Transition::Cancel ==> to == ProcessStatus::Cancelled
        },
{
}

/// COMPLETED and CANCELLED are final: every action is refused there.
pub proof fn lemma_terminal_states_frozen(status: ProcessStatus, action: Transition)
    requires
        status == ProcessStatus::Completed || status == ProcessStatus::Cancelled,
    ensures
        spec_transition(status, action) is Err,
        forall|before: Option<ProcessStatus>|
            execution_consistent(status, before) ==> #[trigger] spec_step(status, before, action) is Err,
{
}

/// Only `block` records a pre-block status, and it records the status it
/// left; `unblock` with that record returns exactly there.
pub proof fn lemma_block_then_unblock_restores(status: ProcessStatus, action: Transition)
    ensures
        spec_transition(status, action) matches Ok((to, b)) ==> {
            &&& (b is Some <==> action == Transition::Block)
            &&& (action == Transition::Block ==> to == ProcessStatus::Blocked && b == Some(status))
            &&& (b matches Some(x) ==> spec_unblock_target(b) == Ok::<ProcessStatus, InvalidTransition>(status))
        },
{
}

/// Every accepted action keeps the status and the recorded pre-block status
/// consistent.
pub proof fn lemma_step_preserves_consistency(
    status: ProcessStatus,
    before: Option<ProcessStatus>,
    action: Transition,
)
    requires
        execution_consistent(status, before),
    ensures
        spec_step(status, before, action) matches Ok((to, b)) ==> execution_consistent(to, b),
{
}

/// COMPLETED is reached only by completing an execution in progress, and an
/// execution leaves PENDING only by being cancelled (or promoted by the
/// dependency resolver, which is not an action).
pub proof fn lemma_completion_and_pending_exits(
    status: ProcessStatus,
    before: Option<ProcessStatus>,
    action: Transition,
)
    requires
        execution_consistent(status, before),
    ensures
        spec_step(status, before, action) matches Ok((to, b)) ==> {
            &&& (to == ProcessStatus::Completed ==> status == ProcessStatus::InProgress && action == Transition::Complete)
            &&& (status == ProcessStatus::Pending ==> to == ProcessStatus::Cancelled)
        },
{
}

} // verus!
