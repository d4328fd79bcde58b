//! Process executions: the status changes an action or the dependency
//! resolver makes, the events recorded with them, assignment, planned
//! dates, revisions of completed work and the executions a process group
//! gives birth to. Storage reads and writes stay with the caller; every
//! decision and every value written is made here.

use vstd::prelude::*;
use crate::entities::{EventType, ProcessStatus, Role};
use crate::errors::{DomainError, validation, conflict, is_validation_err, is_conflict_err};
use crate::duration::Moment;
use crate::permissions::{Action, spec_can, can};
use crate::process_engine::{TransitionPlan, spec_dependencies_satisfied, should_promote_to_ready};
use crate::ids::{new_id, uuid_string, uuid_hyphenated};
use crate::text::{owned, join2};

verus! {

/// One run of one step of a process group on one work item.
#[derive(Debug, Clone, Copy)]
pub struct ProcessExecution {
    pub id: u128,
    pub workspace_id: u128,
    pub work_item_id: u128,
    pub process_template_id: u128,
    pub process_group_step_id: u128,
    pub status: ProcessStatus,
    pub status_before_block: Option<ProcessStatus>,
    pub version: i64,
    pub assigned_user_id: Option<u128>,
    pub assigned_team_id: Option<u128>,
    pub planned_start_at: Option<Moment>,
    pub planned_end_at: Option<Moment>,
    pub ready_at: Option<Moment>,
    pub started_at: Option<Moment>,
    pub completed_at: Option<Moment>,
    pub revision_no: i64,
    pub parent_execution_id: Option<u128>,
    pub created_at: Moment,
    pub updated_at: Moment,
    pub deleted_at: Option<Moment>,
}

/// A status change to write, guarded by the version the change was
/// decided on (optimistic locking).
#[derive(Debug, Clone, Copy)]
pub struct StatusPatch {
    pub status: ProcessStatus,
    pub status_before_block: Option<ProcessStatus>,
    pub ready_at: Option<Moment>,
    pub started_at: Option<Moment>,
    pub completed_at: Option<Moment>,
    pub expected_version: i64,
}

/// An event to append to an execution's history.
#[derive(Debug)]
pub struct NewEvent {
    pub process_execution_id: u128,
    pub event_type: EventType,
    pub previous_status: Option<ProcessStatus>,
    pub new_status: Option<ProcessStatus>,
    pub user_id: u128,
    pub team_id: Option<u128>,
    pub note: Option<String>,
    pub metadata: Option<String>,
}

/// `a` is strictly earlier than `b`.
pub open spec fn moment_before(a: Moment, b: Moment) -> bool {
    a.secs < b.secs || (a.secs == b.secs && a.nanos < b.nanos)
}

/// The refusal of a change written against a version that another change
/// replaced first.
pub open spec fn concurrent_change_message() -> Seq<char> {
    "Kayıt eşzamanlı değiştirildi; sayfayı yenileyip tekrar deneyin."@
}

/// A version-guarded write that changed no row lost the race to another
/// change.
pub fn check_write(rows_affected: u64) -> (r: Result<(), DomainError>)
    ensures
        r is Ok <==> rows_affected > 0,
        r is Err ==> is_conflict_err(r, concurrent_change_message()),
{
    if rows_affected == 0 {
        return Err(conflict("Kayıt eşzamanlı değiştirildi; sayfayı yenileyip tekrar deneyin."));
    }
    Ok(())
}

/// Whether `a` is strictly earlier than `b`.
pub fn is_before(a: Moment, b: Moment) -> (r: bool)
    ensures
        r == moment_before(a, b),
{
    a.secs < b.secs || (a.secs == b.secs && a.nanos < b.nanos)
}

fn when(stamp: bool, now: Moment) -> (r: Option<Moment>)
    ensures
        r == if stamp { Some(now) } else { None::<Moment> },
{
    if stamp {
        Some(now)
    } else {
        None
    }
}

fn keep_or(patch: Option<Moment>, old: Option<Moment>) -> (r: Option<Moment>)
    ensures
        r == if patch is Some { patch } else { old },
{
    if patch.is_some() {
        patch
    } else {
        old
    }
}

// ---------------------------------------------------------------------------
// Actions
// ---------------------------------------------------------------------------

/// The write that an accepted action makes: the planned status and
/// pre-block status, `now` on each timestamp the plan stamps, guarded by
/// the execution's current version.
pub fn status_patch(exec: &ProcessExecution, plan: &TransitionPlan, now: Moment) -> (p: StatusPatch)
    ensures
        p.status == plan.new_status,
        p.status_before_block == plan.status_before_block,
        p.ready_at == if plan.stamp_ready_at { Some(now) } else { None::<Moment> },
        p.started_at == if plan.stamp_started_at { Some(now) } else { None::<Moment> },
        p.completed_at == if plan.stamp_completed_at { Some(now) } else { None::<Moment> },
        p.expected_version == exec.version,
{
    StatusPatch {
        status: plan.new_status,
        status_before_block: plan.status_before_block,
        ready_at: when(plan.stamp_ready_at, now),
        started_at: when(plan.stamp_started_at, now),
        completed_at: when(plan.stamp_completed_at, now),
        expected_version: exec.version,
    }
}

/// The execution as it reads after the store accepted `patch`: status and
/// pre-block status replaced, a timestamp replaced only where the patch
/// sets one, the version one higher.
pub open spec fn patched(exec: ProcessExecution, patch: StatusPatch) -> ProcessExecution {
    ProcessExecution {
        status: patch.status,
        status_before_block: patch.status_before_block,
        ready_at: if patch.ready_at is Some { patch.ready_at } else { exec.ready_at },
        started_at: if patch.started_at is Some { patch.started_at } else { exec.started_at },
        completed_at: if patch.completed_at is Some { patch.completed_at } else { exec.completed_at },
        version: (exec.version + 1) as i64,
        ..exec
    }
}

/// The execution after the store accepted `patch`.
pub fn apply_patch(exec: &ProcessExecution, patch: &StatusPatch) -> (r: ProcessExecution)
    requires
        exec.version < i64::MAX,
    ensures
        r == patched(*exec, *patch),
{
    let mut updated = *exec;
    updated.status = patch.status;
    updated.status_before_block = patch.status_before_block;
    updated.ready_at = keep_or(patch.ready_at, exec.ready_at);
    updated.started_at = keep_or(patch.started_at, exec.started_at);
    updated.completed_at = keep_or(patch.completed_at, exec.completed_at);
    updated.version = exec.version + 1;
    updated
}

/// The event of an accepted action, by `actor_id`, attributed to the
/// execution's team.
pub fn transition_event(exec: &ProcessExecution, plan: &TransitionPlan, actor_id: u128, note: Option<String>) -> (e: NewEvent)
    ensures
        e == (NewEvent {
            process_execution_id: exec.id,
            event_type: plan.event_type,
            previous_status: Some(exec.status),
            new_status: Some(plan.new_status),
            user_id: actor_id,
            team_id: exec.assigned_team_id,
            note,
            metadata: None,
        }),
{
    NewEvent {
        process_execution_id: exec.id,
        event_type: plan.event_type,
        previous_status: Some(exec.status),
        new_status: Some(plan.new_status),
        user_id: actor_id,
        team_id: exec.assigned_team_id,
        note,
        metadata: None,
    }
}

/// Who may operate an execution: managers always; others when it is
/// assigned to them, or, when it is assigned to a team, if they belong to
/// that team (which the caller looks up).
#[derive(Debug, Clone, Copy, PartialEq, Eq, Structural)]
pub enum OperateCheck {
    Allowed,
    Denied,
    TeamMembership(u128),
}

/// Resource scoped permission for start/pause/block... on an execution.
pub fn operate_check(role: Role, actor_id: u128, exec: &ProcessExecution) -> (r: OperateCheck)
    ensures
        r == if spec_can(role, Action::UpdateWorkItem) {
            OperateCheck::Allowed
        } else if exec.assigned_user_id == Some(actor_id) {
            OperateCheck::Allowed
        } else {
            match exec.assigned_team_id {
                Some(t) => OperateCheck::TeamMembership(t),
                None => OperateCheck::Denied,
            }
        },
{
    if can(role, Action::UpdateWorkItem) {
        return OperateCheck::Allowed;
    }
    if exec.assigned_user_id == Some(actor_id) {
        return OperateCheck::Allowed;
    }
    match exec.assigned_team_id {
        Some(t) => OperateCheck::TeamMembership(t),
        None => OperateCheck::Denied,
    }
}

// ---------------------------------------------------------------------------
// Dependency resolver
// ---------------------------------------------------------------------------

/// The dependencies of `step` among rows `(step, actual status of the
/// execution depended on, required status)` below `n`, in order.
pub open spec fn deps_below(rows: Seq<(u128, ProcessStatus, ProcessStatus)>, step: u128, n: nat) -> Seq<(ProcessStatus, ProcessStatus)>
    decreases n,
{
    if n == 0 {
        Seq::empty()
    } else {
        let prev = deps_below(rows, step, (n - 1) as nat);
        if rows[n - 1].0 == step {
            prev.push((rows[n - 1].1, rows[n - 1].2))
        } else {
            prev
        }
    }
}

/// The dependencies of `step`.
pub open spec fn deps_of(rows: Seq<(u128, ProcessStatus, ProcessStatus)>, step: u128) -> Seq<(ProcessStatus, ProcessStatus)> {
    deps_below(rows, step, rows.len())
}

/// The execution is PENDING and every dependency of its step is met.
pub open spec fn promotes(exec: ProcessExecution, rows: Seq<(u128, ProcessStatus, ProcessStatus)>) -> bool {
    exec.status == ProcessStatus::Pending && spec_dependencies_satisfied(deps_of(rows, exec.process_group_step_id))
}

/// Indices below `n`, in order, of the executions that the resolver moves
/// to READY.
pub open spec fn promotable_below(execs: Seq<ProcessExecution>, rows: Seq<(u128, ProcessStatus, ProcessStatus)>, n: nat) -> Seq<int>
    decreases n,
{
    if n == 0 {
        Seq::empty()
    } else {
        let prev = promotable_below(execs, rows, (n - 1) as nat);
        if promotes(execs[n - 1], rows) {
            prev.push(n - 1)
        } else {
            prev
        }
    }
}

fn deps_for(rows: &[(u128, ProcessStatus, ProcessStatus)], step: u128) -> (r: Vec<(ProcessStatus, ProcessStatus)>)
    ensures
        r@ == deps_of(rows@, step),
{
    let mut r: Vec<(ProcessStatus, ProcessStatus)> = Vec::new();
    let mut i: usize = 0;
    while i < rows.len()
        invariant
            i <= rows@.len(),
            r@ == deps_below(rows@, step, i as nat),
        decreases rows@.len() - i,
    {
        let (s, actual, required) = rows[i];
        if s == step {
            r.push((actual, required));
        }
        i = i + 1;
    }
    r
}

/// The executions of a work item that the dependency resolver moves from
/// PENDING to READY, given the dependency rows of that work item.
pub fn promotable(execs: &[ProcessExecution], rows: &[(u128, ProcessStatus, ProcessStatus)]) -> (r: Vec<usize>)
    ensures
        r@.map_values(|i: usize| i as int) == promotable_below(execs@, rows@, execs@.len()),
        forall|k: int| 0 <= k < r@.len() ==> r@[k] < execs@.len(),
{
    let mut r: Vec<usize> = Vec::new();
    let mut i: usize = 0;
    while i < execs.len()
        invariant
            i <= execs@.len(),
            r@.map_values(|i: usize| i as int) == promotable_below(execs@, rows@, i as nat),
            forall|k: int| 0 <= k < r@.len() ==> r@[k] < i,
        decreases execs@.len() - i,
    {
        let deps = deps_for(rows, execs[i].process_group_step_id);
        if should_promote_to_ready(execs[i].status, deps.as_slice()) {
            r.push(i);
        }
        assert(r@.map_values(|i: usize| i as int) =~= promotable_below(execs@, rows@, (i + 1) as nat));
        i = i + 1;
    }
    r
}

/// The write that promotes a PENDING execution: READY, stamped `now`.
pub open spec fn spec_ready_patch(exec: ProcessExecution, now: Moment) -> StatusPatch {
    StatusPatch {
        status: ProcessStatus::Ready,
        status_before_block: None,
        ready_at: Some(now),
        started_at: None,
        completed_at: None,
        expected_version: exec.version,
    }
}

/// The promotion write for `exec`.
pub fn ready_patch(exec: &ProcessExecution, now: Moment) -> (p: StatusPatch)
    ensures
        p == spec_ready_patch(*exec, now),
{
    StatusPatch {
        status: ProcessStatus::Ready,
        status_before_block: None,
        ready_at: Some(now),
        started_at: None,
        completed_at: None,
        expected_version: exec.version,
    }
}

/// The event of a promotion to READY.
pub fn ready_event(exec: &ProcessExecution, actor_id: u128) -> (e: NewEvent)
    ensures
        e == (NewEvent {
            process_execution_id: exec.id,
            event_type: EventType::Ready,
            previous_status: Some(ProcessStatus::Pending),
            new_status: Some(ProcessStatus::Ready),
            user_id: actor_id,
            team_id: None,
            note: None,
            metadata: None,
        }),
{
    NewEvent {
        process_execution_id: exec.id,
        event_type: EventType::Ready,
        previous_status: Some(ProcessStatus::Pending),
        new_status: Some(ProcessStatus::Ready),
        user_id: actor_id,
        team_id: None,
        note: None,
        metadata: None,
    }
}

// ---------------------------------------------------------------------------
// Assignment
// ---------------------------------------------------------------------------

/// The first assignment of an unassigned execution is ASSIGNED; any later
/// one is ASSIGNEE_CHANGED.
pub open spec fn spec_assignment_event(exec: ProcessExecution) -> EventType {
    if exec.assigned_user_id is None && exec.assigned_team_id is None {
        EventType::Assigned
    } else {
        EventType::AssigneeChanged
    }
}

/// The event recorded when `actor_id` assigns the execution.
pub fn assignment_event(exec: &ProcessExecution, actor_id: u128, team_id: Option<u128>) -> (e: NewEvent)
    ensures
        e == (NewEvent {
            process_execution_id: exec.id,
            event_type: spec_assignment_event(*exec),
            previous_status: None,
            new_status: None,
            user_id: actor_id,
            team_id,
            note: None,
            metadata: None,
        }),
{
    let was_unassigned = exec.assigned_user_id.is_none() && exec.assigned_team_id.is_none();
    NewEvent {
        process_execution_id: exec.id,
        event_type: if was_unassigned {
            EventType::Assigned
        } else {
            EventType::AssigneeChanged
        },
        previous_status: None,
        new_status: None,
        user_id: actor_id,
        team_id,
        note: None,
        metadata: None,
    }
}

/// The execution after a new assignment (user and team both replaced).
pub fn with_assignee(exec: &ProcessExecution, user_id: Option<u128>, team_id: Option<u128>) -> (r: ProcessExecution)
    requires
        exec.version < i64::MAX,
    ensures
        r == (ProcessExecution {
            assigned_user_id: user_id,
            assigned_team_id: team_id,
            version: (exec.version + 1) as i64,
            ..*exec
        }),
{
    let mut updated = *exec;
    updated.assigned_user_id = user_id;
    updated.assigned_team_id = team_id;
    updated.version = exec.version + 1;
    updated
}

// ---------------------------------------------------------------------------
// Planned dates
// ---------------------------------------------------------------------------

/// A date field of a partial update: absent keeps the current value,
/// present (possibly empty) replaces it.
pub open spec fn updated_date(change: Option<Option<Moment>>, current: Option<Moment>) -> Option<Moment> {
    match change {
        Some(v) => v,
        None => current,
    }
}

/// The planned end lies before the planned start.
pub open spec fn dates_reversed(start: Option<Moment>, end: Option<Moment>) -> bool {
    start matches Some(s) && end matches Some(e) && moment_before(e, s)
}

/// The planned dates after a partial update; an end before the start is
/// refused.
pub fn resolve_planned_dates(
    exec: &ProcessExecution,
    planned_start_at: Option<Option<Moment>>,
    planned_end_at: Option<Option<Moment>>,
) -> (r: Result<(Option<Moment>, Option<Moment>), DomainError>)
    ensures
        ({
            let s = updated_date(planned_start_at, exec.planned_start_at);
            let e = updated_date(planned_end_at, exec.planned_end_at);
            &&& dates_reversed(s, e) ==> is_validation_err(r, "Planlanan bitiş, başlangıçtan önce olamaz."@)
            &&& !dates_reversed(s, e) ==> r == Ok::<(Option<Moment>, Option<Moment>), DomainError>((s, e))
        }),
{
    let new_start = match planned_start_at {
        Some(v) => v,
        None => exec.planned_start_at,
    };
    let new_end = match planned_end_at {
        Some(v) => v,
        None => exec.planned_end_at,
    };
    match (new_start, new_end) {
        (Some(s), Some(e)) => {
            if is_before(e, s) {
                return Err(validation("Planlanan bitiş, başlangıçtan önce olamaz."));
            }
        },
        _ => {},
    }
    Ok((new_start, new_end))
}

/// The execution with its new planned dates.
pub fn with_planned_dates(exec: &ProcessExecution, start: Option<Moment>, end: Option<Moment>) -> (r: ProcessExecution)
    requires
        exec.version < i64::MAX,
    ensures
        r == (ProcessExecution {
            planned_start_at: start,
            planned_end_at: end,
            version: (exec.version + 1) as i64,
            ..*exec
        }),
{
    let mut updated = *exec;
    updated.planned_start_at = start;
    updated.planned_end_at = end;
    updated.version = exec.version + 1;
    updated
}

/// The event recorded with new planned dates.
pub fn planned_dates_event(exec: &ProcessExecution, actor_id: u128) -> (e: NewEvent)
    ensures
        e.process_execution_id == exec.id,
        e.event_type == EventType::PlannedDateChanged,
        e.previous_status is None,
        e.new_status is None,
        e.user_id == actor_id,
        e.team_id is None,
        e.note matches Some(n) && n@ == "Plan tarihleri güncellendi"@,
        e.metadata is None,
{
    NewEvent {
        process_execution_id: exec.id,
        event_type: EventType::PlannedDateChanged,
        previous_status: None,
        new_status: None,
        user_id: actor_id,
        team_id: None,
        note: Some(owned("Plan tarihleri güncellendi")),
        metadata: None,
    }
}

/// Which executions a bulk planning request covers.
#[derive(Debug)]
pub enum PlanTargets {
    /// The active executions of a template within the project.
    Template(u128),
    /// The listed executions.
    Executions(Vec<u128>),
}

/// A bulk planning request names a template or a list of executions (the
/// template wins when both are given).
pub fn plan_targets(template_id: Option<u128>, execution_ids: &Option<Vec<u128>>) -> (r: Result<PlanTargets, DomainError>)
    ensures
        template_id matches Some(t) ==> r matches Ok(PlanTargets::Template(x)) && x == t,
        template_id is None ==> (execution_ids matches Some(ids) ==> (r matches Ok(PlanTargets::Executions(v)) && v@ == ids@)),
        (template_id is None && execution_ids is None) ==> is_validation_err(r, "template_id veya execution_ids gerekli."@),
{
    match template_id {
        Some(t) => Ok(PlanTargets::Template(t)),
        None => match execution_ids {
            Some(ids) => Ok(PlanTargets::Executions(ids.clone())),
            None => Err(validation("template_id veya execution_ids gerekli.")),
        },
    }
}

/// Dates given for a bulk plan: an end before the start is refused when
/// both are set.
pub fn check_bulk_dates(planned_start_at: Option<Option<Moment>>, planned_end_at: Option<Option<Moment>>) -> (r: Result<(), DomainError>)
    ensures
        (planned_start_at matches Some(Some(s)) && planned_end_at matches Some(Some(e)) && moment_before(e, s))
            ==> is_validation_err(r, "Planlanan bitiş, başlangıçtan önce olamaz."@),
        !(planned_start_at matches Some(Some(s)) && planned_end_at matches Some(Some(e)) && moment_before(e, s))
            ==> r is Ok,
{
    match (planned_start_at, planned_end_at) {
        (Some(Some(s)), Some(Some(e))) => {
            if is_before(e, s) {
                return Err(validation("Planlanan bitiş, başlangıçtan önce olamaz."));
            }
        },
        _ => {},
    }
    Ok(())
}

// ---------------------------------------------------------------------------
// Revisions
// ---------------------------------------------------------------------------

/// Only a COMPLETED execution is reopened, and only while its step has no
/// other execution still running.
pub fn check_reopenable(status: ProcessStatus, open_revisions: i64) -> (r: Result<(), DomainError>)
    ensures
        status != ProcessStatus::Completed ==> is_validation_err(
            r,
            "Yalnızca tamamlanmış süreçler yeniden açılabilir."@,
        ),
        (status == ProcessStatus::Completed && open_revisions > 0) ==> is_conflict_err(
            r,
            "Bu adımın zaten aktif bir çalışması var."@,
        ),
        r is Ok <==> (status == ProcessStatus::Completed && open_revisions <= 0),
{
    if status != ProcessStatus::Completed {
        return Err(validation("Yalnızca tamamlanmış süreçler yeniden açılabilir."));
    }
    if open_revisions > 0 {
        return Err(conflict("Bu adımın zaten aktif bir çalışması var."));
    }
    Ok(())
}

/// The revision of a completed execution: a new PENDING execution of the
/// same step with the next revision number, pointing at the completed one
/// (which is kept), keeping its assignees and nothing else of its history.
pub open spec fn spec_revision(exec: ProcessExecution, id: u128, now: Moment) -> ProcessExecution {
    ProcessExecution {
        id,
        workspace_id: exec.workspace_id,
        work_item_id: exec.work_item_id,
        process_template_id: exec.process_template_id,
        process_group_step_id: exec.process_group_step_id,
        status: ProcessStatus::Pending,
        status_before_block: None,
        version: 0,
        assigned_user_id: exec.assigned_user_id,
        assigned_team_id: exec.assigned_team_id,
        planned_start_at: None,
        planned_end_at: None,
        ready_at: None,
        started_at: None,
        completed_at: None,
        revision_no: (exec.revision_no + 1) as i64,
        parent_execution_id: Some(exec.id),
        created_at: now,
        updated_at: now,
        deleted_at: None,
    }
}

/// The revision of `exec` under the identifier `id`, created `now`.
pub fn revision_with_id(exec: &ProcessExecution, id: u128, now: Moment) -> (r: ProcessExecution)
    requires
        exec.revision_no < i64::MAX,
    ensures
        r == spec_revision(*exec, id, now),
{
    ProcessExecution {
        id,
        workspace_id: exec.workspace_id,
        work_item_id: exec.work_item_id,
        process_template_id: exec.process_template_id,
        process_group_step_id: exec.process_group_step_id,
        status: ProcessStatus::Pending,
        status_before_block: None,
        version: 0,
        assigned_user_id: exec.assigned_user_id,
        assigned_team_id: exec.assigned_team_id,
        planned_start_at: None,
        planned_end_at: None,
        ready_at: None,
        started_at: None,
        completed_at: None,
        revision_no: exec.revision_no + 1,
        parent_execution_id: Some(exec.id),
        created_at: now,
        updated_at: now,
        deleted_at: None,
    }
}

/// The revision of `exec` under a fresh identifier.
pub fn revision_of(exec: &ProcessExecution, now: Moment) -> (r: ProcessExecution)
    requires
        exec.revision_no < i64::MAX,
    ensures
        r == spec_revision(*exec, r.id, now),
{
    revision_with_id(exec, new_id(), now)
}

/// The JSON object `{"<key>":"<uuid of x>"}`.
pub open spec fn id_metadata(key: Seq<char>, x: u128) -> Seq<char> {
    "{\""@ + key + "\":\""@ + uuid_hyphenated(x) + "\"}"@
}

fn id_metadata_text(key: &str, x: u128) -> (r: String)
    ensures
        r@ == id_metadata(key@, x),
{
    let mut m = owned("{\"");
    m.append(key);
    m.append("\":\"");
    let u = uuid_string(x);
    m.append(u.as_str());
    m.append("\"}");
    m
}

/// The two REOPENED events of a revision: on the reopened execution (which links to
/// the revision) and on the revision (which links to its parent), both
/// carrying the reason.
pub fn reopen_events(exec: &ProcessExecution, revision: &ProcessExecution, actor_id: u128, reason: &str) -> (r: (NewEvent, NewEvent))
    ensures
        r.0.process_execution_id == exec.id,
        r.0.event_type == EventType::Reopened,
        r.0.previous_status == Some(ProcessStatus::Completed),
        r.0.new_status is None,
        r.0.user_id == actor_id,
        r.0.team_id is None,
        r.0.note matches Some(n) && n@ == reason@,
        r.0.metadata matches Some(m) && m@ == id_metadata("new_execution_id"@, revision.id),
        r.1.process_execution_id == revision.id,
        r.1.event_type == EventType::Reopened,
        r.1.previous_status is None,
        r.1.new_status == Some(ProcessStatus::Pending),
        r.1.user_id == actor_id,
        r.1.team_id is None,
        r.1.note matches Some(n) && n@ == reason@,
        r.1.metadata matches Some(m) && m@ == id_metadata("parent_execution_id"@, exec.id),
{
    let on_reopened = NewEvent {
        process_execution_id: exec.id,
        event_type: EventType::Reopened,
        previous_status: Some(ProcessStatus::Completed),
        new_status: None,
        user_id: actor_id,
        team_id: None,
        note: Some(owned(reason)),
        metadata: Some(id_metadata_text("new_execution_id", revision.id)),
    };
    let on_revision = NewEvent {
        process_execution_id: revision.id,
        event_type: EventType::Reopened,
        previous_status: None,
        new_status: Some(ProcessStatus::Pending),
        user_id: actor_id,
        team_id: None,
        note: Some(owned(reason)),
        metadata: Some(id_metadata_text("parent_execution_id", exec.id)),
    };
    (on_reopened, on_revision)
}

// ---------------------------------------------------------------------------
// Group assignment
// ---------------------------------------------------------------------------

/// A step of a process group.
#[derive(Debug, Clone, Copy)]
pub struct ProcessGroupStep {
    pub id: u128,
    pub process_group_id: u128,
    pub process_template_id: u128,
    pub sort_order: i64,
    pub required: bool,
}

/// The fresh execution of `step` for a work item: PENDING, version and
/// revision 0, nothing assigned, planned or stamped.
pub open spec fn spec_new_execution(
    id: u128,
    workspace_id: u128,
    work_item_id: u128,
    step: ProcessGroupStep,
    now: Moment,
) -> ProcessExecution {
    ProcessExecution {
        id,
        workspace_id,
        work_item_id,
        process_template_id: step.process_template_id,
        process_group_step_id: step.id,
        status: ProcessStatus::Pending,
        status_before_block: None,
        version: 0,
        assigned_user_id: None,
        assigned_team_id: None,
        planned_start_at: None,
        planned_end_at: None,
        ready_at: None,
        started_at: None,
        completed_at: None,
        revision_no: 0,
        parent_execution_id: None,
        created_at: now,
        updated_at: now,
        deleted_at: None,
    }
}

/// One fresh execution per step of the group, in step order, each under a
/// fresh identifier.
pub fn new_executions(workspace_id: u128, work_item_id: u128, steps: &[ProcessGroupStep], now: Moment) -> (r: Vec<ProcessExecution>)
    ensures
        r@.len() == steps@.len(),
        forall|i: int| 0 <= i < steps@.len() ==> #[trigger] r@[i] == spec_new_execution(
            r@[i].id,
            workspace_id,
            work_item_id,
            steps@[i],
            now,
        ),
{
    let mut r: Vec<ProcessExecution> = Vec::new();
    let mut i: usize = 0;
    while i < steps.len()
        invariant
            i <= steps@.len(),
            r@.len() == i,
            forall|k: int| 0 <= k < i ==> #[trigger] r@[k] == spec_new_execution(
                r@[k].id,
                workspace_id,
                work_item_id,
                steps@[k],
                now,
            ),
        decreases steps@.len() - i,
    {
        let step = steps[i];
        r.push(ProcessExecution {
            id: new_id(),
            workspace_id,
            work_item_id,
            process_template_id: step.process_template_id,
            process_group_step_id: step.id,
            status: ProcessStatus::Pending,
            status_before_block: None,
            version: 0,
            assigned_user_id: None,
            assigned_team_id: None,
            planned_start_at: None,
            planned_end_at: None,
            ready_at: None,
            started_at: None,
            completed_at: None,
            revision_no: 0,
            parent_execution_id: None,
            created_at: now,
            updated_at: now,
            deleted_at: None,
        });
        i = i + 1;
    }
    r
}

/// The steps of a new group, in the given order and numbered from 1, each
/// under a fresh identifier: `(template, required)` per step.
pub fn new_group_steps(group_id: u128, steps: &[(u128, bool)]) -> (r: Vec<ProcessGroupStep>)
    requires
        steps@.len() < i64::MAX,
    ensures
        r@.len() == steps@.len(),
        forall|i: int| 0 <= i < steps@.len() ==> {
            &&& (#[trigger] r@[i]).process_group_id == group_id
            &&& r@[i].process_template_id == steps@[i].0
            &&& r@[i].required == steps@[i].1
            &&& r@[i].sort_order == i + 1
        },
{
    let mut r: Vec<ProcessGroupStep> = Vec::new();
    let mut i: usize = 0;
    while i < steps.len()
        invariant
            i <= steps@.len(),
            steps@.len() < i64::MAX,
            r@.len() == i,
            forall|k: int| 0 <= k < i ==> {
                &&& (#[trigger] r@[k]).process_group_id == group_id
                &&& r@[k].process_template_id == steps@[k].0
                &&& r@[k].required == steps@[k].1
                &&& r@[k].sort_order == k + 1
            },
        decreases steps@.len() - i,
    {
        let (template, required) = steps[i];
        r.push(ProcessGroupStep {
            id: new_id(),
            process_group_id: group_id,
            process_template_id: template,
            sort_order: (i + 1) as i64,
            required,
        });
        i = i + 1;
    }
    r
}

/// An assignment names a user or a team.
pub fn check_assign_target(user_id: Option<u128>, team_id: Option<u128>) -> (r: Result<(), DomainError>)
    ensures
        r is Ok <==> (user_id is Some || team_id is Some),
        r is Err ==> is_validation_err(r, "user_id veya team_id gerekli."@),
{
    if user_id.is_none() && team_id.is_none() {
        return Err(validation("user_id veya team_id gerekli."));
    }
    Ok(())
}

/// The CREATED event of an execution born from group `group_name`.
pub fn created_event(exec_id: u128, actor_id: u128, group_name: &str) -> (e: NewEvent)
    ensures
        e.process_execution_id == exec_id,
        e.event_type == EventType::Created,
        e.previous_status is None,
        e.new_status == Some(ProcessStatus::Pending),
        e.user_id == actor_id,
        e.team_id is None,
        e.note matches Some(n) && n@ == "Süreç grubu atandı: "@ + group_name@,
        e.metadata is None,
{
    NewEvent {
        process_execution_id: exec_id,
        event_type: EventType::Created,
        previous_status: None,
        new_status: Some(ProcessStatus::Pending),
        user_id: actor_id,
        team_id: None,
        note: Some(join2("Süreç grubu atandı: ", group_name)),
        metadata: None,
    }
}

/// A work item takes a process group only while it has no active one.
pub fn check_no_active_group(active: i64) -> (r: Result<(), DomainError>)
    ensures
        r is Ok <==> active <= 0,
        r is Err ==> is_conflict_err(r, "Bu iş kalemine zaten atanmış aktif bir süreç grubu var."@),
{
    if active > 0 {
        return Err(conflict("Bu iş kalemine zaten atanmış aktif bir süreç grubu var."));
    }
    Ok(())
}

/// The work items, in order, that have no live process yet.
pub open spec fn without_process(items: Seq<u128>, with_process: Seq<u128>) -> Seq<u128> {
    items.filter(|x: u128| !with_process.contains(x))
}

fn contains_id(ids: &[u128], x: u128) -> (r: bool)
    ensures
        r == ids@.contains(x),
{
    let mut i: usize = 0;
    while i < ids.len()
        invariant
            i <= ids@.len(),
            forall|k: int| 0 <= k < i ==> ids@[k] != x,
        decreases ids@.len() - i,
    {
        if ids[i] == x {
            assert(ids@[i as int] == x);
            return true;
        }
        i = i + 1;
    }
    false
}

/// The bulk assignment's targets: the work items under the leaves that have
/// no live process yet (assigning twice does nothing).
pub fn items_without_process(items: &[u128], with_process: &[u128]) -> (r: Vec<u128>)
    ensures
        r@ == without_process(items@, with_process@),
{
    let mut r: Vec<u128> = Vec::new();
    let mut i: usize = 0;
    while i < items.len()
        invariant
            i <= items@.len(),
            r@ == without_process(items@.subrange(0, i as int), with_process@),
        decreases items@.len() - i,
    {
        let x = items[i];
        proof {
            let pre = items@.subrange(0, i as int);
            assert(items@.subrange(0, i + 1) =~= pre.push(x));
            pre.lemma_filter_push(x, |x: u128| !with_process@.contains(x));
        }
        if !contains_id(with_process, x) {
            r.push(x);
        }
        i = i + 1;
    }
    assert(items@.subrange(0, items@.len() as int) =~= items@);
    r
}

// ---------------------------------------------------------------------------
// What the resolver and revisions keep
// ---------------------------------------------------------------------------

/// The resolver settles: an execution it promotes becomes READY with a
/// consistent (empty) pre-block record and its ready time stamped, and the
/// resolver never promotes it again.
pub proof fn lemma_promotion_settles(exec: ProcessExecution, rows: Seq<(u128, ProcessStatus, ProcessStatus)>, now: Moment)
    requires
        promotes(exec, rows),
        exec.version < i64::MAX,
    ensures
        patched(exec, spec_ready_patch(exec, now)).status == ProcessStatus::Ready,
        crate::process_engine::execution_consistent(
            patched(exec, spec_ready_patch(exec, now)).status,
            patched(exec, spec_ready_patch(exec, now)).status_before_block,
        ),
        patched(exec, spec_ready_patch(exec, now)).ready_at == Some(now),
        patched(exec, spec_ready_patch(exec, now)).version == exec.version + 1,
        !promotes(patched(exec, spec_ready_patch(exec, now)), rows),
{
}

/// A revision starts over: it is a consistent PENDING execution of the same
/// work item and step with the next revision number, linked to the
/// reopened execution, so the resolver may promote it like a newly assigned step.
pub proof fn lemma_revision_starts_over(exec: ProcessExecution, id: u128, now: Moment)
    requires
        exec.status == ProcessStatus::Completed,
        exec.revision_no < i64::MAX,
    ensures
        spec_revision(exec, id, now).status == ProcessStatus::Pending,
        crate::process_engine::execution_consistent(
            spec_revision(exec, id, now).status,
            spec_revision(exec, id, now).status_before_block,
        ),
        spec_revision(exec, id, now).revision_no == exec.revision_no + 1,
        spec_revision(exec, id, now).parent_execution_id == Some(exec.id),
        spec_revision(exec, id, now).work_item_id == exec.work_item_id,
        spec_revision(exec, id, now).process_group_step_id == exec.process_group_step_id,
        forall|rows: Seq<(u128, ProcessStatus, ProcessStatus)>|
            promotes(spec_revision(exec, id, now), rows) == spec_dependencies_satisfied(
                #[trigger] deps_of(rows, exec.process_group_step_id),
            ),
{
}

/// Assigning a group in bulk twice does nothing the second time: once the
/// work items it picked have a process, none of the items is picked again.
pub proof fn lemma_bulk_assignment_is_idempotent(items: Seq<u128>, with_process: Seq<u128>)
    ensures
        without_process(items, with_process + without_process(items, with_process)).len() == 0,
{
    broadcast use vstd::seq_lib::group_filter_ensures;

    let picked = without_process(items, with_process);
    let busy = with_process + picked;
    let again = without_process(items, busy);
    if again.len() > 0 {
        let x = again[0];
        assert(!busy.contains(x));
        items.lemma_filter_contains_rev(|y: u128| !busy.contains(y), x);
        let i = choose|i: int| 0 <= i < items.len() && items[i] == x;
        if with_process.contains(x) {
            let w = choose|w: int| 0 <= w < with_process.len() && with_process[w] == x;
            assert(busy[w] == x);
        } else {
            assert(picked.contains(items[i]));
            let w = choose|w: int| 0 <= w < picked.len() && picked[w] == x;
            assert(busy[with_process.len() + w] == x);
        }
    }
}

} // verus!
