use canli_atolye_backend::duration::{try_compute_durations, Durations, Moment, TimedEvent};
use canli_atolye_backend::entities::{EventType, ProcessStatus, Role};
use canli_atolye_backend::errors::DomainError;
use canli_atolye_backend::executions::{
    apply_patch, assignment_event, check_bulk_dates, check_no_active_group, check_reopenable,
    created_event, items_without_process, new_executions, operate_check, plan_targets,
    planned_dates_event, promotable, ready_event, ready_patch, reopen_events, resolve_planned_dates,
    revision_with_id, status_patch, transition_event, with_assignee, with_planned_dates,
    OperateCheck, PlanTargets, ProcessExecution, ProcessGroupStep,
};
use canli_atolye_backend::process_engine::{plan_transition, Transition};

fn at(sec: i64) -> Moment {
    Moment { secs: 1_700_000_000 + sec, nanos: 0 }
}

fn exec(id: u128, step: u128, status: ProcessStatus) -> ProcessExecution {
    ProcessExecution {
        id,
        workspace_id: 1,
        work_item_id: 2,
        process_template_id: 3,
        process_group_step_id: step,
        status,
        status_before_block: None,
        version: 4,
        assigned_user_id: None,
        assigned_team_id: None,
        planned_start_at: None,
        planned_end_at: None,
        ready_at: None,
        started_at: None,
        completed_at: None,
        revision_no: 0,
        parent_execution_id: None,
        created_at: at(0),
        updated_at: at(0),
        deleted_at: None,
    }
}

fn message(e: DomainError) -> String {
    match e {
        DomainError::Validation { message } => message,
        DomainError::Conflict { message } => message,
        other => panic!("unexpected error {other:?}"),
    }
}

#[test]
fn start_writes_status_timestamp_and_event() {
    let e = exec(9, 100, ProcessStatus::Ready);
    let plan = plan_transition(e.status, e.status_before_block, Transition::Start).unwrap();
    let patch = status_patch(&e, &plan, at(60));
    assert_eq!(patch.status, ProcessStatus::InProgress);
    assert_eq!(patch.started_at, Some(at(60)));
    assert_eq!(patch.ready_at, None);
    assert_eq!(patch.expected_version, 4);
    let after = apply_patch(&e, &patch);
    assert_eq!(after.status, ProcessStatus::InProgress);
    assert_eq!(after.started_at, Some(at(60)));
    assert_eq!(after.version, 5);
    let ev = transition_event(&e, &plan, 42, Some("başladı".to_string()));
    assert_eq!(ev.event_type, EventType::Started);
    assert_eq!(ev.previous_status, Some(ProcessStatus::Ready));
    assert_eq!(ev.new_status, Some(ProcessStatus::InProgress));
    assert_eq!(ev.user_id, 42);
    assert_eq!(ev.note.as_deref(), Some("başladı"));
}

#[test]
fn block_and_unblock_round_trip_through_patches() {
    let e = exec(9, 100, ProcessStatus::InProgress);
    let plan = plan_transition(e.status, e.status_before_block, Transition::Block).unwrap();
    let blocked = apply_patch(&e, &status_patch(&e, &plan, at(10)));
    assert_eq!(blocked.status, ProcessStatus::Blocked);
    assert_eq!(blocked.status_before_block, Some(ProcessStatus::InProgress));
    let plan = plan_transition(blocked.status, blocked.status_before_block, Transition::Unblock).unwrap();
    let back = apply_patch(&blocked, &status_patch(&blocked, &plan, at(20)));
    assert_eq!(back.status, ProcessStatus::InProgress);
    assert_eq!(back.status_before_block, None);
    assert_eq!(back.version, 6);
}

#[test]
fn refused_action_is_a_validation_error() {
    let e = exec(9, 100, ProcessStatus::Completed);
    assert!(matches!(
        plan_transition(e.status, e.status_before_block, Transition::Start),
        Err(DomainError::Validation { .. })
    ));
}

#[test]
fn resolver_promotes_pending_steps_with_met_dependencies() {
    let execs = vec![
        exec(1, 10, ProcessStatus::Pending),
        exec(2, 20, ProcessStatus::Pending),
        exec(3, 30, ProcessStatus::Ready),
        exec(4, 40, ProcessStatus::Pending),
    ];
    let rows = vec![
        (20, ProcessStatus::Completed, ProcessStatus::Completed),
        (40, ProcessStatus::InProgress, ProcessStatus::Completed),
        (40, ProcessStatus::Completed, ProcessStatus::Completed),
    ];
    assert_eq!(promotable(&execs, &rows), vec![0, 1]);
    let p = ready_patch(&execs[0], at(5));
    let promoted = apply_patch(&execs[0], &p);
    assert_eq!(promoted.status, ProcessStatus::Ready);
    assert_eq!(promoted.ready_at, Some(at(5)));
    let ev = ready_event(&execs[0], 7);
    assert_eq!(ev.event_type, EventType::Ready);
    assert_eq!(ev.previous_status, Some(ProcessStatus::Pending));
    // a second run finds nothing new for the promoted execution
    let again = vec![promoted];
    assert!(promotable(&again, &rows).is_empty());
}

#[test]
fn operate_permission_by_role_assignee_and_team() {
    let mut e = exec(1, 10, ProcessStatus::Ready);
    assert_eq!(operate_check(Role::ProjectManager, 5, &e), OperateCheck::Allowed);
    assert_eq!(operate_check(Role::Worker, 5, &e), OperateCheck::Denied);
    e.assigned_user_id = Some(5);
    assert_eq!(operate_check(Role::Worker, 5, &e), OperateCheck::Allowed);
    e.assigned_user_id = Some(6);
    e.assigned_team_id = Some(77);
    assert_eq!(operate_check(Role::Worker, 5, &e), OperateCheck::TeamMembership(77));
}

#[test]
fn first_assignment_differs_from_a_change() {
    let e = exec(1, 10, ProcessStatus::Ready);
    assert_eq!(assignment_event(&e, 9, Some(3)).event_type, EventType::Assigned);
    let assigned = with_assignee(&e, Some(8), Some(3));
    assert_eq!(assigned.version, 5);
    assert_eq!(assigned.assigned_user_id, Some(8));
    assert_eq!(assignment_event(&assigned, 9, None).event_type, EventType::AssigneeChanged);
}

#[test]
fn planned_dates_keep_absent_fields_and_refuse_reversed_ranges() {
    let mut e = exec(1, 10, ProcessStatus::Ready);
    e.planned_start_at = Some(at(100));
    let (s, end) = resolve_planned_dates(&e, None, Some(Some(at(200)))).unwrap();
    assert_eq!(s, Some(at(100)));
    assert_eq!(end, Some(at(200)));
    assert_eq!(
        message(resolve_planned_dates(&e, None, Some(Some(at(50)))).unwrap_err()),
        "Planlanan bitiş, başlangıçtan önce olamaz."
    );
    let (s, end) = resolve_planned_dates(&e, Some(None), Some(Some(at(50)))).unwrap();
    assert_eq!((s, end), (None, Some(at(50))));
    let updated = with_planned_dates(&e, s, end);
    assert_eq!(updated.version, 5);
    assert_eq!(updated.planned_end_at, Some(at(50)));
    let ev = planned_dates_event(&e, 3);
    assert_eq!(ev.event_type, EventType::PlannedDateChanged);
    assert_eq!(ev.note.as_deref(), Some("Plan tarihleri güncellendi"));
}

#[test]
fn bulk_planning_inputs() {
    assert!(matches!(plan_targets(Some(5), &Some(vec![1])), Ok(PlanTargets::Template(5))));
    match plan_targets(None, &Some(vec![1, 2])) {
        Ok(PlanTargets::Executions(v)) => assert_eq!(v, vec![1, 2]),
        _ => panic!("expected the listed executions"),
    }
    assert_eq!(message(plan_targets(None, &None).unwrap_err()), "template_id veya execution_ids gerekli.");
    assert!(check_bulk_dates(Some(Some(at(10))), Some(Some(at(5)))).is_err());
    assert!(check_bulk_dates(Some(None), Some(Some(at(5)))).is_ok());
}

#[test]
fn reopen_keeps_completed_run_and_starts_a_revision() {
    assert_eq!(
        message(check_reopenable(ProcessStatus::InProgress, 0).unwrap_err()),
        "Yalnızca tamamlanmış süreçler yeniden açılabilir."
    );
    assert_eq!(
        message(check_reopenable(ProcessStatus::Completed, 1).unwrap_err()),
        "Bu adımın zaten aktif bir çalışması var."
    );
    assert!(check_reopenable(ProcessStatus::Completed, 0).is_ok());
    let mut done = exec(0x0123_4567_89ab_cdef_0123_4567_89ab_cdef, 10, ProcessStatus::Completed);
    done.assigned_team_id = Some(4);
    done.completed_at = Some(at(99));
    let rev = revision_with_id(&done, 0xff, at(120));
    assert_eq!(rev.status, ProcessStatus::Pending);
    assert_eq!(rev.revision_no, 1);
    assert_eq!(rev.parent_execution_id, Some(done.id));
    assert_eq!(rev.assigned_team_id, Some(4));
    assert_eq!(rev.completed_at, None);
    assert_eq!(rev.version, 0);
    let (a, b) = reopen_events(&done, &rev, 7, "ölçü hatalı");
    assert_eq!(a.process_execution_id, done.id);
    assert_eq!(a.event_type, EventType::Reopened);
    assert_eq!(a.note.as_deref(), Some("ölçü hatalı"));
    assert_eq!(
        a.metadata.as_deref(),
        Some(r#"{"new_execution_id":"00000000-0000-0000-0000-0000000000ff"}"#)
    );
    assert_eq!(b.process_execution_id, 0xff);
    assert_eq!(b.new_status, Some(ProcessStatus::Pending));
    assert_eq!(
        b.metadata.as_deref(),
        Some(r#"{"parent_execution_id":"01234567-89ab-cdef-0123-456789abcdef"}"#)
    );
}

#[test]
fn group_assignment_births_pending_executions() {
    let steps = vec![
        ProcessGroupStep { id: 10, process_group_id: 1, process_template_id: 100, sort_order: 1, required: true },
        ProcessGroupStep { id: 20, process_group_id: 1, process_template_id: 200, sort_order: 2, required: false },
    ];
    let created = new_executions(5, 6, &steps, at(0));
    assert_eq!(created.len(), 2);
    assert_eq!(created[1].process_template_id, 200);
    assert_eq!(created[1].process_group_step_id, 20);
    assert!(created.iter().all(|e| e.status == ProcessStatus::Pending && e.version == 0));
    assert_ne!(created[0].id, created[1].id);
    let ev = created_event(created[0].id, 3, "Mutfak Akışı");
    assert_eq!(ev.note.as_deref(), Some("Süreç grubu atandı: Mutfak Akışı"));
    assert_eq!(ev.new_status, Some(ProcessStatus::Pending));
    assert_eq!(
        message(check_no_active_group(1).unwrap_err()),
        "Bu iş kalemine zaten atanmış aktif bir süreç grubu var."
    );
    assert_eq!(items_without_process(&[1, 2, 3, 2], &[2]), vec![1, 3]);
}

#[test]
fn durations_accept_a_leap_second() {
    let events = vec![
        TimedEvent { event_type: EventType::Started, timestamp: Moment { secs: 1_700_000_059, nanos: 1_500_000_000 }, new_status: None },
        TimedEvent { event_type: EventType::Completed, timestamp: at(100), new_status: None },
    ];
    let d: Durations = try_compute_durations(&events, at(1000)).unwrap();
    assert_eq!(d.active_seconds, 39);
}

#[test]
fn durations_refuse_out_of_range_instants() {
    let bad = vec![TimedEvent { event_type: EventType::Started, timestamp: Moment { secs: 0, nanos: 2_000_000_000 }, new_status: None }];
    assert!(try_compute_durations(&bad, at(10)).is_none());
    let ok = vec![
        TimedEvent { event_type: EventType::Created, timestamp: at(0), new_status: None },
        TimedEvent { event_type: EventType::Started, timestamp: at(10), new_status: None },
        TimedEvent { event_type: EventType::Completed, timestamp: at(40), new_status: None },
    ];
    let d: Durations = try_compute_durations(&ok, at(1000)).unwrap();
    assert_eq!(d.active_seconds, 30);
    assert_eq!(d.waiting_seconds, Some(10));
}
