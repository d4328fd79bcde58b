use canli_atolye_backend::aggregate::summarize_statuses;
use canli_atolye_backend::duration::{compute_durations, Moment, TimedEvent};
use canli_atolye_backend::entities::{EventType, ProcessStatus, ProcessStatus as S, Role};
use canli_atolye_backend::permissions::{can, Action};
use canli_atolye_backend::process_engine::{
    dependencies_satisfied, should_promote_to_ready, transition, unblock_target, Transition,
};

// --- permissions -----------------------------------------------------------

const ALL_ROLES: [Role; 5] = [
    Role::Admin,
    Role::ProjectManager,
    Role::TeamLeader,
    Role::Worker,
    Role::Viewer,
];

fn allowed_roles(action: Action) -> Vec<Role> {
    ALL_ROLES.into_iter().filter(|&r| can(r, action)).collect()
}

#[test]
fn workspace_user_team_management_admin_only() {
    for action in [Action::ManageWorkspace, Action::ManageUsers, Action::ManageTeams] {
        assert_eq!(allowed_roles(action), vec![Role::Admin], "{action:?}");
    }
}

#[test]
fn project_creation_admin_only() {
    assert_eq!(allowed_roles(Action::CreateProject), vec![Role::Admin]);
}

#[test]
fn project_update_admin_and_pm() {
    assert_eq!(allowed_roles(Action::UpdateProject), vec![Role::Admin, Role::ProjectManager]);
    assert_eq!(allowed_roles(Action::ArchiveProject), vec![Role::Admin, Role::ProjectManager]);
}

#[test]
fn work_item_management_admin_and_pm() {
    for action in [Action::CreateWorkItem, Action::UpdateWorkItem, Action::DeleteWorkItem] {
        assert_eq!(allowed_roles(action), vec![Role::Admin, Role::ProjectManager], "{action:?}");
    }
    assert_eq!(allowed_roles(Action::ViewWorkItems).len(), 5);
}

#[test]
fn workspace_catalogs_admin_only() {
    for action in [Action::ManageWorkItemTypes, Action::ManagePropertyDefinitions] {
        assert_eq!(allowed_roles(action), vec![Role::Admin], "{action:?}");
    }
}

#[test]
fn section_management_admin_and_pm() {
    for action in [Action::CreateSection, Action::UpdateSection, Action::DeleteSection] {
        assert_eq!(allowed_roles(action), vec![Role::Admin, Role::ProjectManager], "{action:?}");
    }
    assert_eq!(allowed_roles(Action::ViewSections).len(), 5);
}

#[test]
fn project_team_visibility_all_roles() {
    for action in [Action::ViewProjects, Action::ViewTeams] {
        assert_eq!(allowed_roles(action).len(), 5, "{action:?}");
    }
}

#[test]
fn worker_sees_but_never_manages() {
    assert!(can(Role::Worker, Action::ViewWorkItems));
    assert!(!can(Role::Worker, Action::UpdateWorkItem));
    assert!(!can(Role::TeamLeader, Action::CreateSection));
    assert!(!can(Role::Viewer, Action::ManageTeams));
}

// --- aggregate ---------------------------------------------------------------


#[test]
fn empty_means_no_process() {
    assert_eq!(summarize_statuses(&[]), None);
}

#[test]
fn priority_blocked_first() {
    assert_eq!(summarize_statuses(&[S::Completed, S::InProgress, S::Blocked]), Some(S::Blocked));
}

#[test]
fn in_progress_beats_lower() {
    assert_eq!(summarize_statuses(&[S::Pending, S::InProgress]), Some(S::InProgress));
    assert_eq!(summarize_statuses(&[S::Paused, S::InProgress]), Some(S::InProgress));
}

#[test]
fn paused_when_no_active() {
    assert_eq!(summarize_statuses(&[S::Paused, S::Pending]), Some(S::Paused));
}

#[test]
fn ready_when_waiting_ready() {
    assert_eq!(summarize_statuses(&[S::Ready, S::Pending]), Some(S::Ready));
}

#[test]
fn completed_only_when_all_done() {
    assert_eq!(summarize_statuses(&[S::Completed, S::Completed]), Some(S::Completed));
    assert_eq!(summarize_statuses(&[S::Completed, S::Pending]), Some(S::Pending));
}

#[test]
fn cancelled_ignored() {
    assert_eq!(summarize_statuses(&[S::Cancelled, S::Ready]), Some(S::Ready));
    assert_eq!(summarize_statuses(&[S::Cancelled]), Some(S::Cancelled));
}

#[test]
fn summary_ignores_order_and_repetition() {
    let a = summarize_statuses(&[S::Pending, S::Completed, S::Cancelled]);
    let b = summarize_statuses(&[S::Cancelled, S::Completed, S::Completed, S::Pending]);
    assert_eq!(a, b);
    assert_eq!(a, Some(S::Pending));
    assert_eq!(summarize_statuses(&[S::Completed, S::Cancelled]), Some(S::Completed));
}

// --- durations ---------------------------------------------------------------

fn at(sec: i64) -> Moment {
    Moment { secs: 1_700_000_000 + sec, nanos: 0 }
}

fn ev(t: EventType, sec: i64) -> TimedEvent {
    TimedEvent { event_type: t, timestamp: at(sec), new_status: None }
}

#[test]
fn active_plus_waiting_on_simple_flow() {
    let now = at(1000);
    let d = compute_durations(
        &[ev(EventType::Created, 0), ev(EventType::Ready, 0), ev(EventType::Started, 10), ev(EventType::Completed, 40)],
        now,
    );
    assert_eq!(d.active_seconds, 30);
    assert_eq!(d.lead_seconds, Some(30));
    assert_eq!(d.waiting_seconds, Some(10));
    assert_eq!(d.paused_seconds, 0);
}

#[test]
fn pause_excluded_from_active() {
    let now = at(1000);
    let d = compute_durations(
        &[ev(EventType::Started, 0), ev(EventType::Paused, 10), ev(EventType::Resumed, 25), ev(EventType::Completed, 40)],
        now,
    );
    assert_eq!(d.active_seconds, 25, "10 + 15");
    assert_eq!(d.paused_seconds, 15);
    assert_eq!(d.lead_seconds, Some(40));
}

#[test]
fn blocked_time_tracked_separately() {
    let now = at(1000);
    let d = compute_durations(
        &[ev(EventType::Started, 0), ev(EventType::Blocked, 10), ev(EventType::Unblocked, 40), ev(EventType::Started, 45), ev(EventType::Completed, 60)],
        now,
    );
    assert_eq!(d.blocked_seconds, 30);
    assert_eq!(d.active_seconds, 25, "0-10 ve 45-60");
}

#[test]
fn unblock_back_to_work_restarts_active_time() {
    let now = at(1000);
    let back = TimedEvent { event_type: EventType::Unblocked, timestamp: at(40), new_status: Some(ProcessStatus::InProgress) };
    let d = compute_durations(&[ev(EventType::Started, 0), ev(EventType::Blocked, 10), back, ev(EventType::Completed, 60)], now);
    assert_eq!(d.blocked_seconds, 30);
    assert_eq!(d.active_seconds, 30, "0-10 and 40-60");
    assert_eq!(d.lead_seconds, Some(60));
    let to_ready = TimedEvent { new_status: Some(ProcessStatus::Ready), ..back };
    let d = compute_durations(&[ev(EventType::Started, 0), ev(EventType::Blocked, 10), to_ready], now);
    assert_eq!(d.active_seconds, 10);
}

#[test]
fn still_running_counts_until_now() {
    let now = at(200);
    let d = compute_durations(&[ev(EventType::Started, 20)], now);
    assert_eq!(d.active_seconds, 180);
    assert_eq!(d.lead_seconds, None, "tamamlanmadı");
}

#[test]
fn paused_now_counts_until_now() {
    let now = at(100);
    let d = compute_durations(&[ev(EventType::Started, 0), ev(EventType::Paused, 30)], now);
    assert_eq!(d.active_seconds, 30);
    assert_eq!(d.paused_seconds, 70);
}

#[test]
fn non_state_events_ignored() {
    let now = at(1000);
    let d = compute_durations(
        &[ev(EventType::Started, 0), ev(EventType::NoteAdded, 5), ev(EventType::FileAdded, 8), ev(EventType::Completed, 20)],
        now,
    );
    assert_eq!(d.active_seconds, 20);
}

#[test]
fn sub_second_gaps_truncate_and_backwards_clocks_count_zero() {
    let start = Moment { secs: 100, nanos: 900_000_000 };
    let end = Moment { secs: 102, nanos: 100_000_000 };
    let d = compute_durations(
        &[TimedEvent { event_type: EventType::Started, timestamp: start, new_status: None }, TimedEvent { event_type: EventType::Completed, timestamp: end, new_status: None }],
        end,
    );
    assert_eq!(d.active_seconds, 1);
    let d = compute_durations(
        &[TimedEvent { event_type: EventType::Started, timestamp: end, new_status: None }, TimedEvent { event_type: EventType::Completed, timestamp: start, new_status: None }],
        end,
    );
    assert_eq!(d.active_seconds, 0);
    assert_eq!(d.lead_seconds, Some(0));
}

#[test]
fn cancelled_closes_intervals_without_counting() {
    let d = compute_durations(&[ev(EventType::Started, 0), ev(EventType::Cancelled, 50)], at(100));
    assert_eq!(d.active_seconds, 0);
    assert_eq!(d.lead_seconds, None);
    assert_eq!(d.waiting_seconds, None);
}

// --- process engine ------------------------------------------------------------

fn all_statuses() -> Vec<ProcessStatus> {
    vec![S::Pending, S::Ready, S::InProgress, S::Paused, S::Blocked, S::Completed, S::Cancelled]
}

const ALL_ACTIONS: [Transition; 7] = [
    Transition::Start,
    Transition::Pause,
    Transition::Resume,
    Transition::Complete,
    Transition::Block,
    Transition::Unblock,
    Transition::Cancel,
];

#[test]
fn transition_matrix_allowed_cells() {
    let allowed: Vec<(ProcessStatus, Transition, ProcessStatus)> = vec![
        (S::Ready, Transition::Start, S::InProgress),
        (S::InProgress, Transition::Pause, S::Paused),
        (S::Paused, Transition::Resume, S::InProgress),
        (S::InProgress, Transition::Complete, S::Completed),
        (S::Pending, Transition::Cancel, S::Cancelled),
        (S::Ready, Transition::Cancel, S::Cancelled),
        (S::InProgress, Transition::Cancel, S::Cancelled),
    ];
    for (from, action, expected) in allowed {
        let (to, before) = transition(from, action)
            .unwrap_or_else(|e| panic!("{from:?} + {action:?}: {}", e.message()));
        assert_eq!(to, expected, "{from:?} + {action:?}");
        assert!(before.is_none(), "status_before_block yalnız block'ta yazılır");
    }
    assert_eq!(transition(S::Ready, Transition::Block).unwrap(), (S::Blocked, Some(S::Ready)));
    assert_eq!(
        transition(S::InProgress, Transition::Block).unwrap(),
        (S::Blocked, Some(S::InProgress))
    );
}

#[test]
fn transition_matrix_rejects_everything_else() {
    let allowed_set: Vec<(ProcessStatus, Transition)> = vec![
        (S::Ready, Transition::Start),
        (S::InProgress, Transition::Pause),
        (S::Paused, Transition::Resume),
        (S::InProgress, Transition::Complete),
        (S::Ready, Transition::Block),
        (S::InProgress, Transition::Block),
        (S::Blocked, Transition::Unblock),
        (S::Pending, Transition::Cancel),
        (S::Ready, Transition::Cancel),
        (S::InProgress, Transition::Cancel),
    ];
    for from in all_statuses() {
        for action in ALL_ACTIONS {
            let cell = (from, action);
            if allowed_set.contains(&cell) {
                continue;
            }
            assert!(transition(from, action).is_err(), "{from:?} + {action:?} reddedilmeliydi");
        }
    }
}

#[test]
fn terminal_states_are_frozen() {
    for status in [S::Completed, S::Cancelled] {
        for action in ALL_ACTIONS {
            assert!(transition(status, action).is_err(), "{status:?} donmuş durum");
        }
    }
}

#[test]
fn unblock_returns_recorded_status() {
    assert_eq!(unblock_target(Some(S::Ready)).unwrap(), S::Ready);
    assert_eq!(unblock_target(Some(S::InProgress)).unwrap(), S::InProgress);
    assert!(unblock_target(None).is_err());
    assert!(unblock_target(Some(S::Completed)).is_err());
}

#[test]
fn dependency_resolver_scenarios() {
    assert!(dependencies_satisfied(&[]));
    assert!(should_promote_to_ready(S::Pending, &[]));
    assert!(should_promote_to_ready(S::Pending, &[(S::Completed, S::Completed)]));
    assert!(!should_promote_to_ready(S::Pending, &[(S::Pending, S::Completed)]));
    assert!(!should_promote_to_ready(S::Pending, &[(S::InProgress, S::Completed)]));
    assert!(!should_promote_to_ready(S::Pending, &[(S::Completed, S::Completed), (S::Ready, S::Completed)]));
    assert!(should_promote_to_ready(S::Pending, &[(S::Completed, S::Completed), (S::Completed, S::Completed)]));
    assert!(!should_promote_to_ready(S::Ready, &[]));
}

#[test]
fn action_event_mapping() {
    assert_eq!(Transition::Start.event_type(), EventType::Started);
    assert_eq!(Transition::Complete.event_type(), EventType::Completed);
    assert_eq!(Transition::Block.event_type(), EventType::Blocked);
}

#[test]
fn refusal_messages_name_action_and_status() {
    let e = transition(S::Paused, Transition::Start).unwrap_err();
    assert_eq!(e.message(), "Start aksiyonu Paused durumundan uygulanamaz.");
    let e = unblock_target(Some(S::Completed)).unwrap_err();
    assert_eq!(e.message(), "Geçersiz unblock hedefi: Some(Completed)");
    let e = transition(S::Blocked, Transition::Unblock).unwrap_err();
    assert!(e.message().starts_with("unblock yalnızca BLOCKED"));
}

#[test]
fn status_text_round_trips() {
    for s in all_statuses() {
        assert_eq!(ProcessStatus::from_text(s.as_str()), Ok(s));
    }
    assert_eq!(ProcessStatus::from_text("DONE"), Err("geçersiz ProcessStatus: DONE".to_string()));
    assert_eq!(Role::from_text("PROJECT_MANAGER"), Ok(Role::ProjectManager));
}
