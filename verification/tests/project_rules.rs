use canli_atolye_backend::duration::{day_start, Moment};
use canli_atolye_backend::entities::ProjectStatus;
use canli_atolye_backend::errors::DomainError;
use canli_atolye_backend::executions::{check_assign_target, check_write, new_group_steps};
use canli_atolye_backend::requests::{
    archived, CreateTemplateRequest, LoginRequest, Project, UpdateProjectRequest,
};

fn at(secs: i64) -> Moment {
    Moment { secs, nanos: 0 }
}

fn sample_project() -> Project {
    Project {
        id: 7,
        workspace_id: 1,
        name: "Tekne".to_string(),
        code: "TK-1".to_string(),
        description: Some("ilk".to_string()),
        status: ProjectStatus::Draft,
        planned_start_date: Some(at(100)),
        planned_end_date: Some(at(200)),
        actual_start_date: None,
        actual_end_date: None,
        created_at: at(10),
        updated_at: at(10),
        deleted_at: None,
    }
}

fn validation_message(e: DomainError) -> String {
    match e {
        DomainError::Validation { message } => message,
        other => panic!("unexpected error {other:?}"),
    }
}

#[test]
fn project_update_refuses_end_before_start() {
    let req = UpdateProjectRequest {
        name: None,
        description: None,
        status: None,
        planned_start_date: Some(at(500)),
        planned_end_date: Some(at(400)),
    };
    assert_eq!(
        validation_message(req.patch().unwrap_err()),
        "Planlanan bitiş, başlangıçtan önce olamaz."
    );
}

#[test]
fn project_update_applies_only_given_fields() {
    let req = UpdateProjectRequest {
        name: Some("  Yeni Tekne ".to_string()),
        description: None,
        status: Some(ProjectStatus::Active),
        planned_start_date: None,
        planned_end_date: Some(at(300)),
    };
    let patch = req.patch().unwrap();
    let updated = patch.apply(&sample_project(), at(50));
    assert_eq!(updated.name, "Yeni Tekne");
    assert_eq!(updated.code, "TK-1");
    assert_eq!(updated.description.as_deref(), Some("ilk"));
    assert_eq!(updated.status, ProjectStatus::Active);
    assert_eq!(updated.planned_start_date, Some(at(100)));
    assert_eq!(updated.planned_end_date, Some(at(300)));
    assert_eq!(updated.updated_at, at(50));
    assert_eq!(updated.created_at, at(10));
}

#[test]
fn project_update_ignores_blank_name() {
    let req = UpdateProjectRequest {
        name: Some("   ".to_string()),
        description: Some("yeni".to_string()),
        status: None,
        planned_start_date: None,
        planned_end_date: None,
    };
    let patch = req.patch().unwrap();
    assert!(patch.name.is_none());
    let updated = patch.apply(&sample_project(), at(60));
    assert_eq!(updated.name, "Tekne");
    assert_eq!(updated.description.as_deref(), Some("yeni"));
    assert_eq!(updated.status, ProjectStatus::Draft);
}

#[test]
fn archiving_marks_project_deleted() {
    let a = archived(&sample_project(), at(90));
    assert_eq!(a.status, ProjectStatus::Archived);
    assert_eq!(a.deleted_at, Some(at(90)));
    assert_eq!(a.updated_at, at(90));
    assert_eq!(a.name, "Tekne");
    assert_eq!(a.planned_end_date, Some(at(200)));
}

#[test]
fn template_code_is_stored_upper_case() {
    let req = CreateTemplateRequest {
        name: " Kaynak ".to_string(),
        code: " kyn-01 ".to_string(),
        description: None,
    };
    let (name, code) = req.validate().unwrap();
    assert_eq!(name, "Kaynak");
    assert_eq!(code, "KYN-01");
    let blank = CreateTemplateRequest { name: "x".to_string(), code: " ".to_string(), description: None };
    assert_eq!(validation_message(blank.validate().unwrap_err()), "Şablon adı ve kodu zorunludur.");
}

#[test]
fn group_steps_are_numbered_from_one() {
    let steps = new_group_steps(9, &[(30, true), (31, false), (32, true)]);
    assert_eq!(steps.len(), 3);
    for (i, s) in steps.iter().enumerate() {
        assert_eq!(s.process_group_id, 9);
        assert_eq!(s.sort_order, i as i64 + 1);
    }
    assert_eq!(steps[1].process_template_id, 31);
    assert!(!steps[1].required);
    assert!(new_group_steps(9, &[]).is_empty());
}

#[test]
fn assignment_needs_a_user_or_a_team() {
    assert!(check_assign_target(Some(1), None).is_ok());
    assert!(check_assign_target(None, Some(2)).is_ok());
    assert_eq!(
        validation_message(check_assign_target(None, None).unwrap_err()),
        "user_id veya team_id gerekli."
    );
}

#[test]
fn login_looks_up_trimmed_lower_case_address() {
    let req = LoginRequest { email: "  Usta@Atolye.LOCAL ".to_string(), password: "x".to_string() };
    assert_eq!(req.lookup_email(), "usta@atolye.local");
}

#[test]
fn lost_version_race_is_a_conflict() {
    assert!(check_write(1).is_ok());
    match check_write(0) {
        Err(DomainError::Conflict { message }) => {
            assert_eq!(message, "Kayıt eşzamanlı değiştirildi; sayfayı yenileyip tekrar deneyin.")
        }
        other => panic!("unexpected {other:?}"),
    }
}

#[test]
fn day_start_is_midnight_utc() {
    // 2023-11-14T22:13:20Z
    assert_eq!(day_start(Moment { secs: 1_700_000_000, nanos: 5 }), Moment { secs: 1_699_920_000, nanos: 0 });
    assert_eq!(day_start(Moment { secs: 86_400, nanos: 0 }), Moment { secs: 86_400, nanos: 0 });
    assert_eq!(day_start(Moment { secs: -1, nanos: 0 }), Moment { secs: -86_400, nanos: 0 });
}
