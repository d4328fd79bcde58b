use canli_atolye_backend::auth::{generate_token, hash_password, hash_token, verify_password, check_login, session_expiry};
use canli_atolye_backend::duration::{Durations, Moment};
use canli_atolye_backend::entities::{ProcessStatus, Role};
use canli_atolye_backend::errors::DomainError;
use canli_atolye_backend::matrix::{matrix_cell, matrix_cols, matrix_rows, CellRow};
use canli_atolye_backend::operations::{
    attachment_uuid, block_event, check_attachment_delete, check_upload, file_added_event, logs_file,
    new_attachment,
};
use canli_atolye_backend::reports::{export_csv, performance_rows, work_item_summary, CompletedExecution, ExportRow};
use canli_atolye_backend::sections::Section;

fn at(sec: i64) -> Moment {
    Moment { secs: 1_700_000_000 + sec, nanos: 0 }
}

fn sec(id: u128, parent: Option<u128>, name: &str) -> Section {
    Section {
        id,
        workspace_id: 0,
        project_id: 1,
        parent_id: parent,
        name: name.to_string(),
        code: None,
        section_type: None,
        sort_order: 0,
        created_at: at(0),
        updated_at: at(0),
        deleted_at: None,
    }
}

fn message(e: DomainError) -> String {
    match e {
        DomainError::Validation { message } => message,
        DomainError::Conflict { message } => message,
        other => panic!("unexpected error {other:?}"),
    }
}

#[test]
fn matrix_rows_columns_and_labels() {
    let all = vec![
        sec(1, None, "A Blok"),
        sec(2, Some(1), "1. Kat"),
        sec(3, Some(1), "2. Kat"),
        sec(4, Some(2), "Daire 1"),
        sec(5, Some(2), "Daire 2"),
        sec(6, Some(3), "Daire 1"),
        sec(7, Some(3), "Daire X"),
        sec(8, Some(3), "Daire 3"),
    ];
    let rows = matrix_rows(1, &all).unwrap();
    assert_eq!(rows, vec![1, 2]);
    let cols = matrix_cols(&all, &rows);
    assert_eq!(cols.len(), 3);
    assert_eq!(cols[0].position, 1);
    assert_eq!(cols[0].label, "Daire 1");
    // a tie takes the first name in row order
    assert_eq!(cols[1].label, "Daire 2");
    assert_eq!(cols[2].label, "Daire 3");
    assert_eq!(cols[2].position, 3);
    assert_eq!(
        message(matrix_rows(4, &all).unwrap_err()),
        "Bu bölümün altında satır olacak bölüm yok."
    );
}

fn cell_row(item: u128, name: &str, status: ProcessStatus, end: Option<Moment>) -> CellRow {
    CellRow { work_item_id: item, work_item_name: name.to_string(), status, planned_end_at: end }
}

#[test]
fn matrix_cell_sums_up_items() {
    let rows = vec![
        cell_row(1, "Tezgah", ProcessStatus::Completed, None),
        cell_row(1, "Tezgah", ProcessStatus::InProgress, Some(at(50))),
        cell_row(2, "Dolap", ProcessStatus::Completed, Some(at(10))),
    ];
    let cell = matrix_cell(&rows, 99, at(100)).unwrap();
    assert_eq!(cell.status, "IN_PROGRESS");
    assert_eq!(cell.item_count, 2);
    assert_eq!(cell.label, "Dolap");
    assert_eq!(cell.section_id, 99);
    assert!(cell.late);
    let not_late = matrix_cell(&rows, 99, at(20)).unwrap();
    assert!(!not_late.late);
    assert!(matrix_cell(&[], 99, at(0)).is_none());
    let blocked = vec![
        cell_row(1, "Tezgah", ProcessStatus::Completed, None),
        cell_row(2, "Dolap", ProcessStatus::Blocked, None),
    ];
    assert_eq!(matrix_cell(&blocked, 1, at(0)).unwrap().status, "BLOCKED");
}

#[test]
fn dashboard_counts_each_item_once() {
    let items = vec![
        (1, ProcessStatus::Completed),
        (1, ProcessStatus::Completed),
        (2, ProcessStatus::InProgress),
        (2, ProcessStatus::Completed),
        (3, ProcessStatus::Blocked),
        (4, ProcessStatus::Ready),
    ];
    let late = vec![(2, Some(at(5)), ProcessStatus::InProgress), (2, Some(at(6)), ProcessStatus::Ready), (4, Some(at(500)), ProcessStatus::Ready)];
    let s = work_item_summary(&items, &late, at(100), 6, 2);
    assert_eq!(s.total, 6);
    assert_eq!(s.completed, 1);
    assert_eq!(s.in_progress, 1);
    assert_eq!(s.blocked, 1);
    assert_eq!(s.pending, 1);
    assert_eq!(s.late, 1);
    assert_eq!(s.completed_today, 2);
}

fn d(active: i64, waiting: Option<i64>, lead: Option<i64>) -> Durations {
    Durations { active_seconds: active, paused_seconds: 0, blocked_seconds: 0, lead_seconds: lead, waiting_seconds: waiting }
}

#[test]
fn performance_averages_per_template() {
    let completed = vec![
        CompletedExecution { execution_id: 1, template_id: 10, template_name: "Kesim".to_string() },
        CompletedExecution { execution_id: 2, template_id: 20, template_name: "Montaj".to_string() },
        CompletedExecution { execution_id: 3, template_id: 10, template_name: "Kesim".to_string() },
    ];
    let durs = vec![(1, d(100, Some(10), Some(120))), (3, d(51, None, Some(60))), (2, d(7, Some(1), None))];
    let rows = performance_rows(&completed, &durs).unwrap();
    assert_eq!(rows.len(), 2);
    assert_eq!(rows[0].template_id, 10);
    assert_eq!(rows[0].template_name, "Kesim");
    assert_eq!(rows[0].completed_count, 2);
    assert_eq!(rows[0].avg_active_seconds, Some(75));
    assert_eq!(rows[0].avg_waiting_seconds, Some(10));
    assert_eq!(rows[0].avg_lead_seconds, Some(90));
    assert_eq!(rows[1].avg_lead_seconds, None);
    let overflow = vec![(1, d(i64::MAX, None, None)), (3, d(1, None, None))];
    assert!(performance_rows(&completed, &overflow).is_none());
}

#[test]
fn csv_export_escapes_separators() {
    let rows = vec![ExportRow {
        path: "A Blok / Daire 1".to_string(),
        item: "Tezgah; mermer".to_string(),
        kind: "Tezgah".to_string(),
        priority: "HIGH".to_string(),
        processes: "Kesim: COMPLETED;Montaj: READY".to_string(),
    }];
    let csv = export_csv(&rows);
    assert_eq!(
        csv,
        "\u{FEFF}Bölüm;İş Kalemi;Tip;Öncelik;Süreçler\r\nA Blok / Daire 1;Tezgah, mermer;Tezgah;HIGH;Kesim: COMPLETED,Montaj: READY\r\n"
    );
}

#[test]
fn upload_gate_in_order() {
    assert_eq!(message(check_upload(0, "a.jpg", "image/jpeg").unwrap_err()), "Boş dosya yüklenemez.");
    assert_eq!(
        message(check_upload(10 * 1024 * 1024 + 1, "a.jpg", "image/jpeg").unwrap_err()),
        "Dosya boyutu 10 MB sınırını aşıyor."
    );
    assert_eq!(
        message(check_upload(10, "a.exe", "image/jpeg").unwrap_err()),
        "İzin verilmeyen dosya türü (jpg, png, webp, pdf, xlsx, dwg, dxf)."
    );
    assert_eq!(message(check_upload(10, "a.jpg", "text/html").unwrap_err()), "İzin verilmeyen içerik türü.");
    assert!(check_upload(10 * 1024 * 1024, "çizim.DWG", "application/acad").is_ok());
}

#[test]
fn attachment_record_and_events() {
    let a = new_attachment(0xab, 5, "PROCESS_EXECUTION", 77, "tezgah ölçü.jpg", "image/jpeg", 1234, at(0));
    assert_eq!(a.file_name, "tezgah_olcu.jpg");
    assert_eq!(a.size, 1234);
    let parts: Vec<&str> = a.storage_key.split('/').collect();
    assert_eq!(parts.len(), 3);
    assert_eq!(parts[0], "00000000-0000-0000-0000-0000000000ab");
    assert_eq!(parts[1].len(), 36);
    assert_eq!(parts[2], "tezgah_olcu.jpg");
    assert!(logs_file("PROCESS_EXECUTION"));
    assert!(!logs_file("SECTION"));
    let ev = file_added_event(&a, 5);
    assert_eq!(ev.process_execution_id, 77);
    assert_eq!(ev.note.as_deref(), Some("tezgah_olcu.jpg"));
    assert!(ev.metadata.unwrap().starts_with("{\"attachment_id\":\""));
    assert_eq!(attachment_uuid().len(), 36);
    assert!(matches!(check_attachment_delete(1, 2, Role::Worker), Err(DomainError::Forbidden)));
    assert!(check_attachment_delete(1, 2, Role::Admin).is_ok());
    assert!(check_attachment_delete(2, 2, Role::Viewer).is_ok());
}

#[test]
fn block_event_carries_reason() {
    let exec = canli_atolye_backend::executions::ProcessExecution {
        id: 1, workspace_id: 0, work_item_id: 0, process_template_id: 0, process_group_step_id: 0,
        status: ProcessStatus::InProgress, status_before_block: None, version: 0,
        assigned_user_id: None, assigned_team_id: Some(3), planned_start_at: None, planned_end_at: None,
        ready_at: None, started_at: None, completed_at: None, revision_no: 0, parent_execution_id: None,
        created_at: at(0), updated_at: at(0), deleted_at: None,
    };
    let ev = block_event(&exec, ProcessStatus::Blocked, 9, 0x10, "Malzeme yok");
    assert_eq!(ev.note.as_deref(), Some("Malzeme yok"));
    assert_eq!(ev.team_id, Some(3));
    assert_eq!(ev.metadata.as_deref(), Some(r#"{"reason_id":"00000000-0000-0000-0000-000000000010"}"#));
}

#[test]
fn password_roundtrip() {
    let hash = hash_password("s3cret-pass").unwrap();
    assert!(hash.starts_with("$argon2"));
    assert!(verify_password(&hash, "s3cret-pass"));
    assert!(!verify_password(&hash, "wrong"));
}

#[test]
fn malformed_hash_fails_closed() {
    assert!(!verify_password("not-a-hash", "x"));
    assert!(!verify_password("", ""));
    assert!(check_login(true, "plain-text", "plain-text").is_err());
}

#[test]
fn empty_password_still_hashes() {
    let hash = hash_password("").unwrap();
    assert!(hash.starts_with("$argon2"));
    assert!(verify_password(&hash, ""));
}

#[test]
fn token_hash_is_deterministic_and_not_plaintext() {
    let token = generate_token();
    let h1 = hash_token(&token);
    let h2 = hash_token(&token);
    assert_eq!(h1, h2);
    assert_ne!(h1, token);
    assert_eq!(h1.len(), 64);
}

#[test]
fn login_refusals_look_alike() {
    let hash = hash_password("dogru-sifre").unwrap();
    assert!(check_login(true, &hash, "dogru-sifre").is_ok());
    assert!(matches!(check_login(true, &hash, "yanlis"), Err(DomainError::InvalidCredentials)));
    assert!(matches!(check_login(false, &hash, "dogru-sifre"), Err(DomainError::InvalidCredentials)));
    assert_eq!(hash_token("abc"), "ba7816bf8f01cfea414140de5dae2223b00361a396177a9cb410ff61f20015ad");
    let exp = session_expiry(Moment { secs: 100, nanos: 7 }, 12);
    assert_eq!(exp, Moment { secs: 100 + 12 * 3600, nanos: 7 });
}
