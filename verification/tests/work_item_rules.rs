use canli_atolye_backend::duration::Moment;
use canli_atolye_backend::entities::{Priority, PropertyDataType, WorkItemStatus};
use canli_atolye_backend::errors::DomainError;
use canli_atolye_backend::sections::Section;
use canli_atolye_backend::work_items::{
    bulk_items, check_leaf_count, coerce_plain, Coerced, CreateWorkItemRequest, RawValue,
    UpdateWorkItemRequest, WorkItem,
};

fn at(sec: i64) -> Moment {
    Moment { secs: 1_700_000_000 + sec, nanos: 0 }
}

fn leaf(id: u128) -> Section {
    Section {
        id,
        workspace_id: 1,
        project_id: 2,
        parent_id: Some(1),
        name: format!("Daire {id}"),
        code: None,
        section_type: None,
        sort_order: 0,
        created_at: at(0),
        updated_at: at(0),
        deleted_at: None,
    }
}

fn message(e: DomainError) -> String {
    match e {
        DomainError::Validation { message } => message,
        other => panic!("unexpected error {other:?}"),
    }
}

#[test]
fn new_item_takes_type_name_when_unnamed() {
    let s = leaf(7);
    let req = CreateWorkItemRequest { section_id: 7, work_item_type_id: 3, name: Some("  ".to_string()), priority: None };
    let row = req.new_row(&s, 1, "Mutfak Tezgahı");
    assert_eq!(row.name, "Mutfak Tezgahı");
    assert_eq!(row.priority, Priority::Normal);
    assert_eq!(row.project_id, 2);
    let req = CreateWorkItemRequest { section_id: 7, work_item_type_id: 3, name: Some(" Ada ".to_string()), priority: Some(Priority::High) };
    let row = req.new_row(&s, 1, "Mutfak Tezgahı");
    assert_eq!(row.name, "Ada");
    assert_eq!(row.priority, Priority::High);
}

#[test]
fn bulk_items_skip_taken_leaves() {
    let leaves = vec![leaf(1), leaf(2), leaf(3)];
    let taken = vec![(2, 9), (3, 8)];
    let rows = bulk_items(&leaves, &taken, 1, 9, "Tezgah");
    let sections: Vec<u128> = rows.iter().map(|r| r.section_id).collect();
    assert_eq!(sections, vec![1, 3]);
    assert!(rows.iter().all(|r| r.name == "Tezgah" && r.work_item_type_id == 9 && r.priority == Priority::Normal));
    assert_eq!(message(check_leaf_count(0).unwrap_err()), "Bu bölümün altında yaprak bölüm yok.");
    assert_eq!(message(check_leaf_count(501).unwrap_err()), "Çok fazla yaprak bölüm (501 > 500).");
    assert!(check_leaf_count(500).is_ok());
}

#[test]
fn item_update_rules() {
    let existing = WorkItem {
        id: 1,
        workspace_id: 1,
        project_id: 2,
        section_id: 3,
        work_item_type_id: 4,
        name: "Eski".to_string(),
        code: Some("K1".to_string()),
        status: WorkItemStatus::Ready,
        priority: Priority::Low,
        planned_start_at: Some(at(5)),
        planned_end_at: None,
        created_at: at(0),
        updated_at: at(0),
        deleted_at: None,
    };
    let req = UpdateWorkItemRequest { name: None, priority: Some(Priority::Urgent), planned_start_at: None, planned_end_at: Some(at(50)) };
    let w = req.apply(&existing, at(60)).unwrap();
    assert_eq!(w.name, "Eski");
    assert_eq!(w.priority, Priority::Urgent);
    assert_eq!(w.planned_start_at, Some(at(5)));
    assert_eq!(w.planned_end_at, Some(at(50)));
    assert_eq!(w.updated_at, at(60));
    assert_eq!(w.code.as_deref(), Some("K1"));
    let blank = UpdateWorkItemRequest { name: Some(" ".to_string()), priority: None, planned_start_at: None, planned_end_at: None };
    assert_eq!(message(blank.apply(&existing, at(60)).unwrap_err()), "İş kalemi adı boş olamaz.");
}

#[test]
fn coerce_boolean_accepts_both_forms() {
    let b = coerce_plain(PropertyDataType::Boolean, "Test", &None, &RawValue::Bool(true)).unwrap();
    assert!(matches!(b, Coerced::Boolean(true)));
    let b = coerce_plain(PropertyDataType::Boolean, "Test", &None, &RawValue::Text("false".to_string())).unwrap();
    assert!(matches!(b, Coerced::Boolean(false)));
    let b = coerce_plain(PropertyDataType::Boolean, "Test", &None, &RawValue::Text("TRUE".to_string())).unwrap();
    assert!(matches!(b, Coerced::Boolean(true)));
    let e = coerce_plain(PropertyDataType::Boolean, "Test", &None, &RawValue::Number).unwrap_err();
    assert_eq!(message(e), "Özellik \"Test\" için geçersiz değer: true/false bekleniyor");
}

#[test]
fn coerce_boolean_refuses_other_words() {
    let b = coerce_plain(PropertyDataType::Boolean, "Test", &None, &RawValue::Text("FALSE".to_string())).unwrap();
    assert!(matches!(b, Coerced::Boolean(false)));
    let e = coerce_plain(PropertyDataType::Boolean, "Test", &None, &RawValue::Text("evet".to_string())).unwrap_err();
    assert_eq!(message(e), "Özellik \"Test\" için geçersiz değer: true/false bekleniyor");
}

#[test]
fn coerce_select_validates_options() {
    let opts = Some(r#"["Lamar","Arma","Quartz"]"#.to_string());
    let v = coerce_plain(PropertyDataType::Select, "Test", &opts, &RawValue::Text("Lamar".to_string())).unwrap();
    match v {
        Coerced::Text(t) => assert_eq!(t, "Lamar"),
        other => panic!("unexpected {other:?}"),
    }
    let e = coerce_plain(PropertyDataType::Select, "Test", &opts, &RawValue::Text("Bilinmeyen".to_string())).unwrap_err();
    assert_eq!(
        message(e),
        "Özellik \"Test\" için geçersiz değer: \"Bilinmeyen\" tanımlı seçeneklerden değil (Lamar, Arma, Quartz)"
    );
}

#[test]
fn coerce_null_clears_value() {
    let v = coerce_plain(PropertyDataType::Text, "Test", &None, &RawValue::Null).unwrap();
    assert!(matches!(v, Coerced::Clear));
}

#[test]
fn coerce_text_types_take_strings_only() {
    let v = coerce_plain(PropertyDataType::Text, "Test", &None, &RawValue::Text("Lamar Moon White".to_string())).unwrap();
    match v {
        Coerced::Text(t) => assert_eq!(t, "Lamar Moon White"),
        other => panic!("unexpected {other:?}"),
    }
    let e = coerce_plain(PropertyDataType::Date, "Test", &None, &RawValue::Bool(true)).unwrap_err();
    assert_eq!(message(e), "Özellik \"Test\" için geçersiz değer: metin bekleniyor");
    let n = coerce_plain(PropertyDataType::Decimal, "Test", &None, &RawValue::Text("abc".to_string())).unwrap();
    assert!(matches!(n, Coerced::Number));
}
