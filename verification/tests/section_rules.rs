use canli_atolye_backend::duration::Moment;
use canli_atolye_backend::errors::DomainError;
use canli_atolye_backend::section_plan::{
    check_clone_count, check_parent_project, check_section_delete, clone_subtree, leaves_under,
    BulkSectionRequest, CreateSectionRequest, NewSection, UpdateSectionRequest,
};
use canli_atolye_backend::sections::{build_tree, Section};

fn t0() -> Moment {
    Moment { secs: 1_700_000_000, nanos: 0 }
}

fn mk(id: u128, parent: Option<u128>, sort: i64) -> Section {
    Section {
        id,
        workspace_id: 0,
        project_id: 0,
        parent_id: parent,
        name: "x".to_string(),
        code: None,
        section_type: None,
        sort_order: sort,
        created_at: t0(),
        updated_at: t0(),
        deleted_at: None,
    }
}

fn named(id: u128, parent: Option<u128>, name: &str, sort: i64) -> Section {
    let mut s = mk(id, parent, sort);
    s.name = name.to_string();
    s.project_id = 77;
    s
}

fn message(e: DomainError) -> String {
    match e {
        DomainError::Validation { message } => message,
        DomainError::Conflict { message } => message,
        other => panic!("unexpected error {other:?}"),
    }
}

#[test]
fn tree_builds_hierarchy_and_surfaces_orphans() {
    let a = mk(1, None, 1);
    let a1 = mk(2, Some(1), 1);
    let deleted_parent = 3u128;
    let orphan = mk(4, Some(deleted_parent), 2);

    let list = vec![a, a1, orphan];
    let tree = build_tree(&list);
    assert_eq!(tree.total, 3);
    assert_eq!(tree.roots.len(), 2, "orphan kök seviyesinde görünmeli");
    assert_eq!(tree.children[tree.roots[0]].len(), 1);
    assert_eq!(list[tree.roots[0]].name, "x");
}

fn project() -> Vec<Section> {
    vec![
        named(10, None, "A Blok", 1),
        named(11, Some(10), "1. Kat", 1),
        named(12, Some(11), "Daire 1", 1),
        named(13, Some(11), "Daire 2", 2),
        named(14, Some(10), "Teras", 2),
        named(15, Some(12), "Mutfak", 1),
    ]
}

#[test]
fn clone_subtree_walks_breadth_first() {
    let all = project();
    let t = clone_subtree(&all[1], &all).expect("walk ends");
    let names: Vec<&str> = t.nodes().iter().map(|s| s.name.as_str()).collect();
    assert_eq!(names, vec!["1. Kat", "Daire 1", "Daire 2", "Mutfak"]);
    assert_eq!(t.len(), 4);
}

#[test]
fn clone_rows_copy_the_shape_into_each_copy() {
    let all = project();
    let t = clone_subtree(&all[1], &all).unwrap();
    assert!(t.fits(2, 5, &None));
    let rows: Vec<NewSection> = t.clone_rows(2, 9, 5, &None, &None);
    assert_eq!(rows.len(), 8);
    // copy 1
    assert_eq!(rows[0].name, "2. Kat");
    assert_eq!(rows[0].parent_id, Some(10));
    assert_eq!(rows[0].sort_order, 6);
    assert_eq!(rows[1].name, "Daire 1");
    assert_eq!(rows[1].parent_id, rows[0].id);
    assert_eq!(rows[2].parent_id, rows[0].id);
    assert_eq!(rows[3].name, "Mutfak");
    assert_eq!(rows[3].parent_id, rows[1].id);
    assert_eq!(rows[3].sort_order, 1);
    // copy 2
    assert_eq!(rows[4].name, "3. Kat");
    assert_eq!(rows[4].sort_order, 7);
    assert_eq!(rows[5].parent_id, rows[4].id);
    assert_eq!(rows[7].parent_id, rows[5].id);
    assert_ne!(rows[0].id, rows[4].id);
    for r in &rows {
        assert_eq!(r.project_id, 77);
        assert_eq!(r.workspace_id, 9);
        assert!(r.id.is_some());
    }
}

#[test]
fn clone_root_uses_format_and_code_format() {
    let all = project();
    let t = clone_subtree(&all[1], &all).unwrap();
    let nf = Some("Kat {n:2}/{n}".to_string());
    let cf = Some("K{n}".to_string());
    let rows = t.clone_rows(1, 9, 0, &nf, &cf);
    assert_eq!(rows[0].name, "Kat 01/1");
    assert_eq!(rows[0].code.as_deref(), Some("K1"));
    // only the plain `{n}` placeholder selects the format
    let rows = t.clone_rows(1, 9, 0, &Some("Kat {n:2}".to_string()), &None);
    assert_eq!(rows[0].name, "2. Kat");
    // a format without {n} falls back to the derived name
    let rows = t.clone_rows(1, 9, 0, &Some("Kat".to_string()), &None);
    assert_eq!(rows[0].name, "2. Kat");
    assert_eq!(rows[0].code, None);
}

#[test]
fn clone_limits() {
    assert_eq!(message(check_clone_count(0).unwrap_err()), "Kopya adedi 1 ile 50 arasında olmalı.");
    assert_eq!(message(check_clone_count(51).unwrap_err()), "Kopya adedi 1 ile 50 arasında olmalı.");
    assert!(check_clone_count(50).is_ok());
    let mut all = vec![named(1, None, "Kök", 1)];
    for i in 0..40u128 {
        all.push(named(100 + i, Some(1), "Daire", 1));
    }
    let t = clone_subtree(&all[0], &all).unwrap();
    assert_eq!(t.len(), 41);
    assert!(t.check_size(48).is_ok());
    assert_eq!(
        message(t.check_size(50).unwrap_err()),
        "İşlem çok büyük: 41 bölüm × 50 kopya. Parçalayarak deneyin."
    );
}

#[test]
fn circular_parents_have_no_subtree() {
    let all = vec![named(1, Some(2), "a", 1), named(2, Some(1), "b", 1)];
    assert!(clone_subtree(&all[0], &all).is_none());
    assert!(leaves_under(&all, &all[0]).is_none());
}

#[test]
fn clone_fit_refuses_overflowing_numbers() {
    let all = vec![named(1, None, "9223372036854775807 Kat", 1)];
    let t = clone_subtree(&all[0], &all).unwrap();
    assert!(!t.fits(1, 0, &None));
    assert!(t.fits(1, 0, &Some("Kat {n}".to_string())));
    assert!(!t.fits(1, i64::MAX, &Some("Kat {n}".to_string())));
}

#[test]
fn leaves_in_walk_order() {
    let all = project();
    let leaves = leaves_under(&all, &all[0]).unwrap();
    let names: Vec<&str> = leaves.iter().map(|s| s.name.as_str()).collect();
    assert_eq!(names, vec!["Teras", "Daire 2", "Mutfak"]);
    // a section without children is its own leaf
    let own = leaves_under(&all, &all[4]).unwrap();
    assert_eq!(own.len(), 1);
    assert_eq!(own[0].name, "Teras");
}

#[test]
fn bulk_generator_numbers_rows() {
    let req = BulkSectionRequest {
        parent_id: Some(10),
        start_index: 7,
        count: 3,
        name_format: "Daire {n}".to_string(),
        code_format: Some("D{n:3}".to_string()),
        section_type: Some("Daire".to_string()),
    };
    assert!(req.validate().is_ok());
    assert!(req.fits(4));
    let rows = req.rows(77, 9, 4);
    let names: Vec<&str> = rows.iter().map(|r| r.name.as_str()).collect();
    assert_eq!(names, vec!["Daire 7", "Daire 8", "Daire 9"]);
    assert_eq!(rows[2].code.as_deref(), Some("D009"));
    assert_eq!(rows[0].sort_order, 5);
    assert_eq!(rows[2].sort_order, 7);
    assert_eq!(rows[1].parent_id, Some(10));
    assert_eq!(rows[1].section_type.as_deref(), Some("Daire"));
    assert!(rows[1].id.is_none());
}

#[test]
fn bulk_generator_validation() {
    let mut req = BulkSectionRequest {
        parent_id: None,
        start_index: 1,
        count: 0,
        name_format: "Daire {n}".to_string(),
        code_format: None,
        section_type: None,
    };
    assert_eq!(message(req.validate().unwrap_err()), "Adet 1 ile 200 arasında olmalı.");
    req.count = 201;
    assert_eq!(message(req.validate().unwrap_err()), "Adet 1 ile 200 arasında olmalı.");
    req.count = 5;
    req.name_format = "Daire".to_string();
    assert_eq!(
        message(req.validate().unwrap_err()),
        "İsim formatı {n} içermelidir. Örn: \"Daire {n}\""
    );
}

#[test]
fn single_section_rules() {
    let req = CreateSectionRequest {
        name: "  Daire 3 ".to_string(),
        code: Some(" d-3 ".to_string()),
        section_type: Some("   ".to_string()),
        parent_id: Some(5),
    };
    let row = req.new_row(77, 9, 12).unwrap();
    assert_eq!(row.name, "Daire 3");
    assert_eq!(row.code.as_deref(), Some("D-3"));
    assert_eq!(row.section_type, None);
    assert_eq!(row.sort_order, 13);
    let blank = CreateSectionRequest { name: " ".to_string(), code: None, section_type: None, parent_id: None };
    assert_eq!(message(blank.new_row(77, 9, 0).unwrap_err()), "Bölüm adı zorunludur.");
    assert_eq!(message(check_parent_project(1, 2).unwrap_err()), "Üst bölüm aynı projede olmalıdır.");
    assert!(check_parent_project(2, 2).is_ok());
    assert_eq!(
        message(check_section_delete(2).unwrap_err()),
        "Bu bölümün alt bölümleri var; önce onları silin."
    );
    assert!(check_section_delete(0).is_ok());
}

#[test]
fn section_update_distinguishes_absent_and_null() {
    let mut existing = named(1, None, "Eski", 3);
    existing.code = Some("E".to_string());
    existing.section_type = Some("Kat".to_string());
    let later = Moment { secs: 1_800_000_000, nanos: 5 };
    let req = UpdateSectionRequest {
        name: Some(" Yeni ".to_string()),
        code: Some(None),
        section_type: None,
        sort_order: Some(9),
    };
    let s = req.apply(&existing, later).unwrap();
    assert_eq!(s.name, "Yeni");
    assert_eq!(s.code, None);
    assert_eq!(s.section_type.as_deref(), Some("Kat"));
    assert_eq!(s.sort_order, 9);
    assert_eq!(s.updated_at, later);
    assert_eq!(s.created_at, existing.created_at);
    let blank = UpdateSectionRequest { name: Some("  ".to_string()), code: None, section_type: None, sort_order: None };
    assert_eq!(message(blank.apply(&existing, later).unwrap_err()), "Bölüm adı boş olamaz.");
}
