use canli_atolye_backend::duration::Moment;
use canli_atolye_backend::executions::items_without_process;
use canli_atolye_backend::naming::{key_slug, sanitize_file_name, slugify, slugify_lowered};
use canli_atolye_backend::reports::{export_csv, ExportRow};
use canli_atolye_backend::section_plan::clone_subtree;
use canli_atolye_backend::sections::{build_tree, Section};
use canli_atolye_backend::work_items::bulk_items;

fn section(id: u128, parent: Option<u128>) -> Section {
    Section {
        id,
        workspace_id: 1,
        project_id: 2,
        parent_id: parent,
        name: format!("S{id}"),
        code: None,
        section_type: None,
        sort_order: 0,
        created_at: Moment { secs: 0, nanos: 0 },
        updated_at: Moment { secs: 0, nanos: 0 },
        deleted_at: None,
    }
}

#[test]
fn tree_shows_every_section_once() {
    let sections = vec![
        section(1, None),
        section(2, Some(1)),
        section(3, Some(2)),
        section(4, Some(99)),
        section(5, Some(1)),
    ];
    let tree = build_tree(&sections);
    let mut seen = vec![0; sections.len()];
    for &r in &tree.roots {
        seen[r] += 1;
    }
    for kids in &tree.children {
        for &k in kids {
            seen[k] += 1;
        }
    }
    assert_eq!(seen, vec![1, 1, 1, 1, 1]);
    assert_eq!(tree.roots, vec![0, 3]);
    assert_eq!(tree.children[0], vec![1, 4]);
}

#[test]
fn safe_file_names_hold_only_safe_characters() {
    for name in ["../../a b/c.exe", "._gizli_.", "çizim şema.DWG", "///", "a\\b:c*d?e"] {
        let safe = sanitize_file_name(name);
        assert!(!safe.is_empty());
        assert!(safe.chars().all(|c| c.is_ascii_alphanumeric() || matches!(c, '.' | '_' | '-')), "{safe}");
        assert!(!safe.starts_with('.') && !safe.starts_with('_'));
        assert!(!safe.ends_with('.') && !safe.ends_with('_'));
    }
    assert_eq!(sanitize_file_name("///"), "dosya");
}

#[test]
fn sanitizing_twice_changes_nothing() {
    for name in ["../../etc/passwd", "Şantiye Ölçüm.pdf", "_.gizli._", "", "a b/c.jpg"] {
        let once = sanitize_file_name(name);
        assert_eq!(sanitize_file_name(&once), once);
    }
}

#[test]
fn slugs_are_url_safe() {
    for name in ["  Çok -- Güzel  Atölye!! ", "---", "İstanbul/Şube 2", "a"] {
        let slug = slugify(name);
        assert!(!slug.is_empty());
        assert!(slug.chars().all(|c| c.is_ascii_alphanumeric() || c == '-'), "{slug}");
        assert!(!slug.starts_with('-') && !slug.ends_with('-'));
        assert!(!slug.contains("--"));
    }
    assert_eq!(slugify("  Çok -- Güzel  Atölye!! "), "cok-guzel-atolye");
}

#[test]
fn csv_fields_never_split_columns() {
    let rows = vec![ExportRow {
        path: "A; Blok / Kat;1".to_string(),
        item: "Tezgah;X".to_string(),
        kind: "Mutfak".to_string(),
        priority: "NORMAL".to_string(),
        processes: "Kesim: READY;İmalat: PENDING".to_string(),
    }];
    let csv = export_csv(&rows);
    let line = csv.split("\r\n").nth(1).unwrap();
    assert_eq!(line.matches(';').count(), 4);
    assert_eq!(line, "A, Blok / Kat,1;Tezgah,X;Mutfak;NORMAL;Kesim: READY,İmalat: PENDING");
}

#[test]
fn bulk_assignment_twice_adds_nothing() {
    let items = [1u128, 2, 3, 4];
    let busy = vec![2u128];
    let first = items_without_process(&items, &busy);
    assert_eq!(first, vec![1, 3, 4]);
    let mut after = busy.clone();
    after.extend(first);
    assert!(items_without_process(&items, &after).is_empty());
}

#[test]
fn bulk_items_twice_adds_nothing() {
    let leaves = vec![section(10, Some(1)), section(11, Some(1)), section(12, Some(1))];
    let taken = vec![(11u128, 9u128)];
    let first = bulk_items(&leaves, &taken, 1, 9, "Tezgah");
    assert_eq!(first.len(), 2);
    let mut occupied = taken.clone();
    occupied.extend(first.iter().map(|r| (r.section_id, r.work_item_type_id)));
    assert!(bulk_items(&leaves, &occupied, 1, 9, "Tezgah").is_empty());
}

#[test]
fn clone_walk_finishes_on_a_proper_tree() {
    // a deep chain listed backwards, plus side branches and a foreign parent
    let all = vec![
        section(6, Some(5)),
        section(5, Some(4)),
        section(4, Some(3)),
        section(3, Some(2)),
        section(2, Some(1)),
        section(1, None),
        section(7, Some(1)),
        section(8, Some(99)),
    ];
    for source in &all {
        assert!(clone_subtree(source, &all).is_some());
    }
    assert_eq!(clone_subtree(&all[5], &all).unwrap().len(), 7);
}

#[test]
fn slugging_a_slug_changes_nothing() {
    for lowered in ["  çok -- güzel  atölye!! ", "---", "a", "şube/2-b"] {
        let once = slugify_lowered(lowered);
        assert_eq!(slugify_lowered(&once), once);
    }
}

#[test]
fn slugs_are_lower_case_and_stable() {
    for name in ["ÇOK GÜZEL Atölye", "İSTANBUL/ŞUBE 2", "Kelvin \u{212A} Blok", "---", "abc-1"] {
        let slug = slugify(name);
        assert!(slug.chars().all(|c| c.is_ascii_lowercase() || c.is_ascii_digit() || c == '-'), "{slug}");
        assert_eq!(slugify(&slug), slug);
    }
    assert_eq!(slugify("abc-1"), "abc-1");
}

#[test]
fn property_keys_are_lower_case() {
    for name in ["Eviye TİPİ", "METRAJ (M)", "Ölçü-Ağırlık"] {
        let key = key_slug(name);
        assert!(key.chars().all(|c| c.is_ascii_lowercase() || c.is_ascii_digit() || c == '_'), "{key}");
    }
}
