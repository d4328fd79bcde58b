use canli_atolye_backend::naming::{
    extension_allowed, key_slug, process_event_name, sanitize_file_name, slugify,
    strip_sqlite_prefix, LocalFileStorage,
};
use canli_atolye_backend::render::{derive_clone_name, render_format};

#[test]
fn sanitizes_turkish_and_unsafe_chars() {
    assert_eq!(sanitize_file_name("tezgah ölçü (1).jpg"), "tezgah_olcu__1_.jpg");
    assert_eq!(sanitize_file_name("../../etc/passwd"), "etc_passwd", "yol ayraçları alt çizgiye iner, içeriğe giremez");
    assert_eq!(sanitize_file_name("..."), "dosya");
    assert_eq!(sanitize_file_name("rapor-final_v2.PDF"), "rapor-final_v2.PDF");
}

#[test]
fn extension_gate() {
    assert!(extension_allowed("foto.JPG"));
    assert!(extension_allowed("cizim.dwg"));
    assert!(!extension_allowed("script.exe"));
    assert!(!extension_allowed("belge.doc"));
    assert!(!extension_allowed("sikistirilmis.zip"));
}

#[test]
fn extension_without_dot_is_the_whole_name() {
    assert!(extension_allowed("pdf"));
    assert!(!extension_allowed("rapor."));
}

#[test]
fn format_renders_sequence_and_padding() {
    assert_eq!(render_format("Daire {n}", 7), "Daire 7");
    assert_eq!(render_format("Daire {n:2}", 7), "Daire 07");
}

#[test]
fn format_pads_three_and_signs() {
    assert_eq!(render_format("K{n:3}-{n}", 5), "K005-5");
    assert_eq!(render_format("{n:3}", -5), "-05");
    assert_eq!(render_format("{n:2}", 123), "123");
    assert_eq!(render_format("Blok", 3), "Blok");
}

#[test]
fn clone_name_increments_leading_number_with_padding() {
    assert_eq!(derive_clone_name("1. Kat", 1), "2. Kat");
    assert_eq!(derive_clone_name("08 Kat", 1), "09 Kat");
    assert_eq!(derive_clone_name("010", 5), "015");
    assert_eq!(derive_clone_name("Kat 01", 3), "Kat 01 (kopya 3)");
}

#[test]
fn clone_name_falls_back_to_copy_suffix() {
    assert_eq!(derive_clone_name("A Blok", 1), "A Blok (kopya 1)");
    assert_eq!(derive_clone_name("Teras", 2), "Teras (kopya 2)");
}

#[test]
fn clone_name_with_oversized_number_restarts_from_zero() {
    assert_eq!(derive_clone_name("99999999999999999999 Kat", 4), "00000000000000000004 Kat");
    assert_eq!(derive_clone_name("9", 3), "12");
}

#[test]
fn slugifies_turkish_names() {
    assert_eq!(slugify("Canlı Atölye"), "canli-atolye");
    assert_eq!(slugify("  Gardenia Projesi! "), "gardenia-projesi");
    assert_eq!(slugify("---"), "workspace");
    assert_eq!(slugify("Ünal Şahin"), "unal-sahin");
}

#[test]
fn key_slug_normalizes_turkish() {
    assert_eq!(key_slug("Eviye Tipi"), "eviye_tipi");
    assert_eq!(key_slug("Metraj (m)"), "metraj__m_");
}

#[test]
fn strips_prefix_and_query() {
    assert_eq!(strip_sqlite_prefix("sqlite://data/app.db?mode=rwc"), Some("data/app.db".into()));
    assert_eq!(strip_sqlite_prefix("sqlite://x.db"), Some("x.db".into()));
    assert_eq!(strip_sqlite_prefix("sqlite://?mode=memory"), None);
}

#[test]
fn non_sqlite_and_memory_urls_have_no_path() {
    assert_eq!(strip_sqlite_prefix("postgres://db/app"), None);
    assert_eq!(strip_sqlite_prefix("sqlite://:memory:"), None);
}

#[test]
fn rejects_path_traversal_keys() {
    let storage = LocalFileStorage::new("/tmp/uploads".to_string());
    assert!(storage.path_of("../etc/passwd").is_err());
    assert!(storage.path_of("a/../../b").is_err());
    assert!(storage.path_of("").is_err());
    assert!(storage.path_of("ws/file_1.pdf").is_ok());
    assert!(storage.path_of("ws/uuid/tezgah-01.jpg").is_ok());
}

#[test]
fn slug_folds_dotted_capital_i() {
    assert_eq!(slugify("İstanbul"), "istanbul");
    assert_eq!(slugify("İstanbul/Şube 2"), "istanbul-sube-2");
}

#[test]
fn absolute_keys_stay_out_of_root() {
    let storage = LocalFileStorage::new("/tmp/uploads".to_string());
    assert!(storage.path_of("/etc/passwd").is_err());
    assert!(storage.path_of("/").is_err());
}

#[test]
fn storage_paths_join_under_root() {
    let storage = LocalFileStorage::new("/tmp/uploads".to_string());
    assert_eq!(storage.path_of("ws/a.pdf").unwrap(), "/tmp/uploads/ws/a.pdf");
    assert!(storage.path_of("ws/a b.pdf").is_err());
}

#[test]
fn event_names_are_dotted_lower_case() {
    assert_eq!(process_event_name("STARTED"), "process.started");
    assert_eq!(process_event_name("NOTE_ADDED"), "process.note.added");
}
