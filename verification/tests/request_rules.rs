use canli_atolye_backend::config::{parse_u16, Config, ConfigError};
use canli_atolye_backend::entities::{ProjectStatus, PropertyDataType, Role};
use canli_atolye_backend::errors::{invalid, ApiError, DomainError};
use canli_atolye_backend::requests::{
    check_deactivation, check_member_lister, check_user_manager, check_user_update,
    check_user_workspace, default_true, next_sort_order, validate_group_dependencies,
    validate_group_header, was_unassigned_checked, ActivityQuery, CreateProjectRequest,
    CreatePropertyDefinitionRequest, CreateTeamRequest, CreateUserRequest, DependencyInput,
    NoteRequest, ProjectFilter, ReopenRequest, SearchQuery, UpdateUserRequest,
};

fn message(e: DomainError) -> String {
    match e {
        DomainError::Validation { message } => message,
        DomainError::Conflict { message } => message,
        other => panic!("unexpected error {other:?}"),
    }
}

#[test]
fn new_user_checks_in_order() {
    let mut req = CreateUserRequest {
        email: "  Usta@Atolye.Local ".to_string(),
        password: "12345678".to_string(),
        full_name: " Ali Usta ".to_string(),
        role: Role::Worker,
    };
    let u = req.validate().unwrap();
    assert_eq!(u.email, "usta@atolye.local");
    assert_eq!(u.full_name, "Ali Usta");
    req.password = "1234567".to_string();
    assert_eq!(message(req.validate().unwrap_err()), "Şifre en az 8 karakter olmalı.");
    req.email = "usta-at-atolye".to_string();
    assert_eq!(message(req.validate().unwrap_err()), "Geçerli bir e-posta girin.");
    req.email = "a@b.c".to_string();
    req.password = "çççç".to_string(); // eight bytes
    req.full_name = "  ".to_string();
    assert_eq!(message(req.validate().unwrap_err()), "Ad soyad zorunludur.");
}

#[test]
fn admins_cannot_lock_themselves_out() {
    let demote = UpdateUserRequest { full_name: None, role: Some(Role::Worker), active: None };
    assert_eq!(
        message(check_user_update(Role::Admin, 1, 1, &demote).unwrap_err()),
        "Kendi admin yetkinizi kaldıramazsınız."
    );
    assert!(check_user_update(Role::Admin, 1, 2, &demote).is_ok());
    let off = UpdateUserRequest { full_name: None, role: None, active: Some(false) };
    assert!(check_user_update(Role::Admin, 1, 1, &off).is_err());
    assert!(check_user_update(Role::Worker, 1, 1, &off).is_ok());
    assert_eq!(message(check_deactivation(3, 3).unwrap_err()), "Kendinizi pasifleştiremezsiniz.");
    let patch = demote.patch();
    assert_eq!(patch.role, Some(Role::Worker));
    assert!(check_user_manager(1, 1, Role::Admin).is_ok());
    assert!(matches!(check_user_manager(1, 2, Role::Admin), Err(DomainError::Forbidden)));
    assert!(matches!(check_user_manager(1, 1, Role::ProjectManager), Err(DomainError::Forbidden)));
    assert!(check_member_lister(1, 1, Role::ProjectManager).is_ok());
    assert!(check_member_lister(1, 1, Role::Worker).is_err());
    assert!(matches!(check_user_workspace(1, 2), Err(DomainError::UserNotFound)));
}

#[test]
fn catalogue_names_are_required() {
    let team = CreateTeamRequest { name: " Montaj ".to_string(), description: None };
    assert_eq!(team.validated_name().unwrap(), "Montaj");
    let blank = CreateTeamRequest { name: "".to_string(), description: None };
    assert_eq!(message(blank.validated_name().unwrap_err()), "Takım adı zorunludur.");
    let p = CreateProjectRequest { name: " Gardenia ".to_string(), code: " gd-01 ".to_string(), description: None };
    let np = p.validate().unwrap();
    assert_eq!(np.name, "Gardenia");
    assert_eq!(np.code, "GD-01");
    let p = CreateProjectRequest { name: "x".to_string(), code: " ".to_string(), description: None };
    assert_eq!(message(p.validate().unwrap_err()), "Proje adı ve kodu zorunludur.");
    assert_eq!(next_sort_order(None), 1);
    assert_eq!(next_sort_order(Some(4)), 5);
    assert_eq!(message(NoteRequest { note: " ".to_string() }.validated_note().unwrap_err()), "Not boş olamaz.");
    assert_eq!(
        message(ReopenRequest { reason: "".to_string() }.validated_reason().unwrap_err()),
        "Revizyon nedeni zorunludur."
    );
}

#[test]
fn property_definitions_derive_keys_and_keep_options_as_json() {
    let req = CreatePropertyDefinitionRequest {
        name: " Eviye Tipi ".to_string(),
        key: None,
        data_type: PropertyDataType::Select,
        unit: None,
        required: true,
        options: Some(vec!["Lamar".to_string(), "Arma \"X\"".to_string()]),
    };
    let d = req.validate().unwrap();
    assert_eq!(d.name, "Eviye Tipi");
    assert_eq!(d.key, "eviye_tipi");
    assert_eq!(d.options_json.as_deref(), Some(r#"["Lamar","Arma \"X\""]"#));
    let empty = CreatePropertyDefinitionRequest {
        name: "Renk".to_string(),
        key: Some(" renk_kodu ".to_string()),
        data_type: PropertyDataType::Select,
        unit: None,
        required: false,
        options: Some(vec![]),
    };
    assert_eq!(message(empty.validate().unwrap_err()), "SELECT tipi için en az bir seçenek gerekli.");
    let text = CreatePropertyDefinitionRequest {
        name: "Renk".to_string(),
        key: Some(" renk_kodu ".to_string()),
        data_type: PropertyDataType::Text,
        unit: Some("m".to_string()),
        required: false,
        options: Some(vec!["x".to_string()]),
    };
    let d = text.validate().unwrap();
    assert_eq!(d.key, "renk_kodu");
    assert_eq!(d.options_json, None);
    assert!(default_true());
    assert_eq!(was_unassigned_checked(&false), Some(false));
}

#[test]
fn group_definitions() {
    assert_eq!(validate_group_header("  Akış ", 2).unwrap(), "Akış");
    assert_eq!(message(validate_group_header(" ", 2).unwrap_err()), "Grup adı zorunludur.");
    assert_eq!(message(validate_group_header("Akış", 0).unwrap_err()), "Grup en az bir adım içermelidir.");
    let deps = vec![DependencyInput { step: 1, depends_on: 0 }, DependencyInput { step: 2, depends_on: 2 }];
    assert_eq!(message(validate_group_dependencies(3, &deps).unwrap_err()), "Bir adım kendisine bağımlı olamaz.");
    let deps = vec![DependencyInput { step: 3, depends_on: 0 }];
    assert_eq!(
        message(validate_group_dependencies(3, &deps).unwrap_err()),
        "Bağımlılık indeksleri adım sayısının dışında."
    );
    assert!(validate_group_dependencies(3, &vec![DependencyInput { step: 2, depends_on: 0 }]).is_ok());
}

#[test]
fn query_parameters() {
    assert_eq!(ProjectFilter { status: None }.parse_status().unwrap(), None);
    assert_eq!(ProjectFilter { status: Some("ACTIVE".to_string()) }.parse_status().unwrap(), Some(ProjectStatus::Active));
    assert_eq!(
        message(ProjectFilter { status: Some("active".to_string()) }.parse_status().unwrap_err()),
        "Geçersiz status filtresi: active"
    );
    assert_eq!(ActivityQuery { limit: None }.effective_limit(), 50);
    assert_eq!(ActivityQuery { limit: Some(0) }.effective_limit(), 1);
    assert_eq!(ActivityQuery { limit: Some(999) }.effective_limit(), 200);
    assert_eq!(SearchQuery { q: " a ".to_string() }.needle(), None);
    assert_eq!(SearchQuery { q: " %da%ire ".to_string() }.needle().as_deref(), Some("%daire%"));
}

#[test]
fn settings_from_environment_values() {
    let c = Config::from_values(
        Some("sqlite://data/app.db".to_string()),
        None,
        Some("9000".to_string()),
        None,
        Some("TRUE".to_string()),
        None,
        None,
        None,
    )
    .unwrap();
    assert_eq!(c.port, 9000);
    assert_eq!(c.host, "127.0.0.1");
    assert!(c.cookie_secure);
    assert_eq!(c.session_ttl_hours, 168);
    assert_eq!(c.seed_admin_email, "admin@canliatolye.local");
    let missing = Config::from_values(None, None, None, None, None, None, None, None).unwrap_err();
    assert_eq!(missing.message(), "Eksik zorunlu env değişkeni: DATABASE_URL");
    let bad_port = Config::from_values(Some("x".to_string()), None, Some("70000".to_string()), None, None, None, None, None).unwrap_err();
    assert!(matches!(bad_port, ConfigError::Invalid { key: "PORT", .. }));
    assert_eq!(parse_u16("65535"), Some(65535));
    assert_eq!(parse_u16("-1"), None);
}

#[test]
fn http_error_envelope() {
    let e: ApiError = ApiError::from_domain(DomainError::Forbidden);
    assert_eq!((e.status, e.code), (403, "AUTH_FORBIDDEN"));
    assert_eq!(e.message, "Bu işlem için yetkiniz yok.");
    let e = ApiError::from_domain(DomainError::Database("disk I/O error".to_string()));
    assert_eq!((e.status, e.code), (500, "INTERNAL_ERROR"));
    assert_eq!(e.message, "Sunucu hatası oluştu.");
    let e = invalid("eksik alan");
    assert_eq!((e.status, e.code), (400, "VALIDATION_FAILED"));
    assert_eq!(e.message, "Doğrulama hatası: eksik alan");
}
