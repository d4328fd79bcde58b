//! Request payloads of the HTTP API and the validation and normalisation
//! rules applied to them before anything is stored.

use vstd::prelude::*;
use crate::entities::{ProjectStatus, PropertyDataType, Role};
use crate::errors::{DomainError, conflict, validation, is_validation_err, is_conflict_err};
use crate::naming::{key_slug, spec_key_slug, unicode_lowercase, unicode_uppercase, lowercase, uppercase, no_ascii_capital, all_ascii, ascii_lowered, ascii_uppered};
use crate::render::{replace_all, replace_text};
use crate::text::{contains_char, is_blank, join2, owned, trim, trimmed};
use crate::permissions::{Action, spec_can, can};
use crate::duration::Moment;

verus! {

/// Byte length of a text in UTF-8 (std `str::len`).
pub open spec fn utf8_len(s: Seq<char>) -> nat {
    (vstd::utf8::encode_utf8(s).len() as usize) as nat
}

// ---------------------------------------------------------------------------
// Sign in and users
// ---------------------------------------------------------------------------

#[derive(Debug)]
pub struct LoginRequest {
    pub email: String,
    pub password: String,
}

impl LoginRequest {
    /// The address a login looks up: trimmed and lower-cased, the form in
    /// which addresses are stored.
    pub fn lookup_email(&self) -> (r: String)
        ensures
            r@ == unicode_lowercase(trimmed(self.email@)),
            no_ascii_capital(r@),
            all_ascii(trimmed(self.email@)) ==> r@ == ascii_lowered(trimmed(self.email@)),
    {
        let t = trim(self.email.as_str());
        lowercase(t.as_str())
    }
}

#[derive(Debug)]
pub struct CreateUserRequest {
    pub email: String,
    pub password: String,
    pub full_name: String,
    pub role: Role,
}

#[derive(Debug)]
pub struct UpdateUserRequest {
    pub full_name: Option<String>,
    pub role: Option<Role>,
    pub active: Option<bool>,
}

/// The fields of a user to store (the password hash is added by the caller).
#[derive(Debug)]
pub struct NewUserFields {
    pub email: String,
    pub full_name: String,
    pub role: Role,
}

pub const MIN_PASSWORD_LEN: usize = 8;

impl CreateUserRequest {
    /// The e-mail address as stored: trimmed, then lower-cased.
    pub open spec fn spec_email(&self) -> Seq<char> {
        unicode_lowercase(trimmed(self.email@))
    }

    /// Checks a new user: the e-mail needs an `@` and a `.`, the password at
    /// least eight bytes and the full name some non-blank text.
    pub fn validate(&self) -> (r: Result<NewUserFields, DomainError>)
        ensures
            !(self.spec_email().contains('@') && self.spec_email().contains('.')) ==> is_validation_err(
                r,
                "Geçerli bir e-posta girin."@,
            ),
            (self.spec_email().contains('@') && self.spec_email().contains('.')) && utf8_len(
                self.password@,
            ) < 8 ==> is_validation_err(r, "Şifre en az 8 karakter olmalı."@),
            (self.spec_email().contains('@') && self.spec_email().contains('.')) && utf8_len(
                self.password@,
            ) >= 8 && trimmed(self.full_name@).len() == 0 ==> is_validation_err(
                r,
                "Ad soyad zorunludur."@,
            ),
            (self.spec_email().contains('@') && self.spec_email().contains('.')) && utf8_len(
                self.password@,
            ) >= 8 && trimmed(self.full_name@).len() > 0 ==> (r matches Ok(u) && u.email@
                == self.spec_email() && u.full_name@ == trimmed(self.full_name@) && u.role == self.role),
            r matches Ok(u) ==> no_ascii_capital(u.email@) && (all_ascii(trimmed(self.email@)) ==> u.email@
                == ascii_lowered(trimmed(self.email@))),
    {
        let t = trim(self.email.as_str());
        let email = lowercase(t.as_str());
        if !contains_char(email.as_str(), '@') || !contains_char(email.as_str(), '.') {
            return Err(validation("Geçerli bir e-posta girin."));
        }
        if self.password.as_str().len() < MIN_PASSWORD_LEN {
            return Err(validation("Şifre en az 8 karakter olmalı."));
        }
        let full_name = trim(self.full_name.as_str());
        if is_blank(full_name.as_str()) {
            return Err(validation("Ad soyad zorunludur."));
        }
        Ok(NewUserFields { email, full_name, role: self.role })
    }
}

/// Refuses a change that would let an administrator demote or deactivate
/// themselves (so that a workspace never locks itself out).
pub fn check_user_update(
    target_role: Role,
    target_id: u128,
    actor_id: u128,
    req: &UpdateUserRequest,
) -> (r: Result<(), DomainError>)
    ensures
        (target_role == Role::Admin && ((req.role matches Some(x) && x != Role::Admin) || req.active
            == Some(false)) && target_id == actor_id) ==> is_conflict_err(
            r,
            "Kendi admin yetkinizi kaldıramazsınız."@,
        ),
        !(target_role == Role::Admin && ((req.role matches Some(x) && x != Role::Admin) || req.active
            == Some(false)) && target_id == actor_id) ==> r is Ok,
{
    let demotes = match req.role {
        Some(x) => x != Role::Admin,
        None => false,
    };
    let deactivates = match req.active {
        Some(a) => !a,
        None => false,
    };
    if target_role == Role::Admin && (demotes || deactivates) && target_id == actor_id {
        return Err(conflict("Kendi admin yetkinizi kaldıramazsınız."));
    }
    Ok(())
}

/// Nobody deactivates themselves.
pub fn check_deactivation(user_id: u128, actor_id: u128) -> (r: Result<(), DomainError>)
    ensures
        user_id == actor_id ==> is_conflict_err(r, "Kendinizi pasifleştiremezsiniz."@),
        user_id != actor_id ==> r is Ok,
{
    if user_id == actor_id {
        Err(conflict("Kendinizi pasifleştiremezsiniz."))
    } else {
        Ok(())
    }
}

// ---------------------------------------------------------------------------
// Named catalogue entries: teams, projects, templates, reasons, types
// ---------------------------------------------------------------------------

#[derive(Debug)]
pub struct CreateTeamRequest {
    pub name: String,
    pub description: Option<String>,
}

#[derive(Debug)]
pub struct UpdateTeamRequest {
    pub name: String,
    pub description: Option<String>,
}

/// A required name: trimmed, and refused with `message` when blank.
pub fn required_text(raw: &str, message: &str) -> (r: Result<String, DomainError>)
    ensures
        trimmed(raw@).len() == 0 ==> is_validation_err(r, message@),
        trimmed(raw@).len() > 0 ==> (r matches Ok(s) && s@ == trimmed(raw@)),
{
    let t = trim(raw);
    if is_blank(t.as_str()) {
        Err(validation(message))
    } else {
        Ok(t)
    }
}

impl CreateTeamRequest {
    /// The team name to store.
    pub fn validated_name(&self) -> (r: Result<String, DomainError>)
        ensures
            trimmed(self.name@).len() == 0 ==> is_validation_err(r, "Takım adı zorunludur."@),
            trimmed(self.name@).len() > 0 ==> (r matches Ok(s) && s@ == trimmed(self.name@)),
    {
        required_text(self.name.as_str(), "Takım adı zorunludur.")
    }
}

impl UpdateTeamRequest {
    /// The new team name.
    pub fn validated_name(&self) -> (r: Result<String, DomainError>)
        ensures
            trimmed(self.name@).len() == 0 ==> is_validation_err(r, "Takım adı zorunludur."@),
            trimmed(self.name@).len() > 0 ==> (r matches Ok(s) && s@ == trimmed(self.name@)),
    {
        required_text(self.name.as_str(), "Takım adı zorunludur.")
    }
}

#[derive(Debug)]
pub struct CreateProjectRequest {
    pub name: String,
    pub code: String,
    pub description: Option<String>,
}

/// A project to store.
#[derive(Debug)]
pub struct NewProject {
    pub name: String,
    pub code: String,
    pub description: Option<String>,
}

impl CreateProjectRequest {
    /// Name and code are required; the name is trimmed and the code trimmed
    /// and upper-cased.
    pub fn validate(&self) -> (r: Result<NewProject, DomainError>)
        ensures
            (trimmed(self.name@).len() == 0 || trimmed(self.code@).len() == 0) ==> is_validation_err(
                r,
                "Proje adı ve kodu zorunludur."@,
            ),
            (trimmed(self.name@).len() > 0 && trimmed(self.code@).len() > 0) ==> (r matches Ok(p)
                && p.name@ == trimmed(self.name@) && p.code@ == unicode_uppercase(trimmed(self.code@))
                && p.description == self.description),
            all_ascii(trimmed(self.code@)) ==> (r matches Ok(p) ==> p.code@ == ascii_uppered(trimmed(self.code@))),
    {
        let name = trim(self.name.as_str());
        let code = trim(self.code.as_str());
        if is_blank(name.as_str()) || is_blank(code.as_str()) {
            return Err(validation("Proje adı ve kodu zorunludur."));
        }
        let code = uppercase(code.as_str());
        Ok(NewProject { name, code, description: self.description.clone() })
    }
}

#[derive(Debug)]
pub struct CreateTemplateRequest {
    pub name: String,
    pub code: String,
    pub description: Option<String>,
}

impl CreateTemplateRequest {
    /// Template name (trimmed) and code (trimmed and upper-cased, as it is
    /// stored), both required.
    pub fn validate(&self) -> (r: Result<(String, String), DomainError>)
        ensures
            (trimmed(self.name@).len() == 0 || trimmed(self.code@).len() == 0) ==> is_validation_err(
                r,
                "Şablon adı ve kodu zorunludur."@,
            ),
            (trimmed(self.name@).len() > 0 && trimmed(self.code@).len() > 0) ==> (r matches Ok(p)
                && p.0@ == trimmed(self.name@) && p.1@ == unicode_uppercase(trimmed(self.code@))),
            all_ascii(trimmed(self.code@)) ==> (r matches Ok(p) ==> p.1@ == ascii_uppered(trimmed(self.code@))),
    {
        let name = trim(self.name.as_str());
        let code = trim(self.code.as_str());
        if is_blank(name.as_str()) || is_blank(code.as_str()) {
            return Err(validation("Şablon adı ve kodu zorunludur."));
        }
        Ok((name, uppercase(code.as_str())))
    }
}

#[derive(Debug)]
pub struct CreateWorkItemTypeRequest {
    pub name: String,
    pub code: String,
}

impl CreateWorkItemTypeRequest {
    /// Type name (trimmed) and code (trimmed and upper-cased), both required.
    pub fn validate(&self) -> (r: Result<(String, String), DomainError>)
        ensures
            (trimmed(self.name@).len() == 0 || trimmed(self.code@).len() == 0) ==> is_validation_err(
                r,
                "Tip adı ve kodu zorunludur."@,
            ),
            (trimmed(self.name@).len() > 0 && trimmed(self.code@).len() > 0) ==> (r matches Ok(p)
                && p.0@ == trimmed(self.name@) && p.1@ == unicode_uppercase(trimmed(self.code@))),
            all_ascii(trimmed(self.code@)) ==> (r matches Ok(p) ==> p.1@ == ascii_uppered(trimmed(self.code@))),
    {
        let name = trim(self.name.as_str());
        let code = trim(self.code.as_str());
        if is_blank(name.as_str()) || is_blank(code.as_str()) {
            return Err(validation("Tip adı ve kodu zorunludur."));
        }
        Ok((name, uppercase(code.as_str())))
    }
}

#[derive(Debug)]
pub struct CreateReasonRequest {
    pub name: String,
    pub description: Option<String>,
}

impl CreateReasonRequest {
    /// The block reason name, required and trimmed.
    pub fn validated_name(&self) -> (r: Result<String, DomainError>)
        ensures
            trimmed(self.name@).len() == 0 ==> is_validation_err(r, "Neden adı zorunludur."@),
            trimmed(self.name@).len() > 0 ==> (r matches Ok(s) && s@ == trimmed(self.name@)),
    {
        required_text(self.name.as_str(), "Neden adı zorunludur.")
    }
}

/// Position of a new catalogue entry: one past the current largest, or 1 for
/// the first.
pub fn next_sort_order(max: Option<i64>) -> (r: i64)
    requires
        max matches Some(m) ==> m < i64::MAX,
    ensures
        r == match max {
            Some(m) => m + 1,
            None => 1,
        },
{
    match max {
        Some(m) => m + 1,
        None => 1,
    }
}

// ---------------------------------------------------------------------------
// Dynamic properties
// ---------------------------------------------------------------------------

#[derive(Debug)]
pub struct CreatePropertyDefinitionRequest {
    pub name: String,
    pub key: Option<String>,
    pub data_type: PropertyDataType,
    pub unit: Option<String>,
    pub required: bool,
    pub options: Option<Vec<String>>,
}

/// A property definition to store.
#[derive(Debug)]
pub struct NewPropertyDefinition {
    pub name: String,
    pub key: String,
    pub data_type: PropertyDataType,
    pub unit: Option<String>,
    pub required: bool,
    pub options_json: Option<String>,
}

/// The JSON array text of a list of strings (serde_json's rendering).
pub uninterp spec fn json_string_array(items: Seq<Seq<char>>) -> Seq<char>;

/// serde_json `to_string` of a `Vec<String>`: its JSON array text. The
/// rendering (quoting and escaping) is left unstated; serialising strings
/// cannot fail, so the call's `unwrap` never panics.
#[verifier::external_body]
fn to_json_array(items: &Vec<String>) -> (r: String)
    ensures
        r@ == json_string_array(items.deep_view()),
{
    serde_json::to_string(items).unwrap()
}

impl CreatePropertyDefinitionRequest {
    /// The key given, or one derived from the name.
    pub open spec fn spec_key(&self) -> Seq<char> {
        match self.key {
            Some(k) if trimmed(k@).len() > 0 => trimmed(k@),
            _ => spec_key_slug(unicode_lowercase(trimmed(self.name@))),
        }
    }

    /// Checks a property definition: the name is required; the key is the
    /// given one (trimmed) or derived from the name; SELECT properties need at
    /// least one option, kept as a JSON array; other types keep none.
    pub fn validate(&self) -> (r: Result<NewPropertyDefinition, DomainError>)
        ensures
            trimmed(self.name@).len() == 0 ==> is_validation_err(r, "Özellik adı zorunludur."@),
            trimmed(self.name@).len() > 0 && self.data_type == PropertyDataType::Select && !(
            self.options matches Some(o) && o@.len() > 0) ==> is_validation_err(
                r,
                "SELECT tipi için en az bir seçenek gerekli."@,
            ),
            trimmed(self.name@).len() > 0 && (self.data_type != PropertyDataType::Select || (
            self.options matches Some(o) && o@.len() > 0)) ==> (r matches Ok(d) && d.name@ == trimmed(
                self.name@,
            ) && d.key@ == self.spec_key() && d.data_type == self.data_type && d.unit == self.unit
                && d.required == self.required && (self.data_type == PropertyDataType::Select ==> (
            d.options_json matches Some(j) && j@ == json_string_array(self.options->0.deep_view())))
                && (self.data_type != PropertyDataType::Select ==> d.options_json is None)),
    {
        let name = trim(self.name.as_str());
        if is_blank(name.as_str()) {
            return Err(validation("Özellik adı zorunludur."));
        }
        let key = match &self.key {
            Some(k) => {
                let t = trim(k.as_str());
                if is_blank(t.as_str()) {
                    key_slug(name.as_str())
                } else {
                    t
                }
            },
            None => key_slug(name.as_str()),
        };
        let options_json = if self.data_type == PropertyDataType::Select {
            match &self.options {
                Some(opts) => {
                    if opts.len() == 0 {
                        return Err(validation("SELECT tipi için en az bir seçenek gerekli."));
                    }
                    Some(to_json_array(opts))
                },
                None => {
                    return Err(validation("SELECT tipi için en az bir seçenek gerekli."));
                },
            }
        } else {
            None
        };
        Ok(NewPropertyDefinition {
            name,
            key,
            data_type: self.data_type,
            unit: self.unit.clone(),
            required: self.required,
            options_json,
        })
    }
}

// ---------------------------------------------------------------------------
// Process operations
// ---------------------------------------------------------------------------

#[derive(Debug)]
pub struct ActionRequest {
    pub note: Option<String>,
}

#[derive(Debug)]
pub struct UnblockRequest {
    pub resolution_note: Option<String>,
}

#[derive(Debug)]
pub struct NoteRequest {
    pub note: String,
}

impl NoteRequest {
    /// The note to record, trimmed; a blank note is refused.
    pub fn validated_note(&self) -> (r: Result<String, DomainError>)
        ensures
            trimmed(self.note@).len() == 0 ==> is_validation_err(r, "Not boş olamaz."@),
            trimmed(self.note@).len() > 0 ==> (r matches Ok(s) && s@ == trimmed(self.note@)),
    {
        required_text(self.note.as_str(), "Not boş olamaz.")
    }
}

#[derive(Debug)]
pub struct ReopenRequest {
    pub reason: String,
}

impl ReopenRequest {
    /// The revision reason, trimmed; a blank reason is refused.
    pub fn validated_reason(&self) -> (r: Result<String, DomainError>)
        ensures
            trimmed(self.reason@).len() == 0 ==> is_validation_err(r, "Revizyon nedeni zorunludur."@),
            trimmed(self.reason@).len() > 0 ==> (r matches Ok(s) && s@ == trimmed(self.reason@)),
    {
        required_text(self.reason.as_str(), "Revizyon nedeni zorunludur.")
    }
}

/// One dependency of a process group being created: step `step` waits for
/// step `depends_on` (zero based indices into the step list).
#[derive(Debug, Clone, Copy, PartialEq, Eq, Structural)]
pub struct DependencyInput {
    pub step: usize,
    pub depends_on: usize,
}

/// The first refusal among the dependencies, checked in order: an index
/// outside the step list, or a step depending on itself.
pub open spec fn first_dependency_error(n: nat, deps: Seq<DependencyInput>) -> Option<Seq<char>>
    decreases deps.len(),
{
    if deps.len() == 0 {
        None
    } else if deps[0].step >= n || deps[0].depends_on >= n {
        Some("Bağımlılık indeksleri adım sayısının dışında."@)
    } else if deps[0].step == deps[0].depends_on {
        Some("Bir adım kendisine bağımlı olamaz."@)
    } else {
        first_dependency_error(n, deps.drop_first())
    }
}

/// A process group needs a name and at least one step.
pub fn validate_group_header(name: &str, step_count: usize) -> (r: Result<String, DomainError>)
    ensures
        trimmed(name@).len() == 0 ==> is_validation_err(r, "Grup adı zorunludur."@),
        trimmed(name@).len() > 0 && step_count == 0 ==> is_validation_err(
            r,
            "Grup en az bir adım içermelidir."@,
        ),
        trimmed(name@).len() > 0 && step_count > 0 ==> (r matches Ok(s) && s@ == trimmed(name@)),
{
    let t = trim(name);
    if is_blank(t.as_str()) {
        return Err(validation("Grup adı zorunludur."));
    }
    if step_count == 0 {
        return Err(validation("Grup en az bir adım içermelidir."));
    }
    Ok(t)
}

/// Checks a process group's dependencies against its `step_count` steps.
pub fn validate_group_dependencies(step_count: usize, deps: &Vec<DependencyInput>) -> (r: Result<
    (),
    DomainError,
>)
    ensures
        match first_dependency_error(step_count as nat, deps@) {
            Some(m) => is_validation_err(r, m),
            None => r is Ok,
        },
{
    let mut i: usize = 0;
    assert(deps@.subrange(0, deps@.len() as int) =~= deps@);
    while i < deps.len()
        invariant
            i <= deps@.len(),
            first_dependency_error(step_count as nat, deps@) == first_dependency_error(
                step_count as nat,
                deps@.subrange(i as int, deps@.len() as int),
            ),
        decreases deps@.len() - i,
    {
        let d = deps[i];
        let ghost rest = deps@.subrange(i as int, deps@.len() as int);
        assert(rest[0] == d);
        assert(rest.drop_first() =~= deps@.subrange(i + 1, deps@.len() as int));
        if d.step >= step_count || d.depends_on >= step_count {
            return Err(validation("Bağımlılık indeksleri adım sayısının dışında."));
        }
        if d.step == d.depends_on {
            return Err(validation("Bir adım kendisine bağımlı olamaz."));
        }
        i = i + 1;
    }
    assert(deps@.subrange(i as int, deps@.len() as int) =~= Seq::<DependencyInput>::empty());
    Ok(())
}

// ---------------------------------------------------------------------------
// Query strings
// ---------------------------------------------------------------------------

#[derive(Debug)]
pub struct ProjectFilter {
    pub status: Option<String>,
}

impl ProjectFilter {
    /// The project status to filter by; unknown text is a validation error.
    pub fn parse_status(&self) -> (r: Result<Option<ProjectStatus>, DomainError>)
        ensures
            self.status is None ==> r == Ok::<Option<ProjectStatus>, DomainError>(None),
            self.status matches Some(s) ==> ((exists|v: ProjectStatus| v.name() == s@) ==> (r matches Ok(
                Some(v),
            ) && v.name() == s@)),
            self.status matches Some(s) ==> (!(exists|v: ProjectStatus| v.name() == s@) ==> is_validation_err(
                r,
                "Geçersiz status filtresi: "@ + s@,
            )),
    {
        match &self.status {
            None => Ok(None),
            Some(s) => match ProjectStatus::from_text(s.as_str()) {
                Ok(v) => Ok(Some(v)),
                Err(_) => Err(DomainError::Validation { message: join2("Geçersiz status filtresi: ", s.as_str()) }),
            },
        }
    }
}

#[derive(Debug)]
pub struct ActivityQuery {
    pub limit: Option<i64>,
}

impl ActivityQuery {
    /// Number of activity entries to return: 50 unless given, kept within
    /// 1..=200.
    pub fn effective_limit(&self) -> (r: i64)
        ensures
            r == ({
                let l = match self.limit {
                    Some(l) => l as int,
                    None => 50,
                };
                if l < 1 {
                    1
                } else if l > 200 {
                    200
                } else {
                    l
                }
            }),
    {
        let l = match self.limit {
            Some(l) => l,
            None => 50,
        };
        if l < 1 {
            1
        } else if l > 200 {
            200
        } else {
            l
        }
    }
}

#[derive(Debug)]
pub struct SearchQuery {
    pub q: String,
}

impl SearchQuery {
    /// The SQL `LIKE` pattern of the search text: trimmed, without `%`,
    /// wrapped in `%`; none when the trimmed text is shorter than two bytes.
    pub fn needle(&self) -> (r: Option<String>)
        ensures
            utf8_len(trimmed(self.q@)) < 2 ==> r is None,
            utf8_len(trimmed(self.q@)) >= 2 ==> (r matches Some(n) && n@ == "%"@ + replace_all(
                trimmed(self.q@),
                "%"@,
                ""@,
            ) + "%"@),
    {
        proof {
            reveal_strlit("%");
        }
        let t = trim(self.q.as_str());
        if t.as_str().len() < 2 {
            return None;
        }
        let body = replace_text(t.as_str(), "%", "");
        let mut n = join2("%", body.as_str());
        n.append("%");
        Some(n)
    }
}

/// The default of an omitted `required` flag: required.
pub fn default_true() -> (r: bool)
    ensures
        r,
{
    true
}

/// The optional form of a flag that is always present.
pub fn was_unassigned_checked(v: &bool) -> (r: Option<bool>)
    ensures
        r == Some(*v),
{
    Some(*v)
}

/// The workspace-level gate of user management: the actor belongs to the
/// workspace and may manage users.
pub fn check_user_manager(actor_workspace: u128, workspace_id: u128, role: Role) -> (r: Result<(), DomainError>)
    ensures
        r is Ok <==> (actor_workspace == workspace_id && spec_can(role, Action::ManageUsers)),
        r is Err ==> r == Err::<(), DomainError>(DomainError::Forbidden),
{
    if actor_workspace != workspace_id {
        return Err(DomainError::Forbidden);
    }
    if !can(role, Action::ManageUsers) {
        return Err(DomainError::Forbidden);
    }
    Ok(())
}

/// Listing a workspace's members: its administrators and project managers
/// (who assign work).
pub fn check_member_lister(actor_workspace: u128, workspace_id: u128, role: Role) -> (r: Result<(), DomainError>)
    ensures
        r is Ok <==> (actor_workspace == workspace_id && (spec_can(role, Action::ManageUsers) || spec_can(
            role,
            Action::UpdateProject,
        ))),
        r is Err ==> r == Err::<(), DomainError>(DomainError::Forbidden),
{
    if actor_workspace != workspace_id {
        return Err(DomainError::Forbidden);
    }
    if !can(role, Action::ManageUsers) && !can(role, Action::UpdateProject) {
        return Err(DomainError::Forbidden);
    }
    Ok(())
}

/// A user of another workspace is not found from this one.
pub fn check_user_workspace(user_workspace: u128, workspace_id: u128) -> (r: Result<(), DomainError>)
    ensures
        r is Ok <==> user_workspace == workspace_id,
        r is Err ==> r == Err::<(), DomainError>(DomainError::UserNotFound),
{
    if user_workspace != workspace_id {
        return Err(DomainError::UserNotFound);
    }
    Ok(())
}

/// The changes of a user update as the store applies them.
#[derive(Debug)]
pub struct UserPatch {
    pub full_name: Option<String>,
    pub role: Option<Role>,
    pub active: Option<bool>,
}

impl UpdateUserRequest {
    /// The store's patch for this request: the same three optional fields.
    pub fn patch(&self) -> (r: UserPatch)
        ensures
            r.full_name == self.full_name,
            r.role == self.role,
            r.active == self.active,
    {
        UserPatch {
            full_name: match &self.full_name {
                Some(n) => Some(n.clone()),
                None => None,
            },
            role: self.role,
            active: self.active,
        }
    }
}

/// A project of a workspace.
#[derive(Debug)]
pub struct Project {
    pub id: u128,
    pub workspace_id: u128,
    pub name: String,
    pub code: String,
    pub description: Option<String>,
    pub status: ProjectStatus,
    pub planned_start_date: Option<Moment>,
    pub planned_end_date: Option<Moment>,
    pub actual_start_date: Option<Moment>,
    pub actual_end_date: Option<Moment>,
    pub created_at: Moment,
    pub updated_at: Moment,
    pub deleted_at: Option<Moment>,
}

/// A partial update of a project as requested.
#[derive(Debug)]
pub struct UpdateProjectRequest {
    pub name: Option<String>,
    pub description: Option<String>,
    pub status: Option<ProjectStatus>,
    pub planned_start_date: Option<Moment>,
    pub planned_end_date: Option<Moment>,
}

/// A partial update of a project as the store applies it.
#[derive(Debug)]
pub struct ProjectPatch {
    pub name: Option<String>,
    pub description: Option<String>,
    pub status: Option<ProjectStatus>,
    pub planned_start_date: Option<Option<Moment>>,
    pub planned_end_date: Option<Option<Moment>>,
}

fn copy_opt(o: &Option<String>) -> (r: Option<String>)
    ensures
        r == *o,
{
    match o {
        Some(t) => Some(t.clone()),
        None => None,
    }
}

impl UpdateProjectRequest {
    /// The patch for this request: a planned end before the planned start is
    /// refused; a blank name leaves the name alone; given dates are set.
    pub fn patch(&self) -> (r: Result<ProjectPatch, DomainError>)
        ensures
            (self.planned_start_date matches Some(s) && self.planned_end_date matches Some(e)
                && crate::executions::moment_before(e, s)) ==> is_validation_err(
                r,
                "Planlanan bitiş, başlangıçtan önce olamaz."@,
            ),
            !(self.planned_start_date matches Some(s) && self.planned_end_date matches Some(e)
                && crate::executions::moment_before(e, s)) ==> (r matches Ok(p) && {
                &&& (match self.name {
                    Some(n) => if trimmed(n@).len() > 0 {
                        p.name matches Some(x) && x@ == trimmed(n@)
                    } else {
                        p.name is None
                    },
                    None => p.name is None,
                })
                &&& p.description == self.description
                &&& p.status == self.status
                &&& p.planned_start_date == (match self.planned_start_date {
                    Some(d) => Some(Some(d)),
                    None => None,
                })
                &&& p.planned_end_date == (match self.planned_end_date {
                    Some(d) => Some(Some(d)),
                    None => None,
                })
            }),
    {
        match (self.planned_start_date, self.planned_end_date) {
            (Some(s), Some(e)) => {
                if crate::executions::is_before(e, s) {
                    return Err(validation("Planlanan bitiş, başlangıçtan önce olamaz."));
                }
            },
            _ => {},
        }
        let name = match &self.name {
            Some(n) => {
                let t = trim(n.as_str());
                if is_blank(t.as_str()) {
                    None
                } else {
                    Some(t)
                }
            },
            None => None,
        };
        Ok(ProjectPatch {
            name,
            description: copy_opt(&self.description),
            status: self.status,
            planned_start_date: match self.planned_start_date {
                Some(d) => Some(Some(d)),
                None => None,
            },
            planned_end_date: match self.planned_end_date {
                Some(d) => Some(Some(d)),
                None => None,
            },
        })
    }
}

impl ProjectPatch {
    /// The project after the patch, stamped `now`: a field is replaced only
    /// where the patch sets it (a description is never cleared).
    pub fn apply(&self, existing: &Project, now: Moment) -> (r: Project)
        ensures
            r.id == existing.id,
            r.workspace_id == existing.workspace_id,
            r.name == (match self.name {
                Some(n) => n,
                None => existing.name,
            }),
            r.code == existing.code,
            r.description == (match self.description {
                Some(d) => Some(d),
                None => existing.description,
            }),
            r.status == (match self.status {
                Some(s) => s,
                None => existing.status,
            }),
            r.planned_start_date == (match self.planned_start_date {
                Some(d) => d,
                None => existing.planned_start_date,
            }),
            r.planned_end_date == (match self.planned_end_date {
                Some(d) => d,
                None => existing.planned_end_date,
            }),
            r.actual_start_date == existing.actual_start_date,
            r.actual_end_date == existing.actual_end_date,
            r.created_at == existing.created_at,
            r.updated_at == now,
            r.deleted_at == existing.deleted_at,
    {
        Project {
            id: existing.id,
            workspace_id: existing.workspace_id,
            name: match &self.name {
                Some(n) => n.clone(),
                None => existing.name.clone(),
            },
            code: existing.code.clone(),
            description: match &self.description {
                Some(d) => Some(d.clone()),
                None => copy_opt(&existing.description),
            },
            status: match self.status {
                Some(s) => s,
                None => existing.status,
            },
            planned_start_date: match self.planned_start_date {
                Some(d) => d,
                None => existing.planned_start_date,
            },
            planned_end_date: match self.planned_end_date {
                Some(d) => d,
                None => existing.planned_end_date,
            },
            actual_start_date: existing.actual_start_date,
            actual_end_date: existing.actual_end_date,
            created_at: existing.created_at,
            updated_at: now,
            deleted_at: existing.deleted_at,
        }
    }
}

/// Archiving marks a project ARCHIVED and deleted at `now`.
pub fn archived(existing: &Project, now: Moment) -> (r: Project)
    ensures
        r.status == ProjectStatus::Archived,
        r.deleted_at == Some(now),
        r.updated_at == now,
        r.id == existing.id,
        r.name == existing.name,
        r.code == existing.code,
        r.description == existing.description,
        r.planned_start_date == existing.planned_start_date,
        r.planned_end_date == existing.planned_end_date,
        r.created_at == existing.created_at,
{
    Project {
        id: existing.id,
        workspace_id: existing.workspace_id,
        name: existing.name.clone(),
        code: existing.code.clone(),
        description: copy_opt(&existing.description),
        status: ProjectStatus::Archived,
        planned_start_date: existing.planned_start_date,
        planned_end_date: existing.planned_end_date,
        actual_start_date: existing.actual_start_date,
        actual_end_date: existing.actual_end_date,
        created_at: existing.created_at,
        updated_at: now,
        deleted_at: Some(now),
    }
}

} // verus!
