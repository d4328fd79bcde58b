//! Shop floor operations around an execution: the events of a block, a
//! note and an attached file, the upload gate (size, extension, content
//! type) and the attachment record with its storage key.

use vstd::prelude::*;
use crate::entities::{EventType, ProcessStatus, Role};
use crate::errors::{DomainError, validation, is_validation_err};
use crate::duration::Moment;
use crate::permissions::{Action, spec_can, can};
use crate::executions::{ProcessExecution, NewEvent};
use crate::naming::{extension_allowed, spec_allowed_extension, unicode_lowercase, last_segment, all_ascii, ascii_lowered, sanitize_file_name, spec_safe_file_name};
use crate::ids::{new_id, uuid_string, uuid_hyphenated};
use crate::text::{owned, str_eq};

verus! {

/// Largest accepted upload, in bytes (10 MB).
pub const MAX_UPLOAD_BYTES: usize = 10485760;

/// The content types an upload may declare.
pub open spec fn spec_allowed_mime(m: Seq<char>) -> bool {
    ||| m == "image/jpeg"@
    ||| m == "image/png"@
    ||| m == "image/webp"@
    ||| m == "application/pdf"@
    ||| m == "application/vnd.openxmlformats-officedocument.spreadsheetml.sheet"@
    ||| m == "application/acad"@
    ||| m == "application/dxf"@
    ||| m == "application/octet-stream"@
}

/// An upload may declare exactly these content types: JPEG, PNG and WebP
/// images, PDF, XLSX, AutoCAD drawings, DXF, and unknown binary data.
pub proof fn lemma_accepted_content_types(m: Seq<char>)
    ensures
        spec_allowed_mime(m) <==> (m == "image/jpeg"@ || m == "image/png"@ || m == "image/webp"@
            || m == "application/pdf"@
            || m == "application/vnd.openxmlformats-officedocument.spreadsheetml.sheet"@
            || m == "application/acad"@ || m == "application/dxf"@ || m == "application/octet-stream"@),
{
}

/// Whether an upload may declare content type `m`.
pub fn allowed_mime(m: &str) -> (r: bool)
    ensures
        r == spec_allowed_mime(m@),
{
    str_eq(m, "image/jpeg") || str_eq(m, "image/png") || str_eq(m, "image/webp") || str_eq(m, "application/pdf")
        || str_eq(m, "application/vnd.openxmlformats-officedocument.spreadsheetml.sheet")
        || str_eq(m, "application/acad") || str_eq(m, "application/dxf")
        || str_eq(m, "application/octet-stream")
}

/// The upload gate, in order: a file must not be empty, must not exceed
/// `MAX_UPLOAD_BYTES`, must carry an allowed extension and declare an
/// allowed content type.
pub fn check_upload(size: usize, file_name: &str, mime_type: &str) -> (r: Result<(), DomainError>)
    ensures
        size == 0 ==> is_validation_err(r, "Boş dosya yüklenemez."@),
        (size > 0 && size > 10485760) ==> is_validation_err(r, "Dosya boyutu 10 MB sınırını aşıyor."@),
        (0 < size <= 10485760 && !spec_allowed_extension(unicode_lowercase(last_segment(file_name@))))
            ==> is_validation_err(r, "İzin verilmeyen dosya türü (jpg, png, webp, pdf, xlsx, dwg, dxf)."@),
        (0 < size <= 10485760 && spec_allowed_extension(unicode_lowercase(last_segment(file_name@)))
            && !spec_allowed_mime(mime_type@)) ==> is_validation_err(r, "İzin verilmeyen içerik türü."@),
        r is Ok <==> (0 < size <= 10485760 && spec_allowed_extension(unicode_lowercase(last_segment(file_name@)))
            && spec_allowed_mime(mime_type@)),
        all_ascii(last_segment(file_name@)) ==> (r is Ok <==> (0 < size <= 10485760 && spec_allowed_extension(
            ascii_lowered(last_segment(file_name@)),
        ) && spec_allowed_mime(mime_type@))),
{
    if size == 0 {
        return Err(validation("Boş dosya yüklenemez."));
    }
    if size > MAX_UPLOAD_BYTES {
        return Err(validation("Dosya boyutu 10 MB sınırını aşıyor."));
    }
    if !extension_allowed(file_name) {
        return Err(validation("İzin verilmeyen dosya türü (jpg, png, webp, pdf, xlsx, dwg, dxf)."));
    }
    if !allowed_mime(mime_type) {
        return Err(validation("İzin verilmeyen içerik türü."));
    }
    Ok(())
}

/// A file attached to a project, section, work item or execution.
#[derive(Debug)]
pub struct Attachment {
    pub id: u128,
    pub workspace_id: u128,
    pub entity_type: String,
    pub entity_id: u128,
    pub file_name: String,
    pub storage_key: String,
    pub mime_type: String,
    pub size: i64,
    pub uploaded_by: u128,
    pub created_at: Moment,
    pub deleted_at: Option<Moment>,
}

/// The text of a fresh identifier, naming the folder of one stored file.
pub fn attachment_uuid() -> (r: String)
    ensures
        exists|x: u128| r@ == uuid_hyphenated(x),
{
    let x = new_id();
    uuid_string(x)
}

/// The storage key of a file: workspace, a folder of its own and the safe
/// file name.
pub open spec fn storage_key_of(workspace_id: u128, folder: Seq<char>, safe_name: Seq<char>) -> Seq<char> {
    uuid_hyphenated(workspace_id) + "/"@ + folder + "/"@ + safe_name
}

/// The record of an accepted upload, under fresh identifiers: the file name
/// made safe, stored under the workspace in a folder of its own.
pub fn new_attachment(
    workspace_id: u128,
    uploaded_by: u128,
    entity_type: &str,
    entity_id: u128,
    file_name: &str,
    mime_type: &str,
    size: usize,
    now: Moment,
) -> (a: Attachment)
    requires
        size <= 10485760,
    ensures
        a.workspace_id == workspace_id,
        a.entity_type@ == entity_type@,
        a.entity_id == entity_id,
        a.file_name@ == spec_safe_file_name(file_name@),
        exists|folder: u128| a.storage_key@ == storage_key_of(workspace_id, uuid_hyphenated(folder), spec_safe_file_name(file_name@)),
        a.mime_type@ == mime_type@,
        a.size == size,
        a.uploaded_by == uploaded_by,
        a.created_at == now,
        a.deleted_at is None,
{
    let safe_name = sanitize_file_name(file_name);
    let mut key = uuid_string(workspace_id);
    key.append("/");
    let folder = attachment_uuid();
    key.append(folder.as_str());
    key.append("/");
    key.append(safe_name.as_str());
    Attachment {
        id: new_id(),
        workspace_id,
        entity_type: owned(entity_type),
        entity_id,
        file_name: safe_name,
        storage_key: key,
        mime_type: owned(mime_type),
        size: size as i64,
        uploaded_by,
        created_at: now,
        deleted_at: None,
    }
}

/// The JSON object `{"<key>":"<uuid of x>"}`.
pub open spec fn id_json(key: Seq<char>, x: u128) -> Seq<char> {
    "{\""@ + key + "\":\""@ + uuid_hyphenated(x) + "\"}"@
}

fn id_json_text(key: &str, x: u128) -> (r: String)
    ensures
        r@ == id_json(key@, x),
{
    let mut m = owned("{\"");
    m.append(key);
    m.append("\":\"");
    let u = uuid_string(x);
    m.append(u.as_str());
    m.append("\"}");
    m
}

/// Only a file attached to an execution leaves an event in its history.
pub open spec fn spec_logs_file(entity_type: Seq<char>) -> bool {
    entity_type == "PROCESS_EXECUTION"@
}

/// Whether an attachment of this kind leaves an event.
pub fn logs_file(entity_type: &str) -> (r: bool)
    ensures
        r == spec_logs_file(entity_type@),
{
    str_eq(entity_type, "PROCESS_EXECUTION")
}

/// The FILE_ADDED event of a file attached to an execution: its name as the
/// note and the attachment's identifier as metadata.
pub fn file_added_event(a: &Attachment, actor_id: u128) -> (e: NewEvent)
    ensures
        e.process_execution_id == a.entity_id,
        e.event_type == EventType::FileAdded,
        e.previous_status is None,
        e.new_status is None,
        e.user_id == actor_id,
        e.team_id is None,
        e.note matches Some(n) && n@ == a.file_name@,
        e.metadata matches Some(m) && m@ == id_json("attachment_id"@, a.id),
{
    NewEvent {
        process_execution_id: a.entity_id,
        event_type: EventType::FileAdded,
        previous_status: None,
        new_status: None,
        user_id: actor_id,
        team_id: None,
        note: Some(a.file_name.clone()),
        metadata: Some(id_json_text("attachment_id", a.id)),
    }
}

/// The BLOCKED event of "report a problem": the reason's name as the note
/// and its identifier as metadata.
pub fn block_event(
    exec: &ProcessExecution,
    new_status: ProcessStatus,
    actor_id: u128,
    reason_id: u128,
    reason_name: &str,
) -> (e: NewEvent)
    ensures
        e.process_execution_id == exec.id,
        e.event_type == EventType::Blocked,
        e.previous_status == Some(exec.status),
        e.new_status == Some(new_status),
        e.user_id == actor_id,
        e.team_id == exec.assigned_team_id,
        e.note matches Some(n) && n@ == reason_name@,
        e.metadata matches Some(m) && m@ == id_json("reason_id"@, reason_id),
{
    NewEvent {
        process_execution_id: exec.id,
        event_type: EventType::Blocked,
        previous_status: Some(exec.status),
        new_status: Some(new_status),
        user_id: actor_id,
        team_id: exec.assigned_team_id,
        note: Some(owned(reason_name)),
        metadata: Some(id_json_text("reason_id", reason_id)),
    }
}

/// The NOTE_ADDED event of a note on an execution.
pub fn note_event(exec: &ProcessExecution, actor_id: u128, note: String) -> (e: NewEvent)
    ensures
        e == (NewEvent {
            process_execution_id: exec.id,
            event_type: EventType::NoteAdded,
            previous_status: None,
            new_status: None,
            user_id: actor_id,
            team_id: exec.assigned_team_id,
            note: Some(note),
            metadata: None,
        }),
{
    NewEvent {
        process_execution_id: exec.id,
        event_type: EventType::NoteAdded,
        previous_status: None,
        new_status: None,
        user_id: actor_id,
        team_id: exec.assigned_team_id,
        note: Some(note),
        metadata: None,
    }
}

/// A file is removed by whoever uploaded it or by an administrator.
pub fn check_attachment_delete(uploaded_by: u128, actor_id: u128, role: Role) -> (r: Result<(), DomainError>)
    ensures
        r is Ok <==> (uploaded_by == actor_id || spec_can(role, Action::ManageWorkspace)),
        r is Err ==> r == Err::<(), DomainError>(DomainError::Forbidden),
{
    if uploaded_by != actor_id && !can(role, Action::ManageWorkspace) {
        return Err(DomainError::Forbidden);
    }
    Ok(())
}

} // verus!
