//! Domain errors and how they map onto the HTTP error envelope
//! (status code, stable error code, user facing message). Technical details
//! of infrastructure failures never reach the response.

use vstd::prelude::*;
use crate::text::{join2, owned};

verus! {

/// Errors that the domain and service rules report.
#[derive(Debug, Clone)]
pub enum DomainError {
    InvalidCredentials,
    SessionExpired,
    Forbidden,
    EmailTaken,
    NotFound,
    WorkspaceNotFound,
    UserNotFound,
    TeamNotFound,
    ProjectNotFound,
    Validation { message: String },
    Conflict { message: String },
    /// A storage failure; the text describes the underlying error for logs.
    Database(String),
}

impl DomainError {
    pub open spec fn spec_message(&self) -> Seq<char> {
        match self {
            DomainError::InvalidCredentials => "E-posta veya şifre hatalı."@,
            DomainError::SessionExpired => "Oturum bulunamadı veya süresi doldu."@,
            DomainError::Forbidden => "Bu işlem için yetkiniz yok."@,
            DomainError::EmailTaken => "Bu e-posta zaten kayıtlı."@,
            DomainError::NotFound => "Kayıt bulunamadı."@,
            DomainError::WorkspaceNotFound => "Workspace bulunamadı."@,
            DomainError::UserNotFound => "Kullanıcı bulunamadı."@,
            DomainError::TeamNotFound => "Takım bulunamadı."@,
            DomainError::ProjectNotFound => "Proje bulunamadı."@,
            DomainError::Validation { message } => "Doğrulama hatası: "@ + message@,
            DomainError::Conflict { message } => "Kayıt zaten mevcut: "@ + message@,
            DomainError::Database(_) => "Veritabanı hatası."@,
        }
    }

    /// The user facing description of the error.
    pub fn message(&self) -> (r: String)
        ensures
            r@ == self.spec_message(),
    {
        match self {
            DomainError::InvalidCredentials => owned("E-posta veya şifre hatalı."),
            DomainError::SessionExpired => owned("Oturum bulunamadı veya süresi doldu."),
            DomainError::Forbidden => owned("Bu işlem için yetkiniz yok."),
            DomainError::EmailTaken => owned("Bu e-posta zaten kayıtlı."),
            DomainError::NotFound => owned("Kayıt bulunamadı."),
            DomainError::WorkspaceNotFound => owned("Workspace bulunamadı."),
            DomainError::UserNotFound => owned("Kullanıcı bulunamadı."),
            DomainError::TeamNotFound => owned("Takım bulunamadı."),
            DomainError::ProjectNotFound => owned("Proje bulunamadı."),
            DomainError::Validation { message } => join2("Doğrulama hatası: ", message.as_str()),
            DomainError::Conflict { message } => join2("Kayıt zaten mevcut: ", message.as_str()),
            DomainError::Database(_) => owned("Veritabanı hatası."),
        }
    }
}

/// `r` is a validation error whose message is `msg`.
pub open spec fn is_validation_err<T>(r: Result<T, DomainError>, msg: Seq<char>) -> bool {
    r matches Err(DomainError::Validation { message }) && message@ == msg
}

/// `r` is a conflict error whose message is `msg`.
pub open spec fn is_conflict_err<T>(r: Result<T, DomainError>, msg: Seq<char>) -> bool {
    r matches Err(DomainError::Conflict { message }) && message@ == msg
}

/// A validation error carrying `message`.
pub fn validation(message: &str) -> (e: DomainError)
    ensures
        e matches DomainError::Validation { message: m } && m@ == message@,
{
    DomainError::Validation { message: owned(message) }
}

/// A conflict error carrying `message`.
pub fn conflict(message: &str) -> (e: DomainError)
    ensures
        e matches DomainError::Conflict { message: m } && m@ == message@,
{
    DomainError::Conflict { message: owned(message) }
}

/// The HTTP error envelope: status code, stable error code and message.
#[derive(Debug)]
pub struct ApiError {
    pub status: u16,
    pub code: &'static str,
    pub message: String,
}

/// Status code and error code of each domain error.
pub open spec fn api_status(err: &DomainError) -> (u16, Seq<char>) {
    match err {
        DomainError::InvalidCredentials => (401, "AUTH_INVALID_CREDENTIALS"@),
        DomainError::SessionExpired => (401, "AUTH_SESSION_EXPIRED"@),
        DomainError::Forbidden => (403, "AUTH_FORBIDDEN"@),
        DomainError::NotFound | DomainError::WorkspaceNotFound | DomainError::UserNotFound
        | DomainError::TeamNotFound | DomainError::ProjectNotFound => (404, "NOT_FOUND"@),
        DomainError::Validation { .. } => (400, "VALIDATION_FAILED"@),
        DomainError::EmailTaken => (409, "EMAIL_TAKEN"@),
        DomainError::Conflict { .. } => (409, "CONFLICT"@),
        DomainError::Database(_) => (500, "INTERNAL_ERROR"@),
    }
}

/// The message shown to the client: the error's own text, except for
/// storage failures, whose details stay out of the response.
pub open spec fn api_message(err: &DomainError) -> Seq<char> {
    match err {
        DomainError::Database(_) => "Sunucu hatası oluştu."@,
        _ => err.spec_message(),
    }
}

impl ApiError {
    /// Maps a domain error onto the HTTP error envelope.
    pub fn from_domain(err: DomainError) -> (r: ApiError)
        ensures
            r.status == api_status(&err).0,
            r.code@ == api_status(&err).1,
            r.message@ == api_message(&err),
    {
        match &err {
            DomainError::InvalidCredentials => ApiError {
                status: 401,
                code: "AUTH_INVALID_CREDENTIALS",
                message: err.message(),
            },
            DomainError::SessionExpired => ApiError {
                status: 401,
                code: "AUTH_SESSION_EXPIRED",
                message: err.message(),
            },
            DomainError::Forbidden => ApiError {
                status: 403,
                code: "AUTH_FORBIDDEN",
                message: err.message(),
            },
            DomainError::NotFound | DomainError::WorkspaceNotFound | DomainError::UserNotFound
            | DomainError::TeamNotFound | DomainError::ProjectNotFound => ApiError {
                status: 404,
                code: "NOT_FOUND",
                message: err.message(),
            },
            DomainError::Validation { .. } => ApiError {
                status: 400,
                code: "VALIDATION_FAILED",
                message: err.message(),
            },
            DomainError::EmailTaken => ApiError {
                status: 409,
                code: "EMAIL_TAKEN",
                message: err.message(),
            },
            DomainError::Conflict { .. } => ApiError {
                status: 409,
                code: "CONFLICT",
                message: err.message(),
            },
            DomainError::Database(_) => ApiError {
                status: 500,
                code: "INTERNAL_ERROR",
                message: owned("Sunucu hatası oluştu."),
            },
        }
    }
}

/// The HTTP error of a request refused with `msg`: a validation error.
pub fn invalid(msg: &str) -> (r: ApiError)
    ensures
        r.status == 400,
        r.code@ == "VALIDATION_FAILED"@,
        r.message@ == "Doğrulama hatası: "@ + msg@,
{
    ApiError::from_domain(validation(msg))
}

} // verus!
