//! The error type shared by the whole HTTP API and the body it is answered
//! with: `{"error": {"code", "message"}}`.

use vstd::prelude::*;

use crate::text::concat2;

verus! {

/// HTTP status codes used by the API.
pub const STATUS_BAD_REQUEST: u16 = 400;

pub const STATUS_NOT_FOUND: u16 = 404;

pub const STATUS_UNPROCESSABLE_ENTITY: u16 = 422;

pub const STATUS_SERVICE_UNAVAILABLE: u16 = 503;

/// Every error that an API handler can answer with. Variants are added when
/// something produces them.
#[derive(Debug, PartialEq, Eq)]
pub enum AppError {
    /// No route matches the request.
    NotFound,
    /// The database could not be reached; `detail` is kept for the log only.
    Database { detail: String },
    /// The request body could not be read as the expected JSON.
    InvalidJson { status: u16, message: String },
    /// A path parameter could not be read (an id that is not a number, say).
    InvalidPath { status: u16, message: String },
    /// The multipart form itself could not be read (bad boundary, too large).
    InvalidMultipart { status: u16, message: String },
    /// The form was read but a field is missing or wrong.
    BadRequest { message: String },
    /// The uploaded file could not be processed as a PDF.
    PdfProcessing { message: String },
}

/// The body of every error response.
#[derive(Debug, PartialEq, Eq)]
pub struct ErrorResponse {
    pub error: ErrorBody,
}

/// `code` is the machine-readable contract (the frontend picks its text by
/// it); `message` is an untranslated description for debugging.
#[derive(Debug, PartialEq, Eq)]
pub struct ErrorBody {
    pub code: String,
    pub message: String,
}

impl AppError {
    /// The HTTP status that answers this error.
    pub open spec fn spec_status(&self) -> u16 {
        match self {
            AppError::NotFound => STATUS_NOT_FOUND,
            AppError::Database { .. } => STATUS_SERVICE_UNAVAILABLE,
            AppError::InvalidJson { status, .. } => *status,
            AppError::InvalidPath { status, .. } => *status,
            AppError::InvalidMultipart { status, .. } => *status,
            AppError::BadRequest { .. } => STATUS_BAD_REQUEST,
            AppError::PdfProcessing { .. } => STATUS_UNPROCESSABLE_ENTITY,
        }
    }

    /// The machine-readable code of this error.
    pub open spec fn spec_code(&self) -> Seq<char> {
        match self {
            AppError::NotFound => "not_found"@,
            AppError::Database { .. } => "database_unavailable"@,
            AppError::InvalidJson { .. } => "invalid_request_body"@,
            AppError::InvalidPath { .. } => "invalid_path"@,
            AppError::InvalidMultipart { .. } => "invalid_multipart"@,
            AppError::BadRequest { .. } => "bad_request"@,
            AppError::PdfProcessing { .. } => "pdf_processing_failed"@,
        }
    }

    /// The description of this error. The database variant does not reveal
    /// its detail.
    pub open spec fn spec_message(&self) -> Seq<char> {
        match self {
            AppError::NotFound => "not found"@,
            AppError::Database { .. } => "database error"@,
            AppError::InvalidJson { message, .. } => message@,
            AppError::InvalidPath { message, .. } => message@,
            AppError::InvalidMultipart { message, .. } => message@,
            AppError::BadRequest { message } => message@,
            AppError::PdfProcessing { message } => message@,
        }
    }

    /// The HTTP status and the machine-readable code of this error.
    pub fn status_and_code(&self) -> (r: (u16, &'static str))
        ensures
            r.0 == self.spec_status(),
            r.1@ == self.spec_code(),
    {
        match self {
            AppError::NotFound => (STATUS_NOT_FOUND, "not_found"),
            AppError::Database { .. } => (STATUS_SERVICE_UNAVAILABLE, "database_unavailable"),
            AppError::InvalidJson { status, .. } => (*status, "invalid_request_body"),
            AppError::InvalidPath { status, .. } => (*status, "invalid_path"),
            AppError::InvalidMultipart { status, .. } => (*status, "invalid_multipart"),
            AppError::BadRequest { .. } => (STATUS_BAD_REQUEST, "bad_request"),
            AppError::PdfProcessing { .. } => (STATUS_UNPROCESSABLE_ENTITY, "pdf_processing_failed"),
        }
    }

    /// The description of this error.
    pub fn message(&self) -> (m: String)
        ensures
            m@ == self.spec_message(),
    {
        match self {
            AppError::NotFound => String::from_str("not found"),
            AppError::Database { .. } => String::from_str("database error"),
            AppError::InvalidJson { message, .. } => message.clone(),
            AppError::InvalidPath { message, .. } => message.clone(),
            AppError::InvalidMultipart { message, .. } => message.clone(),
            AppError::BadRequest { message } => message.clone(),
            AppError::PdfProcessing { message } => message.clone(),
        }
    }

    /// The status and body that answer this error.
    pub fn error_response(&self) -> (r: (u16, ErrorResponse))
        ensures
            r.0 == self.spec_status(),
            r.1.error.code@ == self.spec_code(),
            r.1.error.message@ == self.spec_message(),
    {
        let (status, code) = self.status_and_code();
        let body = ErrorResponse {
            error: ErrorBody { code: String::from_str(code), message: self.message() },
        };
        (status, body)
    }

    /// Whether the error is the server's fault (a 5xx status); those are
    /// logged with their detail.
    pub fn is_server_error(&self) -> (b: bool)
        ensures
            b == (500 <= self.spec_status() < 600),
    {
        let (status, _) = self.status_and_code();
        500 <= status && status < 600
    }

    /// The error for a conversion task that did not run to completion.
    pub fn task_failed(detail: &str) -> (e: AppError)
        ensures
            e matches AppError::PdfProcessing { message } && message@ == "処理タスクの実行に失敗しました: "@
                + detail@,
    {
        AppError::PdfProcessing { message: concat2("処理タスクの実行に失敗しました: ", detail) }
    }
}

} // verus!
