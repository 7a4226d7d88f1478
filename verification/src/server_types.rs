//! The sync server's configuration, error type and wire records.
use vstd::prelude::*;
use crate::parse_error::concat_str;

verus! {

/// Application configuration.
#[derive(Debug, Clone)]
pub struct AppConfig {
    /// Database URL (SQLite connection string).
    pub database_url: String,
    /// JWT signing secret key.
    pub jwt_secret: String,
    /// Server listen address (e.g., "0.0.0.0:8080").
    pub listen_addr: String,
    /// File storage root path.
    pub storage_path: String,
    /// Database connection pool min size.
    pub db_pool_min: u32,
    /// Database connection pool max size.
    pub db_pool_max: u32,
    /// Access token expiry in seconds.
    pub access_token_expiry_secs: u64,
    /// Refresh token expiry in seconds.
    pub refresh_token_expiry_secs: u64,
}

/// API error response body.
#[derive(Debug)]
pub struct ErrorResponse {
    pub error: String,
    pub message: String,
}

/// Application-level error type. A database failure carries the driver's
/// message.
#[derive(Debug)]
pub enum AppError {
    BadRequest(String),
    Unauthorized(String),
    NotFound(String),
    Conflict(String),
    Internal(String),
    Database(String),
}

/// The human-readable message of an application error.
pub open spec fn app_error_message(e: AppError) -> Seq<char> {
    match e {
        AppError::BadRequest(s) => "Bad request: "@ + s@,
        AppError::Unauthorized(s) => "Unauthorized: "@ + s@,
        AppError::NotFound(s) => "Not found: "@ + s@,
        AppError::Conflict(s) => "Conflict: "@ + s@,
        AppError::Internal(s) => "Internal server error: "@ + s@,
        AppError::Database(s) => "Database error: "@ + s@,
    }
}

/// The HTTP status that an application error answers with.
pub open spec fn app_error_status(e: AppError) -> u16 {
    match e {
        AppError::BadRequest(_) => 400,
        AppError::Unauthorized(_) => 401,
        AppError::NotFound(_) => 404,
        AppError::Conflict(_) => 409,
        AppError::Internal(_) => 500,
        AppError::Database(_) => 500,
    }
}

/// The error kind named in the response body.
pub open spec fn app_error_kind(e: AppError) -> Seq<char> {
    match e {
        AppError::BadRequest(_) => "bad_request"@,
        AppError::Unauthorized(_) => "unauthorized"@,
        AppError::NotFound(_) => "not_found"@,
        AppError::Conflict(_) => "conflict"@,
        AppError::Internal(_) => "internal_error"@,
        AppError::Database(_) => "database_error"@,
    }
}

/// The message shown to the client: the error's own for client errors; a
/// fixed text for internal and database failures, whose details stay on
/// the server.
pub open spec fn app_error_public_message(e: AppError) -> Seq<char> {
    match e {
        AppError::BadRequest(s) => s@,
        AppError::Unauthorized(s) => s@,
        AppError::NotFound(s) => s@,
        AppError::Conflict(s) => s@,
        AppError::Internal(_) => "An internal error occurred"@,
        AppError::Database(_) => "A database error occurred"@,
    }
}

impl AppError {
    /// The error's message, as its `Display` form reads.
    pub fn message(&self) -> (m: String)
        ensures
            m@ == app_error_message(*self),
    {
        match self {
            AppError::BadRequest(s) => concat_str("Bad request: ", s.as_str()),
            AppError::Unauthorized(s) => concat_str("Unauthorized: ", s.as_str()),
            AppError::NotFound(s) => concat_str("Not found: ", s.as_str()),
            AppError::Conflict(s) => concat_str("Conflict: ", s.as_str()),
            AppError::Internal(s) => concat_str("Internal server error: ", s.as_str()),
            AppError::Database(s) => concat_str("Database error: ", s.as_str()),
        }
    }

    /// The HTTP status and body that answer this error.
    pub fn into_response_parts(&self) -> (r: (u16, ErrorResponse))
        ensures
            r.0 == app_error_status(*self),
            r.1.error@ == app_error_kind(*self),
            r.1.message@ == app_error_public_message(*self),
    {
        match self {
            AppError::BadRequest(m) => (400, ErrorResponse { error: String::from_str("bad_request"), message: m.clone() }),
            AppError::Unauthorized(m) => (401, ErrorResponse { error: String::from_str("unauthorized"), message: m.clone() }),
            AppError::NotFound(m) => (404, ErrorResponse { error: String::from_str("not_found"), message: m.clone() }),
            AppError::Conflict(m) => (409, ErrorResponse { error: String::from_str("conflict"), message: m.clone() }),
            AppError::Internal(_) => (500, ErrorResponse {
                error: String::from_str("internal_error"),
                message: String::from_str("An internal error occurred"),
            }),
            AppError::Database(_) => (500, ErrorResponse {
                error: String::from_str("database_error"),
                message: String::from_str("A database error occurred"),
            }),
        }
    }
}

/// JWT claims payload.
#[derive(Debug, Clone)]
pub struct Claims {
    /// Subject (user ID).
    pub sub: String,
    /// Expiration time (Unix timestamp, seconds).
    pub exp: u64,
    /// Issued at (milliseconds since the Unix epoch).
    pub iat: u64,
    /// Device ID.
    pub device_id: String,
}

/// The authenticated user of a request.
#[derive(Debug, Clone)]
pub struct AuthUser {
    pub user_id: String,
    pub device_id: String,
}

/// Token pair returned after successful authentication.
#[derive(Debug)]
pub struct TokenPair {
    pub access_token: String,
    pub refresh_token: String,
    pub expires_in: u64,
}

#[derive(Debug)]
pub struct RegisterRequest {
    pub username: String,
    pub email: String,
    pub password: String,
}

#[derive(Debug)]
pub struct RegisterResponse {
    pub user_id: String,
    pub message: String,
}

#[derive(Debug)]
pub struct LoginRequest {
    /// Username or email.
    pub credential: String,
    pub password: String,
    /// Client-generated device ID.
    pub device_id: String,
    /// Human-readable device name.
    pub device_name: Option<String>,
    /// Platform (e.g., "ios", "macos", "android").
    pub platform: Option<String>,
}

#[derive(Debug)]
pub struct LoginResponse {
    pub access_token: String,
    pub refresh_token: String,
    pub expires_in: u64,
    pub user_id: String,
}

#[derive(Debug)]
pub struct RefreshRequest {
    pub refresh_token: String,
    pub device_id: String,
}

#[derive(Debug)]
pub struct RefreshResponse {
    pub access_token: String,
    pub refresh_token: String,
    pub expires_in: u64,
    pub user_id: String,
}

#[derive(Debug)]
pub struct ChangePasswordRequest {
    pub old_password: String,
    pub new_password: String,
}

#[derive(Debug)]
pub struct MessageResponse {
    pub message: String,
}

#[derive(Debug)]
pub struct DeviceInfo {
    pub device_id: String,
    pub device_name: String,
    pub platform: String,
    pub last_active_at: String,
    pub created_at: String,
}

#[derive(Debug)]
pub struct DevicesResponse {
    pub devices: Vec<DeviceInfo>,
}

#[derive(Debug)]
pub struct UploadInitRequest {
    /// The file name as uploaded.
    pub file_name: String,
    /// Total file size in bytes.
    pub file_size: i64,
    /// Expected SHA-256 hash of the complete file.
    pub sha256: String,
    /// Chunk size in bytes (default: 4 MiB).
    pub chunk_size: Option<i64>,
}

#[derive(Debug)]
pub struct UploadInitResponse {
    pub upload_id: String,
    pub chunk_size: i64,
    pub total_chunks: i64,
}

#[derive(Debug)]
pub struct UploadChunkResponse {
    pub chunk_index: i64,
    pub received_bytes: i64,
}

#[derive(Debug)]
pub struct UploadCompleteResponse {
    pub file_id: String,
    pub file_name: String,
    pub file_size: i64,
    pub sha256: String,
}

#[derive(Debug)]
pub struct FileInfo {
    pub file_id: String,
    pub file_name: String,
    pub file_size: i64,
    pub sha256: String,
    pub created_at: String,
}

#[derive(Debug)]
pub struct FilesListResponse {
    pub files: Vec<FileInfo>,
}

#[derive(Debug)]
pub struct PushRequest {
    /// Batch of operations to push (max 500 per request).
    pub operations: Vec<PushOperation>,
}

#[derive(Debug)]
pub struct PushOperation {
    pub op_id: String,
    pub op_type: String,
    pub op_data: String,
    pub hlc_ts: i64,
}

#[derive(Debug)]
pub struct PushResponse {
    pub accepted_count: usize,
    pub server_timestamp: String,
}

#[derive(Debug)]
pub struct PullQuery {
    /// Server sequence cursor (0 = from beginning).
    pub cursor: Option<i64>,
    /// Number of operations to return (default 100, max 1000).
    pub limit: Option<i64>,
}

#[derive(Debug)]
pub struct PullResponse {
    pub operations: Vec<PullOperation>,
    pub next_cursor: i64,
    pub has_more: bool,
}

#[derive(Debug)]
pub struct PullOperation {
    pub server_seq: i64,
    pub op_id: String,
    pub op_type: String,
    pub op_data: String,
    pub hlc_ts: i64,
    pub device_id: String,
    pub created_at: String,
}

} // verus!
