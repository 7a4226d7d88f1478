use subreader::server_rules::{
    access_token_claims, bearer_token, check_assembled_file, check_chunk_count, check_chunk_index,
    check_session_owner, chunk_name, config_from_source, encode_content_disposition, hash_refresh_token,
    map_user_file_insert_error, pull_limit, pull_page, refresh_device_check, rotation_went_through,
    stale_refresh, token_passes_cutoffs, upload_chunking, validate_new_password, validate_push_batch,
    validate_registration, validate_upload_request, ConfigSource, StaleRefresh,
};
use subreader::server_rules::{app_error_from_db, map_register_insert_error, DbFailure};
use subreader::server_types::{AppError, AuthUser, PullOperation};

#[test]
fn test_auth_user_debug() {
    let user = AuthUser { user_id: "u1".to_string(), device_id: "d1".to_string() };
    let debug = format!("{:?}", user);
    assert!(debug.contains("u1"));
    assert!(debug.contains("d1"));
}

#[test]
fn test_auth_user_clone() {
    let user = AuthUser { user_id: "u1".to_string(), device_id: "d1".to_string() };
    let cloned = user.clone();
    assert_eq!(cloned.user_id, "u1");
    assert_eq!(cloned.device_id, "d1");
}

#[test]
fn test_app_error_display() {
    let err = AppError::BadRequest("missing field".into());
    assert_eq!(err.message(), "Bad request: missing field");
    let err = AppError::Unauthorized("invalid token".into());
    assert_eq!(err.message(), "Unauthorized: invalid token");
    let err = AppError::NotFound("user not found".into());
    assert_eq!(err.message(), "Not found: user not found");
    let err = AppError::Conflict("duplicate".into());
    assert_eq!(err.message(), "Conflict: duplicate");
    let err = AppError::Internal("panic".into());
    assert_eq!(err.message(), "Internal server error: panic");
}

#[test]
fn test_bad_request_returns_400() {
    assert_eq!(AppError::BadRequest("test".into()).into_response_parts().0, 400);
}

#[test]
fn test_unauthorized_returns_401() {
    assert_eq!(AppError::Unauthorized("test".into()).into_response_parts().0, 401);
}

#[test]
fn test_not_found_returns_404() {
    assert_eq!(AppError::NotFound("test".into()).into_response_parts().0, 404);
}

#[test]
fn test_conflict_returns_409() {
    assert_eq!(AppError::Conflict("test".into()).into_response_parts().0, 409);
}

#[test]
fn test_internal_returns_500() {
    let (status, body) = AppError::Internal("test".into()).into_response_parts();
    assert_eq!(status, 500);
    assert_eq!(body.error, "internal_error");
    assert_eq!(body.message, "An internal error occurred");
    let (status, body) = AppError::Database("locked".into()).into_response_parts();
    assert_eq!(status, 500);
    assert_eq!(body.error, "database_error");
    assert_eq!(body.message, "A database error occurred");
}

fn bad_request(r: Result<(), AppError>) -> String {
    match r {
        Err(AppError::BadRequest(m)) => m,
        _ => panic!("expected a bad request"),
    }
}

#[test]
fn registration_rules() {
    assert!(validate_registration("alice", "a@b.c", "password1").is_ok());
    assert_eq!(bad_request(validate_registration("al", "a@b.c", "password1")), "Username must be between 3 and 32 characters");
    assert_eq!(bad_request(validate_registration(&"x".repeat(33), "a@b.c", "password1")), "Username must be between 3 and 32 characters");
    assert_eq!(bad_request(validate_registration("alice", "ab.c", "password1")), "Invalid email format");
    assert_eq!(bad_request(validate_registration("alice", "a@bc", "password1")), "Invalid email format");
    assert_eq!(bad_request(validate_registration("alice", "a@b.c", "short")), "Password must be at least 8 characters");
    assert_eq!(bad_request(validate_new_password("1234567")), "New password must be at least 8 characters");
    assert!(validate_new_password("12345678").is_ok());
}

#[test]
fn claims_and_cutoffs() {
    let c = access_token_claims("u1", "d1", 1_700_000_123_456, 3600);
    assert_eq!(c.sub, "u1");
    assert_eq!(c.device_id, "d1");
    assert_eq!(c.iat, 1_700_000_123_456);
    assert_eq!(c.exp, 1_700_000_123 + 3600);
    assert!(token_passes_cutoffs(100, 100, 50));
    assert!(!token_passes_cutoffs(99, 100, 50));
    assert!(!token_passes_cutoffs(99, 10, 100));
    assert_eq!(bearer_token("Bearer abc.def"), Some("abc.def".to_string()));
    assert_eq!(bearer_token("bearer abc"), None);
    assert_eq!(bearer_token("Bearer"), None);
}

#[test]
fn refresh_rotation_decisions() {
    let (what, err) = stale_refresh(Some(("u7".to_string(), "rotated".to_string())));
    assert!(matches!(what, StaleRefresh::RevokeUser(u) if u == "u7"));
    assert!(matches!(err, AppError::Unauthorized(m) if m == "Invalid or expired refresh token"));
    let (what, _) = stale_refresh(Some(("u7".to_string(), "logout".to_string())));
    assert!(matches!(what, StaleRefresh::Refuse));
    let (what, _) = stale_refresh(None);
    assert!(matches!(what, StaleRefresh::Refuse));
    assert!(rotation_went_through(1));
    assert!(!rotation_went_through(0));
    assert!(!rotation_went_through(2));
    assert_eq!(refresh_device_check(Some((100, 1)), 150).unwrap(), 150);
    assert_eq!(refresh_device_check(Some((200, 1)), 200).unwrap(), 200);
    assert!(matches!(refresh_device_check(Some((300, 1)), 150), Err(AppError::Unauthorized(m)) if m == "Device is no longer authorized"));
    assert!(matches!(refresh_device_check(Some((100, 0)), 150), Err(AppError::Unauthorized(_))));
    assert!(matches!(refresh_device_check(None, 150), Err(AppError::Unauthorized(_))));
}

fn op(seq: i64) -> PullOperation {
    PullOperation {
        server_seq: seq,
        op_id: format!("o{}", seq),
        op_type: "t".into(),
        op_data: "{}".into(),
        hlc_ts: 1,
        device_id: "d".into(),
        created_at: "now".into(),
    }
}

#[test]
fn push_and_pull_paging() {
    assert_eq!(bad_request(validate_push_batch(0)), "No operations to push");
    assert_eq!(bad_request(validate_push_batch(501)), "Maximum 500 operations per push request");
    assert!(validate_push_batch(500).is_ok());
    assert_eq!(pull_limit(None), 100);
    assert_eq!(pull_limit(Some(5000)), 1000);
    assert_eq!(pull_limit(Some(0)), 1);
    assert_eq!(pull_limit(Some(-3)), 1);
    assert_eq!(pull_limit(Some(7)), 7);
    let page = pull_page(vec![op(4), op(5), op(6)], 2, 3);
    assert!(page.has_more);
    assert_eq!(page.operations.len(), 2);
    assert_eq!(page.next_cursor, 5);
    let page = pull_page(vec![], 10, 42);
    assert!(!page.has_more);
    assert_eq!(page.next_cursor, 42);
}

#[test]
fn upload_rules() {
    assert_eq!(bad_request(validate_upload_request(0, "a.epub")), "File size must be between 1 byte and 524288000 bytes");
    assert_eq!(bad_request(validate_upload_request(524288001, "a.epub")), "File size must be between 1 byte and 524288000 bytes");
    assert_eq!(bad_request(validate_upload_request(10, "")), "File name must be between 1 and 255 characters");
    assert!(validate_upload_request(10, "a.epub").is_ok());
    assert_eq!(upload_chunking(None, 10_000_000).unwrap(), (4194304, 3));
    assert_eq!(upload_chunking(Some(1024), 1024).unwrap(), (1024, 1));
    match upload_chunking(Some(1000), 10) {
        Err(AppError::BadRequest(m)) => assert_eq!(m, "Chunk size must be between 1024 and 8388608 bytes"),
        _ => panic!("expected a bad request"),
    }
    assert_eq!(bad_request(check_chunk_index(3, 3)), "Chunk index must be between 0 and 2");
    assert_eq!(bad_request(check_chunk_index(-1, 3)), "Chunk index must be between 0 and 2");
    assert!(check_chunk_index(2, 3).is_ok());
    assert_eq!(chunk_name(7), "chunk_000007");
    assert_eq!(chunk_name(1234567), "chunk_1234567");
    assert_eq!(bad_request(check_chunk_count(3, 2)), "Expected 3 chunks, but only 2 received");
    assert!(check_chunk_count(3, 3).is_ok());
    assert_eq!(
        bad_request(check_assembled_file(&"aa".to_string(), &"bb".to_string(), 1, 1)),
        "SHA-256 mismatch: expected aa, got bb"
    );
    assert_eq!(
        bad_request(check_assembled_file(&"aa".to_string(), &"aa".to_string(), 10, 9)),
        "File size mismatch: expected 10, got 9"
    );
    assert!(check_assembled_file(&"aa".to_string(), &"aa".to_string(), 10, 10).is_ok());
    assert!(matches!(check_session_owner(&"u1".to_string(), &"u2".to_string()), Err(AppError::Unauthorized(_))));
    let e = map_user_file_insert_error(AppError::Database("UNIQUE constraint failed: user_files.sha256".into()), "abc");
    assert!(matches!(e, AppError::Conflict(m) if m == "File with same hash already exists: abc"));
    let e = map_user_file_insert_error(AppError::Database("disk full".into()), "abc");
    assert!(matches!(e, AppError::Database(m) if m == "disk full"));
}

#[test]
fn content_disposition_header() {
    assert_eq!(encode_content_disposition("My Book-1.epub"), "attachment; filename=\"My Book-1.epub\"");
    assert_eq!(
        encode_content_disposition("書 \"x\".epub"),
        "attachment; filename=\"_ _x_.epub\"; filename*=UTF-8''%E6%9B%B8%20%22x%22.epub"
    );
}

#[test]
fn refresh_token_hash_is_sha256_hex() {
    let h = hash_refresh_token("abc");
    assert_eq!(h, "ba7816bf8f01cfea414140de5dae2223b00361a396177a9cb410ff61f20015ad");
    assert_eq!(hash_refresh_token("abc"), h);
    assert_ne!(hash_refresh_token("abd"), h);
}

fn src(db: Option<&str>, jwt: Option<&str>) -> ConfigSource {
    ConfigSource {
        database_url: db.map(|s| s.to_string()),
        jwt_secret: jwt.map(|s| s.to_string()),
        listen_addr: None,
        storage_path: None,
        db_pool_min: None,
        db_pool_max: Some("x".to_string()),
        access_token_expiry_secs: Some("60".to_string()),
        refresh_token_expiry_secs: None,
    }
}

#[test]
fn config_defaults_and_requirements() {
    assert_eq!(config_from_source(src(None, Some("s"))).unwrap_err(), "DATABASE_URL environment variable is required");
    assert_eq!(config_from_source(src(Some("db"), None)).unwrap_err(), "JWT_SECRET environment variable is required");
    let c = config_from_source(src(Some("db"), Some("s"))).unwrap();
    assert_eq!(c.listen_addr, "0.0.0.0:8080");
    assert_eq!(c.storage_path, "./storage");
    assert_eq!(c.db_pool_min, 5);
    assert_eq!(c.db_pool_max, 50);
    assert_eq!(c.access_token_expiry_secs, 60);
    assert_eq!(c.refresh_token_expiry_secs, 2592000);
}

#[test]
fn test_generate_refresh_token_is_uuid() {
    let token = subreader::server_rules::generate_refresh_token();
    assert!(uuid::Uuid::parse_str(&token).is_ok());
}

#[test]
fn test_generate_refresh_token_unique() {
    let t1 = subreader::server_rules::generate_refresh_token();
    let t2 = subreader::server_rules::generate_refresh_token();
    assert_ne!(t1, t2);
}

#[test]
fn test_hash_refresh_token_deterministic() {
    let hash1 = hash_refresh_token("my-token");
    let hash2 = hash_refresh_token("my-token");
    assert_eq!(hash1, hash2);
}

#[test]
fn test_hash_refresh_token_different_inputs() {
    let hash1 = hash_refresh_token("token-a");
    let hash2 = hash_refresh_token("token-b");
    assert_ne!(hash1, hash2);
}

#[test]
fn test_hash_refresh_token_is_hex_sha256() {
    let hash = hash_refresh_token("test");
    assert_eq!(hash.len(), 64);
    assert!(hash.chars().all(|c| c.is_ascii_hexdigit()));
}

#[test]
fn hash_refresh_token_known_value() {
    assert_eq!(hash_refresh_token("abc"), "ba7816bf8f01cfea414140de5dae2223b00361a396177a9cb410ff61f20015ad");
}

#[test]
fn database_failures_map_to_conflicts() {
    let f = |db: bool, uv: bool, m: &str| DbFailure { from_database: db, unique_violation: uv, message: m.to_string() };
    assert!(matches!(
        map_register_insert_error(f(true, true, "UNIQUE constraint failed: users.username")),
        AppError::Conflict(m) if m == "Username already taken"
    ));
    assert!(matches!(
        map_register_insert_error(f(true, true, "UNIQUE constraint failed: users.email")),
        AppError::Conflict(m) if m == "Email already registered"
    ));
    assert!(matches!(
        map_register_insert_error(f(true, false, "UNIQUE constraint failed: users.id")),
        AppError::Conflict(m) if m == "Resource already exists"
    ));
    assert!(matches!(app_error_from_db(f(true, true, "x")), AppError::Conflict(_)));
    assert!(matches!(app_error_from_db(f(false, false, "pool timed out")), AppError::Database(m) if m == "pool timed out"));
    assert!(matches!(
        map_register_insert_error(f(false, false, "users.username")),
        AppError::Database(_)
    ));
}
