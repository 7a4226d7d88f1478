use subreader::auth::{
    auth_error_from_status, classify_unauthorized_message, AuthError, AuthManager, AuthState, AuthToken,
    TokenStep, TokenStore,
};
use subreader::scheduler::TokenProvider;
use subreader::token_store::{MemoryTokenStore, StoredTokenProvider};

fn make_test_token() -> AuthToken {
    AuthToken {
        access_token: "access-123".to_string(),
        refresh_token: "refresh-456".to_string(),
        expires_in: 3600,
        user_id: "user-789".to_string(),
    }
}

#[test]
fn test_auth_state_equality() {
    assert_eq!(AuthState::LoggedOut, AuthState::LoggedOut);
    assert_eq!(AuthState::NeedsRefresh, AuthState::NeedsRefresh);
    assert_eq!(AuthState::NeedsReLogin, AuthState::NeedsReLogin);
    assert_eq!(AuthState::Authenticated { user_id: "u1".into() }, AuthState::Authenticated { user_id: "u1".into() });
    assert_ne!(AuthState::LoggedOut, AuthState::NeedsRefresh);
}

#[test]
fn test_auth_error_display() {
    let err = AuthError::InvalidCredentials;
    assert_eq!(err.message(), "Invalid credentials");
    let err = AuthError::TokenExpired;
    assert_eq!(err.message(), "Token expired");
    let err = AuthError::NetworkError("timeout".into());
    assert_eq!(err.message(), "Network error: timeout");
    let err = AuthError::ServerError { status_code: 500, message: "internal".into() };
    assert_eq!(err.message(), "Server error: 500 - internal");
}

#[test]
fn test_memory_store_initially_empty() {
    let store = MemoryTokenStore::new();
    let token = store.load_token().unwrap();
    assert!(token.is_none());
}

#[test]
fn test_memory_store_save_and_load() {
    let mut store = MemoryTokenStore::new();
    let token = make_test_token();
    store.save_token(&token).unwrap();
    let loaded = store.load_token().unwrap().unwrap();
    assert_eq!(loaded.access_token, "access-123");
    assert_eq!(loaded.refresh_token, "refresh-456");
    assert_eq!(loaded.expires_in, 3600);
    assert_eq!(loaded.user_id, "user-789");
}

#[test]
fn test_memory_store_clear() {
    let mut store = MemoryTokenStore::new();
    store.save_token(&make_test_token()).unwrap();
    store.clear_token().unwrap();
    assert!(store.load_token().unwrap().is_none());
}

#[test]
fn test_memory_store_overwrite() {
    let mut store = MemoryTokenStore::new();
    store.save_token(&make_test_token()).unwrap();
    let new_token = AuthToken {
        access_token: "new-access".to_string(),
        refresh_token: "new-refresh".to_string(),
        expires_in: 7200,
        user_id: "new-user".to_string(),
    };
    store.save_token(&new_token).unwrap();
    let loaded = store.load_token().unwrap().unwrap();
    assert_eq!(loaded.access_token, "new-access");
}

#[test]
fn test_memory_store_default() {
    let store = MemoryTokenStore::default();
    assert!(store.load_token().unwrap().is_none());
}

#[test]
fn test_stored_token_provider_reads_access_token() {
    let mut store = MemoryTokenStore::new();
    store.save_token(&make_test_token()).unwrap();
    let provider = StoredTokenProvider::new(store);
    assert_eq!(TokenProvider::get_token(&provider), Some("access-123".to_string()));
}

#[test]
fn test_stored_token_provider_returns_none_when_empty() {
    let provider = StoredTokenProvider::new(MemoryTokenStore::new());
    assert_eq!(TokenProvider::get_token(&provider), None);
}

#[test]
fn test_classify_unauthorized_invalid_credentials() {
    let err = classify_unauthorized_message("Invalid credentials");
    assert!(matches!(err, AuthError::InvalidCredentials));
}

#[test]
fn test_classify_unauthorized_expired_refresh_token() {
    let err = classify_unauthorized_message("Invalid or expired refresh token");
    assert!(matches!(err, AuthError::TokenExpired));
}

#[test]
fn test_classify_unauthorized_removed_device() {
    let err = classify_unauthorized_message("Device is no longer authorized");
    assert!(matches!(err, AuthError::NotAuthenticated));
}

#[test]
fn test_classify_unauthorized_unknown_message_defaults_to_not_authenticated() {
    let err = classify_unauthorized_message("invalid token");
    assert!(matches!(err, AuthError::NotAuthenticated));
}

#[test]
fn classify_trims_and_folds_case() {
    assert!(matches!(classify_unauthorized_message("  INVALID CREDENTIALS\n"), AuthError::InvalidCredentials));
    assert!(matches!(auth_error_from_status(409, "taken".into()), AuthError::RegistrationFailed(m) if m == "taken"));
    assert!(matches!(auth_error_from_status(401, "Invalid credentials".into()), AuthError::InvalidCredentials));
    assert!(matches!(
        auth_error_from_status(503, "busy".into()),
        AuthError::ServerError { status_code: 503, message } if message == "busy"
    ));
}

#[test]
fn test_auth_manager_initial_state_logged_out() {
    let manager = AuthManager::new(MemoryTokenStore::new(), "device-1".into());
    assert_eq!(manager.state(), AuthState::LoggedOut);
    assert!(manager.access_token().is_none());
    assert!(manager.user_id().is_none());
}

#[test]
fn auth_manager_with_saved_token_needs_refresh() {
    let mut store = MemoryTokenStore::new();
    store.save_token(&make_test_token()).unwrap();
    let manager = AuthManager::new(store, "device-1".into());
    assert_eq!(manager.state(), AuthState::NeedsRefresh);
    assert!(matches!(manager.token_step(), TokenStep::Refresh));
}

#[test]
fn auth_manager_login_then_refresh_then_logout() {
    let mut manager = AuthManager::new(MemoryTokenStore::new(), "device-1".into());
    let req = manager.login_request("alice", "pw", Some("Phone"), None);
    assert_eq!(req.device_id, "device-1");
    assert_eq!(req.device_name.as_deref(), Some("Phone"));
    let token = manager.finish_login(Ok(make_test_token())).unwrap();
    assert_eq!(token.user_id, "user-789");
    assert_eq!(manager.state(), AuthState::Authenticated { user_id: "user-789".into() });
    assert!(matches!(manager.token_step(), TokenStep::Ready(t) if t == "access-123"));
    let (rt, dev) = manager.refresh_request().unwrap();
    assert_eq!((rt.as_str(), dev.as_str()), ("refresh-456", "device-1"));
    let fresh = AuthToken {
        access_token: "a2".into(),
        refresh_token: "r2".into(),
        expires_in: 10,
        user_id: String::new(),
    };
    let saved = manager.finish_refresh(Ok(fresh)).unwrap();
    assert_eq!(saved.user_id, "user-789");
    assert_eq!(manager.access_token(), Some("a2".to_string()));
    manager.finish_logout().unwrap();
    assert_eq!(manager.state(), AuthState::LoggedOut);
    assert!(manager.access_token().is_none());
    assert!(matches!(manager.token_step(), TokenStep::Denied));
}

#[test]
fn auth_manager_refresh_failures() {
    let mut manager = AuthManager::new(MemoryTokenStore::new(), "device-1".into());
    assert!(matches!(manager.refresh_request(), Err(AuthError::NotAuthenticated)));
    manager.finish_login(Ok(make_test_token())).unwrap();
    let r = manager.finish_refresh(Err(AuthError::NetworkError("offline".into())));
    assert!(matches!(r, Err(AuthError::NetworkError(_))));
    assert_eq!(manager.state(), AuthState::NeedsRefresh);
    assert_eq!(manager.access_token(), Some("access-123".to_string()));
    let r = manager.finish_refresh(Err(AuthError::TokenExpired));
    assert!(matches!(r, Err(AuthError::TokenExpired)));
    assert_eq!(manager.state(), AuthState::NeedsReLogin);
    assert!(manager.access_token().is_none());
    let r = manager.finish_login(Err(AuthError::InvalidCredentials));
    assert!(matches!(r, Err(AuthError::InvalidCredentials)));
    assert_eq!(manager.state(), AuthState::NeedsReLogin);
}

#[test]
fn manager_from_loaded_answers() {
    let m = AuthManager::from_loaded(MemoryTokenStore::new(), "dev".to_string(), Ok(Some(make_test_token())));
    assert_eq!(m.state(), AuthState::NeedsRefresh);
    assert_eq!(m.access_token(), Some("access-123".to_string()));
    let m = AuthManager::from_loaded(MemoryTokenStore::new(), "dev".to_string(), Ok(None));
    assert_eq!(m.state(), AuthState::LoggedOut);
    assert!(m.access_token().is_none());
    let m = AuthManager::from_loaded(
        MemoryTokenStore::new(),
        "dev".to_string(),
        Err(AuthError::StorageError("disk".to_string())),
    );
    assert_eq!(m.state(), AuthState::LoggedOut);
    assert_eq!(m.device_id(), "dev");
}

#[test]
fn login_after_save_follows_the_store() {
    let mut m = AuthManager::new(MemoryTokenStore::new(), "dev".to_string());
    let r = m.login_after_save(make_test_token(), Err(AuthError::StorageError("full".to_string())));
    assert!(matches!(r, Err(AuthError::StorageError(_))));
    assert_eq!(m.state(), AuthState::LoggedOut);
    assert!(m.access_token().is_none());
    let t = m.login_after_save(make_test_token(), Ok(())).unwrap();
    assert_eq!(t.access_token, "access-123");
    assert_eq!(m.access_token(), Some("access-123".to_string()));
    assert!(matches!(m.state(), AuthState::Authenticated { .. }));
}
