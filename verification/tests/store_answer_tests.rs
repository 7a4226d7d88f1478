use subreader::auth::{AuthError, AuthManager, AuthState, AuthToken, TokenStore};
use subreader::sync_engine::{batches_for, pull_cursor_of, SyncError, UnsyncedOp};
use subreader::token_store::MemoryTokenStore;

fn op(id: i64) -> UnsyncedOp {
    UnsyncedOp {
        local_id: id,
        op_id: format!("op-{}", id),
        op_type: "AddBookmark".to_string(),
        op_data: "{}".to_string(),
        hlc_ts: 7,
        device_id: "dev-1".to_string(),
    }
}

#[test]
fn batches_for_splits_loaded_ops_in_order() {
    let ops: Vec<UnsyncedOp> = (0..1001).map(op).collect();
    let batches = batches_for(Ok(ops)).unwrap();
    assert_eq!(batches.len(), 3);
    assert_eq!(batches[0].payloads.len(), 500);
    assert_eq!(batches[1].payloads.len(), 500);
    assert_eq!(batches[2].payloads.len(), 1);
    assert_eq!(batches[1].local_ids[0], 500);
    assert_eq!(batches[2].payloads[0].op_id, "op-1000");
    assert!(batches_for(Ok(Vec::new())).unwrap().is_empty());
    match batches_for(Err(SyncError::Storage("db down".to_string()))) {
        Err(SyncError::Storage(m)) => assert_eq!(m, "db down"),
        other => panic!("unexpected {:?}", other.map(|b| b.len())),
    }
}

#[test]
fn pull_cursor_of_reads_stored_text() {
    assert_eq!(pull_cursor_of(Ok(Some("42".to_string()))).unwrap(), 42);
    assert_eq!(pull_cursor_of(Ok(Some("-3".to_string()))).unwrap(), -3);
    assert_eq!(pull_cursor_of(Ok(Some("abc".to_string()))).unwrap(), 0);
    assert_eq!(pull_cursor_of(Ok(None)).unwrap(), 0);
    assert!(matches!(pull_cursor_of(Err(SyncError::NotAuthenticated)), Err(SyncError::NotAuthenticated)));
}

#[test]
fn logout_after_clear_follows_the_store() {
    let mut store = MemoryTokenStore::new();
    store
        .save_token(&AuthToken {
            access_token: "a".to_string(),
            refresh_token: "r".to_string(),
            expires_in: 1,
            user_id: "u".to_string(),
        })
        .unwrap();
    let mut m = AuthManager::new(store, "dev".to_string());
    assert_eq!(m.state(), AuthState::NeedsRefresh);
    match m.logout_after_clear(Err(AuthError::StorageError("locked".to_string()))) {
        Err(AuthError::StorageError(s)) => assert_eq!(s, "locked"),
        other => panic!("unexpected {:?}", other),
    }
    assert_eq!(m.state(), AuthState::NeedsRefresh);
    assert_eq!(m.access_token(), Some("a".to_string()));
    assert!(m.logout_after_clear(Ok(())).is_ok());
    assert_eq!(m.state(), AuthState::LoggedOut);
    assert_eq!(m.access_token(), None);
}

#[test]
fn finish_logout_with_memory_store_logs_out() {
    let mut m = AuthManager::new(MemoryTokenStore::new(), "dev".to_string());
    assert!(m.finish_logout().is_ok());
    assert_eq!(m.state(), AuthState::LoggedOut);
}
