use subreader::ffi_codes::{
    auth_error_to_ffi, auth_state_to_i32, current_base_url, manual_sync_outcome, sync_error_to_ffi,
    sync_state_to_i32, FFI_ERR_ALREADY_INIT, FFI_ERR_AUTH, FFI_ERR_INVALID_JSON, FFI_ERR_INVALID_UTF8,
    FFI_ERR_NETWORK, FFI_ERR_NOT_FOUND, FFI_ERR_NOT_INIT, FFI_ERR_NULL_PTR, FFI_ERR_PANIC, FFI_ERR_PARSE_FAILED,
    FFI_ERR_STORAGE, FFI_ERR_SYNC, FFI_ERR_UNKNOWN, FFI_OK,
};
use subreader::auth::{AuthError, AuthState};
use subreader::scheduler::{SchedulerAction, SchedulerCore, SchedulerEvent, SyncState};
use subreader::sync_engine::SyncError;

#[test]
fn test_sync_state_equality() {
    assert_eq!(SyncState::Idle, SyncState::Idle);
    assert_eq!(SyncState::Syncing, SyncState::Syncing);
    assert_eq!(SyncState::Error, SyncState::Error);
    assert_eq!(SyncState::Offline, SyncState::Offline);
    assert_eq!(SyncState::Dormant, SyncState::Dormant);
    assert_ne!(SyncState::Idle, SyncState::Syncing);
}

#[test]
fn test_sync_state_debug() {
    assert_eq!(format!("{:?}", SyncState::Idle), "Idle");
    assert_eq!(format!("{:?}", SyncState::Syncing), "Syncing");
    assert_eq!(format!("{:?}", SyncState::Error), "Error");
    assert_eq!(format!("{:?}", SyncState::Offline), "Offline");
    assert_eq!(format!("{:?}", SyncState::Dormant), "Dormant");
}

#[test]
fn test_sync_state_clone() {
    let state = SyncState::Syncing;
    let cloned = state;
    assert_eq!(state, cloned);
}

#[test]
fn scheduler_starts_once_and_stops_dormant() {
    let mut s = SchedulerCore::new();
    assert_eq!(s.state(), SyncState::Dormant);
    assert_eq!(s.on_event(SchedulerEvent::SyncNowRequested, Some("t".into())), SchedulerAction::Ignore);
    assert_eq!(s.start(Some("tok".into())), SchedulerAction::FullSync("tok".into()));
    assert_eq!(s.state(), SyncState::Idle);
    assert_eq!(s.start(Some("tok".into())), SchedulerAction::Ignore);
    assert!(s.begin_run(false));
    assert_eq!(s.state(), SyncState::Syncing);
    s.finish_sync(&Ok((1, 2)));
    assert_eq!(s.state(), SyncState::Idle);
    assert_eq!(s.on_event(SchedulerEvent::PushRequested, Some("t".into())), SchedulerAction::ArmDebounce);
    assert_eq!(s.on_event(SchedulerEvent::DebounceElapsed, Some("t".into())), SchedulerAction::Push("t".into()));
    assert_eq!(s.on_event(SchedulerEvent::PollTick, None), SchedulerAction::GoDormant);
    assert_eq!(s.state(), SyncState::Dormant);
    assert_eq!(s.on_event(SchedulerEvent::StopRequested, Some("t".into())), SchedulerAction::Shutdown(Some("t".into())));
    s.finish_stop();
    assert_eq!(s.state(), SyncState::Dormant);
    assert!(!s.running());
}

#[test]
fn scheduler_start_without_token_is_dormant() {
    let mut s = SchedulerCore::new();
    assert_eq!(s.start(None), SchedulerAction::GoDormant);
    assert_eq!(s.state(), SyncState::Idle);
    s.go_dormant();
    assert_eq!(s.state(), SyncState::Dormant);
    assert!(s.running());
}

#[test]
fn scheduler_failure_states() {
    let mut s = SchedulerCore::new();
    s.start(Some("t".into()));
    s.finish_sync(&Err(SyncError::NotAuthenticated));
    assert_eq!(s.state(), SyncState::Dormant);
    s.finish_sync(&Err(SyncError::Transport("down".into())));
    assert_eq!(s.state(), SyncState::Offline);
    s.finish_sync(&Err(SyncError::Storage("disk".into())));
    assert_eq!(s.state(), SyncState::Error);
    s.finish_push(&Ok(3));
    assert_eq!(s.state(), SyncState::Idle);
    s.finish_push(&Err(SyncError::Transport("x".into())));
    assert_eq!(s.state(), SyncState::Error);
    assert!(!s.begin_run(true));
    assert_eq!(s.state(), SyncState::Syncing);
}

#[test]
fn test_error_codes_values() {
    assert_eq!(FFI_OK, 0);
    assert_eq!(FFI_ERR_NULL_PTR, -1);
    assert_eq!(FFI_ERR_INVALID_UTF8, -2);
    assert_eq!(FFI_ERR_PARSE_FAILED, -3);
    assert_eq!(FFI_ERR_STORAGE, -4);
    assert_eq!(FFI_ERR_NOT_FOUND, -5);
    assert_eq!(FFI_ERR_ALREADY_INIT, -6);
    assert_eq!(FFI_ERR_NOT_INIT, -7);
    assert_eq!(FFI_ERR_PANIC, -98);
    assert_eq!(FFI_ERR_UNKNOWN, -99);
    assert_eq!(FFI_ERR_INVALID_JSON, -100);
}

#[test]
fn ffi_state_and_error_codes() {
    assert_eq!(sync_state_to_i32(&SyncState::Idle), 0);
    assert_eq!(sync_state_to_i32(&SyncState::Syncing), 1);
    assert_eq!(sync_state_to_i32(&SyncState::Error), 2);
    assert_eq!(sync_state_to_i32(&SyncState::Offline), 3);
    assert_eq!(sync_state_to_i32(&SyncState::Dormant), 4);
    assert_eq!(auth_state_to_i32(&AuthState::LoggedOut), 0);
    assert_eq!(auth_state_to_i32(&AuthState::Authenticated { user_id: "u".into() }), 1);
    assert_eq!(auth_state_to_i32(&AuthState::NeedsRefresh), 2);
    assert_eq!(auth_state_to_i32(&AuthState::NeedsReLogin), 3);
    assert_eq!(auth_error_to_ffi(&AuthError::NetworkError("x".into())), FFI_ERR_NETWORK);
    assert_eq!(auth_error_to_ffi(&AuthError::TokenExpired), FFI_ERR_AUTH);
    assert_eq!(sync_error_to_ffi(&SyncError::NotAuthenticated), FFI_ERR_AUTH);
    assert_eq!(sync_error_to_ffi(&SyncError::Transport("x".into())), FFI_ERR_NETWORK);
    assert_eq!(sync_error_to_ffi(&SyncError::Storage("x".into())), FFI_ERR_SYNC);
    assert_eq!(manual_sync_outcome(&Ok(())), (SyncState::Idle, FFI_OK));
    assert_eq!(manual_sync_outcome(&Err(SyncError::Transport("x".into()))), (SyncState::Offline, FFI_ERR_NETWORK));
    assert_eq!(manual_sync_outcome(&Err(SyncError::NotAuthenticated)), (SyncState::Dormant, FFI_ERR_AUTH));
    assert_eq!(current_base_url(&None), Err(FFI_ERR_NOT_INIT));
    assert_eq!(current_base_url(&Some("http://h".into())), Ok("http://h".to_string()));
}
