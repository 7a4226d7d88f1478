//! Status codes of the C interface and the mappings onto them.
use vstd::prelude::*;
use crate::auth::{AuthError, AuthState};
use crate::scheduler::{state_after_sync, SyncState};
use crate::sync_engine::SyncError;

verus! {

pub const FFI_OK: i32 = 0;
pub const FFI_ERR_NULL_PTR: i32 = -1;
pub const FFI_ERR_INVALID_UTF8: i32 = -2;
pub const FFI_ERR_PARSE_FAILED: i32 = -3;
pub const FFI_ERR_STORAGE: i32 = -4;
pub const FFI_ERR_NOT_FOUND: i32 = -5;
pub const FFI_ERR_ALREADY_INIT: i32 = -6;
pub const FFI_ERR_NOT_INIT: i32 = -7;
pub const FFI_ERR_PANIC: i32 = -98;
pub const FFI_ERR_UNKNOWN: i32 = -99;
pub const FFI_ERR_INVALID_JSON: i32 = -100;
pub const FFI_ERR_AUTH: i32 = -10;
pub const FFI_ERR_NETWORK: i32 = -11;
pub const FFI_ERR_SYNC: i32 = -12;

/// The code of an auth state: 0 logged out, 1 authenticated, 2 needs
/// refresh, 3 needs re-login.
pub open spec fn auth_state_code(s: AuthState) -> i32 {
    match s {
        AuthState::LoggedOut => 0,
        AuthState::Authenticated { .. } => 1,
        AuthState::NeedsRefresh => 2,
        AuthState::NeedsReLogin => 3,
    }
}

/// Convert an auth state to its code.
pub fn auth_state_to_i32(state: &AuthState) -> (c: i32)
    ensures
        c == auth_state_code(*state),
{
    match state {
        AuthState::LoggedOut => 0,
        AuthState::Authenticated { .. } => 1,
        AuthState::NeedsRefresh => 2,
        AuthState::NeedsReLogin => 3,
    }
}

/// Map an auth error to a code: network failures are network errors,
/// everything else an authentication error.
pub fn auth_error_to_ffi(err: &AuthError) -> (c: i32)
    ensures
        err is NetworkError ==> c == FFI_ERR_NETWORK,
        !(err is NetworkError) ==> c == FFI_ERR_AUTH,
{
    match err {
        AuthError::NetworkError(_) => FFI_ERR_NETWORK,
        _ => FFI_ERR_AUTH,
    }
}

/// The code of a sync state: 0 idle, 1 syncing, 2 error, 3 offline, 4 dormant.
pub open spec fn sync_state_code(s: SyncState) -> i32 {
    match s {
        SyncState::Idle => 0,
        SyncState::Syncing => 1,
        SyncState::Error => 2,
        SyncState::Offline => 3,
        SyncState::Dormant => 4,
    }
}

/// Convert a sync state to its code.
pub fn sync_state_to_i32(state: &SyncState) -> (c: i32)
    ensures
        c == sync_state_code(*state),
{
    match state {
        SyncState::Idle => 0,
        SyncState::Syncing => 1,
        SyncState::Error => 2,
        SyncState::Offline => 3,
        SyncState::Dormant => 4,
    }
}

/// The code of a sync error: authentication, network, or other sync failure.
pub open spec fn sync_error_code(e: SyncError) -> i32 {
    match e {
        SyncError::NotAuthenticated => FFI_ERR_AUTH,
        SyncError::Transport(_) => FFI_ERR_NETWORK,
        _ => FFI_ERR_SYNC,
    }
}

/// Map a sync error to a code.
pub fn sync_error_to_ffi(err: &SyncError) -> (c: i32)
    ensures
        c == sync_error_code(*err),
{
    match err {
        SyncError::NotAuthenticated => FFI_ERR_AUTH,
        SyncError::Transport(_) => FFI_ERR_NETWORK,
        _ => FFI_ERR_SYNC,
    }
}

/// How a manually started sync ends: the state to report and the code to
/// return. Success is idle and `FFI_OK`; a failure reports the state a
/// scheduled sync would take and the error's code.
pub fn manual_sync_outcome(result: &Result<(), SyncError>) -> (r: (SyncState, i32))
    ensures
        match result {
            Ok(_) => r == (SyncState::Idle, FFI_OK),
            Err(e) => r == (state_after_sync(Err(*e)), sync_error_code(*e)),
        },
{
    match result {
        Ok(()) => (SyncState::Idle, FFI_OK),
        Err(e) => {
            let state = match e {
                SyncError::NotAuthenticated => SyncState::Dormant,
                SyncError::Transport(_) => SyncState::Offline,
                _ => SyncState::Error,
            };
            (state, sync_error_to_ffi(e))
        },
    }
}

/// The base URL the engine was set up with, or `FFI_ERR_NOT_INIT` when it
/// was set up without one.
pub fn current_base_url(configured: &Option<String>) -> (r: Result<String, i32>)
    ensures
        match configured {
            Some(u) => r == Ok::<String, i32>(*u),
            None => r == Err::<String, i32>(FFI_ERR_NOT_INIT),
        },
{
    match configured {
        Some(u) => Ok(u.clone()),
        None => Err(FFI_ERR_NOT_INIT),
    }
}

/// The codes of the sync states are distinct, and a failed manual sync
/// never reports success: its code is one of the three error codes.
pub proof fn lemma_codes_distinct(a: SyncState, b: SyncState, e: SyncError)
    ensures
        a != b ==> sync_state_code(a) != sync_state_code(b),
        sync_error_code(e) < 0,
        sync_error_code(e) == FFI_ERR_AUTH || sync_error_code(e) == FFI_ERR_NETWORK || sync_error_code(e)
            == FFI_ERR_SYNC,
{
}

} // verus!
