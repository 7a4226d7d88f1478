//! Authentication: token types, errors, the token store interface, the
//! client-side authentication state machine and the classification of the
//! server's refusals.
use vstd::prelude::*;
use crate::numfmt::{decimal, push_decimal};
use crate::parse_error::concat_str;
use crate::text::{
    ascii_lowered, contains_seq, trim, chars_of, trim_bounds, ascii_lower_range, contains_str,
};

verus! {

/// Authentication token pair.
#[derive(Debug)]
pub struct AuthToken {
    /// JWT access token.
    pub access_token: String,
    /// Refresh token for obtaining new access tokens.
    pub refresh_token: String,
    /// Access token expiry duration in seconds.
    pub expires_in: u64,
    /// User ID.
    pub user_id: String,
}

impl Clone for AuthToken {
    fn clone(&self) -> (r: Self)
        ensures
            r == *self,
    {
        AuthToken {
            access_token: self.access_token.clone(),
            refresh_token: self.refresh_token.clone(),
            expires_in: self.expires_in,
            user_id: self.user_id.clone(),
        }
    }
}

/// Registration request data.
#[derive(Debug, Clone)]
pub struct RegisterRequest {
    pub username: String,
    pub email: String,
    pub password: String,
}

/// Login request data.
#[derive(Debug, Clone)]
pub struct LoginRequest {
    pub credential: String,
    pub password: String,
    pub device_id: String,
    pub device_name: Option<String>,
    pub platform: Option<String>,
}

/// Device information.
#[derive(Debug, Clone)]
pub struct DeviceInfo {
    pub device_id: String,
    pub device_name: String,
    pub platform: String,
    pub last_active_at: String,
    pub created_at: String,
}

/// Authentication state.
#[derive(Debug, PartialEq)]
pub enum AuthState {
    /// Not logged in.
    LoggedOut,
    /// Logged in with valid tokens.
    Authenticated { user_id: String },
    /// Tokens expired, needs refresh.
    NeedsRefresh,
    /// Refresh failed, needs re-login.
    NeedsReLogin,
}

impl Clone for AuthState {
    fn clone(&self) -> (r: Self)
        ensures
            r == *self,
    {
        match self {
            AuthState::LoggedOut => AuthState::LoggedOut,
            AuthState::Authenticated { user_id } => AuthState::Authenticated { user_id: user_id.clone() },
            AuthState::NeedsRefresh => AuthState::NeedsRefresh,
            AuthState::NeedsReLogin => AuthState::NeedsReLogin,
        }
    }
}

/// Authentication error types.
#[derive(Debug)]
pub enum AuthError {
    InvalidCredentials,
    TokenExpired,
    RegistrationFailed(String),
    NetworkError(String),
    ServerError { status_code: u16, message: String },
    StorageError(String),
    NotAuthenticated,
    Unknown(String),
}

impl Clone for AuthError {
    fn clone(&self) -> (r: Self)
        ensures
            r == *self,
    {
        match self {
            AuthError::InvalidCredentials => AuthError::InvalidCredentials,
            AuthError::TokenExpired => AuthError::TokenExpired,
            AuthError::RegistrationFailed(s) => AuthError::RegistrationFailed(s.clone()),
            AuthError::NetworkError(s) => AuthError::NetworkError(s.clone()),
            AuthError::ServerError { status_code, message } => AuthError::ServerError {
                status_code: *status_code,
                message: message.clone(),
            },
            AuthError::StorageError(s) => AuthError::StorageError(s.clone()),
            AuthError::NotAuthenticated => AuthError::NotAuthenticated,
            AuthError::Unknown(s) => AuthError::Unknown(s.clone()),
        }
    }
}

/// The human-readable message of an authentication error.
pub open spec fn auth_error_message(e: AuthError) -> Seq<char> {
    match e {
        AuthError::InvalidCredentials => "Invalid credentials"@,
        AuthError::TokenExpired => "Token expired"@,
        AuthError::RegistrationFailed(s) => "Registration failed: "@ + s@,
        AuthError::NetworkError(s) => "Network error: "@ + s@,
        AuthError::ServerError { status_code, message } => "Server error: "@ + decimal(status_code as nat)
            + " - "@ + message@,
        AuthError::StorageError(s) => "Token storage error: "@ + s@,
        AuthError::NotAuthenticated => "Not authenticated"@,
        AuthError::Unknown(s) => "Unknown auth error: "@ + s@,
    }
}

impl AuthError {
    /// The error's message, as its `Display` form reads.
    pub fn message(&self) -> (m: String)
        ensures
            m@ == auth_error_message(*self),
    {
        match self {
            AuthError::InvalidCredentials => String::from_str("Invalid credentials"),
            AuthError::TokenExpired => String::from_str("Token expired"),
            AuthError::RegistrationFailed(s) => concat_str("Registration failed: ", s.as_str()),
            AuthError::NetworkError(s) => concat_str("Network error: ", s.as_str()),
            AuthError::ServerError { status_code, message } => {
                let mut m = String::from_str("Server error: ");
                push_decimal(&mut m, *status_code as u128);
                m.append(" - ");
                m.append(message.as_str());
                m
            },
            AuthError::StorageError(s) => concat_str("Token storage error: ", s.as_str()),
            AuthError::NotAuthenticated => String::from_str("Not authenticated"),
            AuthError::Unknown(s) => concat_str("Unknown auth error: ", s.as_str()),
        }
    }
}

/// Token storage for persisting auth tokens locally; implemented by the
/// platform (a file, a keychain, memory).
pub trait TokenStore {
    /// The token pair the store holds, if any.
    spec fn held(&self) -> Option<AuthToken>;

    /// Save token pair: once saved, the store holds it.
    fn save_token(&mut self, token: &AuthToken) -> (r: Result<(), AuthError>)
        ensures
            r is Ok ==> final(self).held() == Some(*token);

    /// Load saved token pair: what the store holds.
    fn load_token(&self) -> (r: Result<Option<AuthToken>, AuthError>)
        ensures
            r matches Ok(v) ==> v == self.held();

    /// Clear saved tokens: once cleared, the store holds none.
    fn clear_token(&mut self) -> (r: Result<(), AuthError>)
        ensures
            r is Ok ==> final(self).held() is None;
}

// ----- classification of refusals -----

/// The error that a 401 response's message stands for: the message is
/// trimmed and ASCII lower-cased, then searched for known phrases in order.
pub open spec fn classify_unauthorized(message: Seq<char>) -> AuthError {
    let normalized = ascii_lowered(trim(message));
    if contains_seq(normalized, "device is no longer authorized"@) {
        AuthError::NotAuthenticated
    } else if contains_seq(normalized, "invalid or expired refresh token"@) {
        AuthError::TokenExpired
    } else if contains_seq(normalized, "invalid credentials"@) {
        AuthError::InvalidCredentials
    } else {
        AuthError::NotAuthenticated
    }
}

/// Classifies the message of a 401 response.
pub fn classify_unauthorized_message(message: &str) -> (e: AuthError)
    ensures
        e == classify_unauthorized(message@),
{
    let s = chars_of(message);
    let (a, b) = trim_bounds(&s, 0, s.len());
    let normalized = ascii_lower_range(&s, a, b);
    assert(s@.subrange(a as int, b as int) == trim(message@));
    if contains_str(&normalized, "device is no longer authorized") {
        AuthError::NotAuthenticated
    } else if contains_str(&normalized, "invalid or expired refresh token") {
        AuthError::TokenExpired
    } else if contains_str(&normalized, "invalid credentials") {
        AuthError::InvalidCredentials
    } else {
        AuthError::NotAuthenticated
    }
}

/// The error for an unsuccessful authentication response: a 401 is
/// classified by its message, a 409 is a failed registration, anything else
/// is a server error carrying status and message.
pub fn auth_error_from_status(status: u16, message: String) -> (e: AuthError)
    ensures
        status == 401 ==> e == classify_unauthorized(message@),
        status == 409 ==> e == AuthError::RegistrationFailed(message),
        status != 401 && status != 409 ==> e == (AuthError::ServerError { status_code: status, message }),
{
    if status == 401 {
        classify_unauthorized_message(message.as_str())
    } else if status == 409 {
        AuthError::RegistrationFailed(message)
    } else {
        AuthError::ServerError { status_code: status, message }
    }
}


// ----- the authentication state machine -----

/// Whether an error means the stored credentials are no longer any good
/// (as opposed to a failure that a later retry may get past).
pub open spec fn is_credential_error(e: AuthError) -> bool {
    e is InvalidCredentials || e is TokenExpired || e is NotAuthenticated
}

/// What a manager's session gives once the store answered `saved` to
/// saving token `t`: the token, or the store's error.
pub open spec fn save_outcome(t: AuthToken, saved: Result<(), AuthError>) -> Result<AuthToken, AuthError> {
    match saved {
        Ok(()) => Ok(t),
        Err(e) => Err(e),
    }
}

/// The token that a refresh saves: the new token, keeping the current
/// user id when the server sent none.
pub open spec fn refreshed_token(cur: AuthToken, t: AuthToken) -> AuthToken {
    AuthToken {
        access_token: t.access_token,
        refresh_token: t.refresh_token,
        expires_in: t.expires_in,
        user_id: if t.user_id@.len() == 0 { cur.user_id } else { t.user_id },
    }
}

/// The token a store's answer to loading gives a new manager: the loaded
/// token, or none when there was none or loading failed.
pub open spec fn loaded_token(loaded: Result<Option<AuthToken>, AuthError>) -> Option<AuthToken> {
    match loaded {
        Ok(Some(t)) => Some(t),
        _ => None,
    }
}

/// What `get_valid_token` has to do next.
#[derive(Debug)]
pub enum TokenStep {
    /// The current access token is valid: use it.
    Ready(String),
    /// The tokens need a refresh before one can be handed out.
    Refresh,
    /// There is no session: the caller is not authenticated.
    Denied,
}

/// High-level authentication manager that coordinates the token store and
/// the session state. The network exchanges happen outside: the manager
/// prepares each request and takes the provider's reply.
pub struct AuthManager<S: TokenStore> {
    store: S,
    state: AuthState,
    current_token: Option<AuthToken>,
    device_id: String,
}

impl<S: TokenStore> AuthManager<S> {
    /// The session state.
    pub closed spec fn auth_state(&self) -> AuthState {
        self.state
    }

    /// The token of the session, if there is one.
    pub closed spec fn token(&self) -> Option<AuthToken> {
        self.current_token
    }

    /// The device this manager logs in as.
    pub closed spec fn device(&self) -> Seq<char> {
        self.device_id@
    }

    /// The token store the manager saves to.
    pub closed spec fn store(&self) -> S {
        self.store
    }

    /// The state and the token agree: a token is held exactly when the state
    /// is `Authenticated` or `NeedsRefresh`, and an authenticated state names
    /// the token's user.
    pub open spec fn wf(&self) -> bool {
        match self.auth_state() {
            AuthState::Authenticated { user_id } => self.token() matches Some(t) && t.user_id == user_id,
            AuthState::NeedsRefresh => self.token() is Some,
            AuthState::LoggedOut => self.token() is None,
            AuthState::NeedsReLogin => self.token() is None,
        }
    }

    /// A manager for `device_id` over `store`, given what loading the store
    /// gave: a loaded token makes the state `NeedsRefresh` (it may have
    /// expired), else the state is `LoggedOut`; a failed load counts as an
    /// empty store.
    pub fn from_loaded(store: S, device_id: String, loaded: Result<Option<AuthToken>, AuthError>) -> (m: Self)
        ensures
            m.wf(),
            m.device() == device_id@,
            m.store() == store,
            m.token() == (match loaded {
                Ok(Some(t)) => Some(t),
                _ => None,
            }),
            m.token() is Some ==> m.auth_state() == AuthState::NeedsRefresh,
            m.token() is None ==> m.auth_state() == AuthState::LoggedOut,
    {
        let existing = match loaded {
            Ok(Some(t)) => Some(t),
            _ => None,
        };
        let state = if existing.is_some() { AuthState::NeedsRefresh } else { AuthState::LoggedOut };
        AuthManager { store, state, current_token: existing, device_id }
    }

    /// A manager for `device_id` over `store`: a token that the store still
    /// holds makes the state `NeedsRefresh` (it may have expired), else the
    /// state is `LoggedOut`. A store that fails to load counts as empty.
    pub fn new(store: S, device_id: String) -> (m: Self)
        ensures
            m.wf(),
            m.device() == device_id@,
            m.store() == store,
            m.token() is Some ==> m.token() == store.held(),
            store.held() is None ==> m.token() is None,
            exists|loaded: Result<Option<AuthToken>, AuthError>|
                (loaded matches Ok(v) ==> v == store.held()) && m.token() == #[trigger] loaded_token(loaded),
            m.token() is Some ==> m.auth_state() == AuthState::NeedsRefresh,
            m.token() is None ==> m.auth_state() == AuthState::LoggedOut,
    {
        let loaded = store.load_token();
        let ghost l = loaded;
        let m = Self::from_loaded(store, device_id, loaded);
        assert(m.token() == loaded_token(l));
        m
    }

    /// Current authentication state.
    pub fn state(&self) -> (s: AuthState)
        ensures
            s == self.auth_state(),
    {
        self.state.clone()
    }

    /// Current access token, if any.
    pub fn access_token(&self) -> (t: Option<String>)
        ensures
            t == (match self.token() {
                Some(tok) => Some(tok.access_token),
                None => None,
            }),
    {
        match &self.current_token {
            Some(t) => Some(t.access_token.clone()),
            None => None,
        }
    }

    /// Current user id, if any.
    pub fn user_id(&self) -> (u: Option<String>)
        ensures
            u == (match self.token() {
                Some(tok) => Some(tok.user_id),
                None => None,
            }),
    {
        match &self.current_token {
            Some(t) => Some(t.user_id.clone()),
            None => None,
        }
    }

    /// The device id this manager logs in as.
    pub fn device_id(&self) -> (d: &str)
        ensures
            d@ == self.device(),
    {
        self.device_id.as_str()
    }

    /// The login request for the given credentials, on this manager's device.
    pub fn login_request(&self, credential: &str, password: &str, device_name: Option<&str>, platform: Option<&str>) -> (r: LoginRequest)
        ensures
            r.credential@ == credential@,
            r.password@ == password@,
            r.device_id@ == self.device(),
            match device_name {
                Some(n) => r.device_name matches Some(x) && x@ == n@,
                None => r.device_name is None,
            },
            match platform {
                Some(p) => r.platform matches Some(x) && x@ == p@,
                None => r.platform is None,
            },
    {
        LoginRequest {
            credential: String::from_str(credential),
            password: String::from_str(password),
            device_id: self.device_id.clone(),
            device_name: match device_name {
                Some(n) => Some(String::from_str(n)),
                None => None,
            },
            platform: match platform {
                Some(p) => Some(String::from_str(p)),
                None => None,
            },
        }
    }

    /// Takes the provider's answer to a login. A token is saved and starts
    /// an authenticated session; when saving fails, or the login failed,
    /// the error is returned and the session is left as it was.
    pub fn finish_login(&mut self, result: Result<AuthToken, AuthError>) -> (r: Result<AuthToken, AuthError>)
        requires
            old(self).wf(),
        ensures
            final(self).wf(),
            final(self).device() == old(self).device(),
            match result {
                Err(e) => r == Err::<AuthToken, AuthError>(e) && final(self).auth_state() == old(self).auth_state()
                    && final(self).token() == old(self).token() && final(self).store() == old(self).store(),
                Ok(t) => match r {
                    Ok(t2) => t2 == t && final(self).token() == Some(t) && final(self).store().held() == Some(t)
                        && final(self).auth_state() == (AuthState::Authenticated { user_id: t.user_id }),
                    Err(_) => final(self).auth_state() == old(self).auth_state() && final(self).token() == old(self).token(),
                },
            },
            result matches Ok(t) ==> exists|saved: Result<(), AuthError>|
                r == #[trigger] save_outcome(t, saved) && (saved is Ok ==> final(self).store().held() == Some(t)),
    {
        let token = match result {
            Ok(t) => t,
            Err(e) => return Err(e),
        };
        let saved = self.store.save_token(&token);
        let ghost t0 = token;
        let r = self.login_after_save(token, saved);
        assert(r == save_outcome(t0, saved) && (saved is Ok ==> self.store().held() == Some(t0)));
        r
    }

    /// Takes the store's answer to saving a token: once saved, the token
    /// starts an authenticated session for its user and is returned; a store
    /// that failed to save gives its error back and nothing changes.
    pub fn login_after_save(&mut self, token: AuthToken, saved: Result<(), AuthError>) -> (r: Result<AuthToken, AuthError>)
        requires
            old(self).wf(),
        ensures
            final(self).wf(),
            final(self).device() == old(self).device(),
            final(self).store() == old(self).store(),
            match saved {
                Ok(()) => r == Ok::<AuthToken, AuthError>(token) && final(self).token() == Some(token)
                    && final(self).auth_state() == (AuthState::Authenticated { user_id: token.user_id }),
                Err(e) => r == Err::<AuthToken, AuthError>(e) && final(self).token() == old(self).token()
                    && final(self).auth_state() == old(self).auth_state(),
            },
    {
        match saved {
            Ok(()) => {
                let user_id = token.user_id.clone();
                self.current_token = Some(token.clone());
                self.state = AuthState::Authenticated { user_id };
                Ok(token)
            },
            Err(e) => Err(e),
        }
    }

    /// The refresh token and device id to send for a refresh, or
    /// `NotAuthenticated` when there is no session.
    pub fn refresh_request(&self) -> (r: Result<(String, String), AuthError>)
        ensures
            match self.token() {
                Some(t) => r matches Ok(p) && p.0 == t.refresh_token && p.1@ == self.device(),
                None => r matches Err(AuthError::NotAuthenticated),
            },
    {
        match &self.current_token {
            Some(t) => Ok((t.refresh_token.clone(), self.device_id.clone())),
            None => Err(AuthError::NotAuthenticated),
        }
    }

    /// Takes the provider's answer to a refresh.
    ///
    /// A new token keeps the old user id when the server sent none, is saved,
    /// and makes the session authenticated. A refusal of the credentials
    /// (invalid, expired, not authenticated) ends the session and asks for a
    /// new login; any other failure keeps the token and leaves a refresh due.
    pub fn finish_refresh(&mut self, result: Result<AuthToken, AuthError>) -> (r: Result<AuthToken, AuthError>)
        requires
            old(self).wf(),
        ensures
            final(self).wf(),
            final(self).device() == old(self).device(),
            old(self).token() is None ==> (r matches Err(AuthError::NotAuthenticated)
                && final(self).auth_state() == old(self).auth_state() && final(self).token() == old(self).token()
                && final(self).store() == old(self).store()),
            old(self).token() matches Some(cur) ==> (result matches Ok(t) ==> exists|saved: Result<(), AuthError>|
                r == #[trigger] save_outcome(refreshed_token(cur, t), saved) && (saved is Ok ==> final(self).store().held()
                    == Some(refreshed_token(cur, t)))),
            old(self).token() matches Some(cur) ==> match result {
                Ok(t) => {
                    let uid = if t.user_id@.len() == 0 { cur.user_id } else { t.user_id };
                    let saved = AuthToken {
                        access_token: t.access_token,
                        refresh_token: t.refresh_token,
                        expires_in: t.expires_in,
                        user_id: uid,
                    };
                    match r {
                        Ok(t2) => t2 == saved && final(self).token() == Some(saved) && final(self).store().held() == Some(saved)
                            && final(self).auth_state() == (AuthState::Authenticated { user_id: uid }),
                        Err(_) => final(self).auth_state() == old(self).auth_state()
                            && final(self).token() == old(self).token(),
                    }
                },
                Err(e) => r == Err::<AuthToken, AuthError>(e) && (if is_credential_error(e) {
                    final(self).token() is None && final(self).auth_state() == AuthState::NeedsReLogin
                } else {
                    final(self).token() == old(self).token() && final(self).auth_state() == AuthState::NeedsRefresh
                        && final(self).store() == old(self).store()
                }),
            },
    {
        let current = match &self.current_token {
            Some(t) => t.clone(),
            None => return Err(AuthError::NotAuthenticated),
        };
        match result {
            Ok(new_token) => {
                let ghost nt = new_token;
                let user_id = if new_token.user_id.as_str().is_empty() {
                    current.user_id.clone()
                } else {
                    new_token.user_id.clone()
                };
                let token_to_save = AuthToken {
                    access_token: new_token.access_token,
                    refresh_token: new_token.refresh_token,
                    expires_in: new_token.expires_in,
                    user_id: user_id.clone(),
                };
                let saved = self.store.save_token(&token_to_save);
                let ghost t0 = token_to_save;
                let r = self.login_after_save(token_to_save, saved);
                assert(t0 == refreshed_token(old(self).token().unwrap(), nt));
                assert(r == save_outcome(t0, saved) && (saved is Ok ==> self.store().held() == Some(t0)));
                r
            },
            Err(e) => {
                match &e {
                    AuthError::InvalidCredentials | AuthError::TokenExpired | AuthError::NotAuthenticated => {
                        // A store that cannot be cleared does not keep the session alive.
                        let _ = self.store.clear_token();
                        self.current_token = None;
                        self.state = AuthState::NeedsReLogin;
                        Err(e)
                    },
                    _ => {
                        self.state = AuthState::NeedsRefresh;
                        Err(e)
                    },
                }
            },
        }
    }

    /// What `get_valid_token` does in the current state: hand out the
    /// access token when authenticated, refresh first when a refresh is due,
    /// refuse otherwise.
    pub fn token_step(&self) -> (s: TokenStep)
        requires
            self.wf(),
        ensures
            match self.auth_state() {
                AuthState::Authenticated { .. } => s matches TokenStep::Ready(t) && t
                    == self.token().unwrap().access_token,
                AuthState::NeedsRefresh => s is Refresh,
                _ => s is Denied,
            },
    {
        match &self.state {
            AuthState::Authenticated { .. } => {
                match &self.current_token {
                    Some(t) => TokenStep::Ready(t.access_token.clone()),
                    None => TokenStep::Denied,
                }
            },
            AuthState::NeedsRefresh => TokenStep::Refresh,
            _ => TokenStep::Denied,
        }
    }

    /// Ends the session: clears the store, drops the token and logs out. When
    /// the store cannot be cleared the error is returned and nothing changes.
    pub fn finish_logout(&mut self) -> (r: Result<(), AuthError>)
        requires
            old(self).wf(),
        ensures
            final(self).wf(),
            final(self).device() == old(self).device(),
            r is Ok ==> final(self).token() is None && final(self).auth_state() == AuthState::LoggedOut
                && final(self).store().held() is None,
            r is Err ==> final(self).token() == old(self).token() && final(self).auth_state() == old(self).auth_state(),
    {
        let cleared = self.store.clear_token();
        self.logout_after_clear(cleared)
    }

    /// Takes the store's answer to clearing the tokens: once cleared, the
    /// token is dropped and the session is logged out; a store that failed
    /// to clear gives its error back and nothing changes.
    pub fn logout_after_clear(&mut self, cleared: Result<(), AuthError>) -> (r: Result<(), AuthError>)
        requires
            old(self).wf(),
        ensures
            final(self).wf(),
            final(self).device() == old(self).device(),
            final(self).store() == old(self).store(),
            match cleared {
                Ok(()) => r is Ok && final(self).token() is None && final(self).auth_state() == AuthState::LoggedOut,
                Err(e) => r == Err::<(), AuthError>(e) && final(self).token() == old(self).token()
                    && final(self).auth_state() == old(self).auth_state(),
            },
    {
        match cleared {
            Ok(()) => {
                self.current_token = None;
                self.state = AuthState::LoggedOut;
                Ok(())
            },
            Err(e) => Err(e),
        }
    }
}

} // verus!
