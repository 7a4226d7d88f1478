//! Token stores kept by the library: an in-memory store, and a token
//! provider for the sync scheduler backed by any store.
use vstd::prelude::*;
use crate::auth::{AuthError, AuthToken, TokenStore};
use crate::scheduler::TokenProvider;

verus! {

/// In-memory token store.
pub struct MemoryTokenStore {
    token: Option<AuthToken>,
}

impl MemoryTokenStore {
    /// Create a new, empty in-memory token store.
    pub fn new() -> (s: Self)
        ensures
            s.held() is None,
    {
        MemoryTokenStore { token: None }
    }
}

impl Default for MemoryTokenStore {
    fn default() -> (s: Self)
        ensures
            s.held() is None,
    {
        Self::new()
    }
}

impl TokenStore for MemoryTokenStore {
    /// The token the store holds.
    closed spec fn held(&self) -> Option<AuthToken> {
        self.token
    }

    fn save_token(&mut self, token: &AuthToken) -> (r: Result<(), AuthError>)
        ensures
            r is Ok,
            final(self).held() == Some(*token),
    {
        self.token = Some(token.clone());
        Ok(())
    }

    fn load_token(&self) -> (r: Result<Option<AuthToken>, AuthError>)
        ensures
            r == Ok::<Option<AuthToken>, AuthError>(self.held()),
    {
        match &self.token {
            Some(t) => Ok(Some(t.clone())),
            None => Ok(None),
        }
    }

    fn clear_token(&mut self) -> (r: Result<(), AuthError>)
        ensures
            r is Ok,
            final(self).held() is None,
    {
        self.token = None;
        Ok(())
    }
}

/// Sync token provider backed by a token store.
pub struct StoredTokenProvider<S: TokenStore> {
    store: S,
}

impl<S: TokenStore> StoredTokenProvider<S> {
    pub closed spec fn inner(&self) -> S {
        self.store
    }

    /// Create a new stored token provider.
    pub fn new(store: S) -> (p: Self)
        ensures
            p.inner() == store,
    {
        StoredTokenProvider { store }
    }

    /// The access token of a store's answer: the token's access token when it
    /// loaded one, else nothing (a failure to load counts as no token).
    pub fn token_of(loaded: Result<Option<AuthToken>, AuthError>) -> (t: Option<String>)
        ensures
            t == (match loaded {
                Ok(Some(tok)) => Some(tok.access_token),
                _ => None,
            }),
    {
        match loaded {
            Ok(Some(tok)) => Some(tok.access_token),
            _ => None,
        }
    }
}

impl<S: TokenStore> TokenProvider for StoredTokenProvider<S> {
    /// The access token of the token the store holds; nothing when the store
    /// holds none or fails to load.
    fn get_token(&self) -> (r: Option<String>)
        ensures
            r matches Some(t) ==> self.inner().held() matches Some(k) && t == k.access_token,
            self.inner().held() is None ==> r is None,
    {
        Self::token_of(self.store.load_token())
    }
}

/// The access token that a provider over a memory store hands out is the
/// one last saved: a store that holds `t` gives `t`'s access token, an empty
/// one gives nothing.
pub proof fn lemma_memory_provider_reads_saved(s: MemoryTokenStore, t: AuthToken)
    requires
        s.held() == Some(t),
    ensures
        (match Ok::<Option<AuthToken>, AuthError>(s.held()) {
            Ok(Some(tok)) => Some(tok.access_token),
            _ => None,
        }) == Some(t.access_token),
{
}

} // verus!
