//! The credential store: the account credential and the current session
//! cookie. The account credential never changes; the session cookie is
//! replaced when a handshake succeeds.
//!
//! Callers that share a store put it behind a lock of their own; every
//! change of the store takes the store exclusively, so that it is atomic
//! under that lock. The store also says who runs a refresh: the first
//! caller to ask while none is under way leads and runs the handshake, and
//! every caller that asks meanwhile follows and takes the leader's result.

use vstd::prelude::*;
use crate::auth::{duration_of_secs, MiAccount, DEFAULT_USER_AGENT, SERVICE_TOKEN};
use crate::codec::{
    cookie_pairs_of, extract_value, first_value, holds_identity_only, merge_cookies, merged_text,
};
use crate::error::{AuthError, AuthFault, Fault, MiError};
use crate::text::Text;

verus! {

/// Whether a cookie string holds a pair named `name`.
pub open spec fn names_cookie(cookie: Text, name: Text) -> bool {
    first_value(cookie_pairs_of(cookie), name) is Some
}

/// The session cookie at start: the account cookie where it already holds a
/// service token, else none.
pub open spec fn initial_session(account_cookie: Text) -> Text {
    if names_cookie(account_cookie, SERVICE_TOKEN@) {
        account_cookie
    } else {
        Seq::empty()
    }
}

/// The failure of a refresh: an authentication failure as it is, any other
/// failure of the handshake wrapped.
pub open spec fn refresh_fault(fault: Fault) -> AuthFault {
    match fault {
        Fault::Auth(auth) => auth,
        other => AuthFault::RefreshFailed(Box::new(other)),
    }
}

/// The view of the result of a refresh.
pub open spec fn refresh_view(r: Result<String, AuthError>) -> Result<Text, AuthFault> {
    match r {
        Ok(cookie) => Ok(cookie@),
        Err(e) => Err(e@),
    }
}

/// The view of the result of a handshake.
pub open spec fn handshake_view(r: Result<String, MiError>) -> Result<Text, Fault> {
    match r {
        Ok(cookie) => Ok(cookie@),
        Err(e) => Err(e@),
    }
}

/// The part of a caller in a refresh.
#[derive(Clone, Copy, Debug, PartialEq, Eq, Structural)]
pub enum RefreshRole {
    /// No refresh was under way: the caller runs the handshake and reports
    /// its result with `finish_refresh`.
    Lead,
    /// A refresh is under way: the caller waits for its end and takes its
    /// result.
    Follow,
}

/// The view of an optional authentication failure.
pub open spec fn failure_view(failure: Option<AuthError>) -> Option<AuthFault> {
    match failure {
        Some(e) => Some(e@),
        None => None,
    }
}

/// The account credential with the session cookie that is current.
#[derive(Debug)]
pub struct CredentialStore {
    account: MiAccount,
    session_cookie: String,
    user_agent: String,
    refreshing: bool,
    last_failure: Option<AuthError>,
}

impl CredentialStore {
    /// The cookie of the account credential.
    pub closed spec fn account_cookie(&self) -> Text {
        self.account.cookie@
    }

    /// The session cookie; empty while there is none.
    pub closed spec fn session(&self) -> Text {
        self.session_cookie@
    }

    /// The user agent of requests to the service.
    pub closed spec fn agent(&self) -> Text {
        self.user_agent@
    }

    /// The account credential.
    pub closed spec fn credential(&self) -> MiAccount {
        self.account
    }

    /// Whether a refresh is under way.
    pub closed spec fn refresh_in_progress(&self) -> bool {
        self.refreshing
    }

    /// The failure of the last refresh that ended; `None` where it
    /// succeeded or none has ended yet.
    pub closed spec fn last_refresh_failure(&self) -> Option<AuthFault> {
        failure_view(self.last_failure)
    }

    /// Whether this store and `other` agree on all but the state of the
    /// refresh.
    pub open spec fn same_credentials(&self, other: &CredentialStore) -> bool {
        &&& self.credential() == other.credential()
        &&& self.account_cookie() == other.account_cookie()
        &&& self.agent() == other.agent()
        &&& self.session() == other.session()
    }

    /// The cookie to send: the session cookie, or the account cookie while
    /// there is no session cookie.
    pub open spec fn cookie_to_send(&self) -> Text {
        if self.session().len() > 0 {
            self.session()
        } else {
            self.account_cookie()
        }
    }

    /// A store for the account with the given cookie. The user agent is the
    /// one given, or the default one. The account cookie is the session
    /// cookie at once where it already holds a service token.
    pub fn new(account_cookie: &str, user_agent: Option<String>) -> (store: Self)
        ensures
            store.account_cookie() == account_cookie@,
            store.credential().cookie@ == account_cookie@,
            store.credential().timeout == duration_of_secs(5),
            store.credential().user_agent@ == DEFAULT_USER_AGENT@,
            store.session() == initial_session(account_cookie@),
            store.agent() == match user_agent {
                Some(agent) => agent@,
                None => DEFAULT_USER_AGENT@,
            },
            !store.refresh_in_progress(),
            store.last_refresh_failure() is None,
    {
        let account = MiAccount::new(account_cookie);
        let session_cookie = match extract_value(account_cookie, SERVICE_TOKEN) {
            Some(_) => account_cookie.to_owned(),
            None => String::new(),
        };
        let user_agent = match user_agent {
            Some(agent) => agent,
            None => DEFAULT_USER_AGENT.to_owned(),
        };
        CredentialStore { account, session_cookie, user_agent, refreshing: false, last_failure: None }
    }

    /// The account credential, which a handshake reads.
    pub fn account(&self) -> (account: &MiAccount)
        ensures
            *account == self.credential(),
            account.cookie@ == self.account_cookie(),
    {
        &self.account
    }

    /// The user agent of requests to the service.
    pub fn user_agent(&self) -> (agent: &str)
        ensures
            agent@ == self.agent(),
    {
        self.user_agent.as_str()
    }

    /// The cookie to send with a request: the session cookie, or the
    /// account cookie while there is no session cookie.
    pub fn current_cookie(&self) -> (cookie: String)
        ensures
            cookie@ == self.cookie_to_send(),
    {
        if self.session_cookie.as_str().is_empty() {
            self.account.cookie.clone()
        } else {
            self.session_cookie.clone()
        }
    }

    /// Asks to refresh the session cookie. The caller leads where no
    /// refresh is under way, and follows where one is; either way a refresh
    /// is under way afterwards.
    pub fn begin_refresh(&mut self) -> (role: RefreshRole)
        ensures
            role == if old(self).refresh_in_progress() {
                RefreshRole::Follow
            } else {
                RefreshRole::Lead
            },
            final(self).refresh_in_progress(),
            final(self).same_credentials(old(self)),
            final(self).last_refresh_failure() == old(self).last_refresh_failure(),
    {
        if self.refreshing {
            RefreshRole::Follow
        } else {
            self.refreshing = true;
            RefreshRole::Lead
        }
    }

    /// Ends the refresh that is under way with the result of the handshake.
    /// A normalised session cookie is merged into the account cookie, the
    /// new values winning and no attribute or empty value passing; the merge
    /// becomes the session cookie and is returned. A failure leaves the session cookie as it was and is
    /// returned as the failure of the refresh. Either way the result is
    /// kept for those who follow.
    pub fn finish_refresh(&mut self, handshake: Result<String, MiError>) -> (r: Result<
        String,
        AuthError,
    >)
        ensures
            final(self).credential() == old(self).credential(),
            final(self).account_cookie() == old(self).account_cookie(),
            final(self).agent() == old(self).agent(),
            !final(self).refresh_in_progress(),
            match handshake_view(handshake) {
                Ok(normalised) => {
                    &&& refresh_view(r) == Ok::<Text, AuthFault>(
                        merged_text(old(self).account_cookie(), normalised),
                    )
                    &&& final(self).session() == merged_text(old(self).account_cookie(), normalised)
                    &&& holds_identity_only(final(self).session())
                    &&& final(self).last_refresh_failure() is None
                },
                Err(fault) => {
                    &&& refresh_view(r) == Err::<Text, AuthFault>(refresh_fault(fault))
                    &&& final(self).session() == old(self).session()
                    &&& final(self).last_refresh_failure() == Some(refresh_fault(fault))
                },
            },
    {
        self.refreshing = false;
        match handshake {
            Ok(normalised) => {
                let merged = merge_cookies(self.account.cookie.as_str(), normalised.as_str());
                self.session_cookie = merged.clone();
                self.last_failure = None;
                Ok(merged)
            },
            Err(MiError::Auth(auth)) => {
                self.last_failure = Some(auth.duplicate());
                Err(auth)
            },
            Err(other) => {
                let failure = AuthError::RefreshFailed(Box::new(other));
                self.last_failure = Some(failure.duplicate());
                Err(failure)
            },
        }
    }

    /// Gives up the refresh that is under way, when the one who led it
    /// cannot end it: nothing else changes, and the next caller to ask leads.
    pub fn abandon_refresh(&mut self)
        ensures
            !final(self).refresh_in_progress(),
            final(self).same_credentials(old(self)),
            final(self).last_refresh_failure() == old(self).last_refresh_failure(),
    {
        self.refreshing = false;
    }

    /// What one who follows takes: `None` while the refresh is under way;
    /// once it has ended, the failure of the last refresh, or no failure
    /// where it succeeded.
    pub fn awaited_refresh(&self) -> (r: Option<Option<AuthError>>)
        ensures
            self.refresh_in_progress() ==> r is None,
            !self.refresh_in_progress() ==> r is Some && failure_view(r->0)
                == self.last_refresh_failure(),
    {
        if self.refreshing {
            None
        } else {
            match &self.last_failure {
                Some(e) => Some(Some(e.duplicate())),
                None => Some(None),
            }
        }
    }
}

} // verus!
