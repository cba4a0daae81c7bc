//! The long-lived credential of an account.

use vstd::prelude::*;
use std::time::Duration;
use crate::codec::{
    cookie_pairs_of, extract_value, first_value, holds_identity_only, merge_cookies, merged_text,
    tidied_text, tidy_key_values,
};
use crate::text::{text_view, Text};

verus! {

/// The user agent of an account that was given none.
pub const DEFAULT_USER_AGENT: &'static str =
    "Mozilla/5.0 (Windows NT 10.0; Win64; x64) AppleWebKit/537.36 (KHTML, like Gecko) Chrome/128.0.0.0 Safari/537.36";

/// The address that names the login address, up to the value of its
/// time-stamp parameter.
pub const LOGIN_ENDPOINT: &'static str =
    "https://i.mi.com/api/user/login?&followUp=https%3A%2F%2Fi.mi.com%2F&_locale=zh_CN&ts=";

/// The name of the cookie that holds the service token.
pub const SERVICE_TOKEN: &'static str = "serviceToken";

/// The duration of the given number of whole seconds.
pub uninterp spec fn duration_of_secs(secs: u64) -> Duration;

/// Trusted of `Duration::from_secs`: the duration that it makes depends on
/// the number of seconds alone.
pub assume_specification[ Duration::from_secs ](secs: u64) -> (d: Duration)
    ensures
        d == duration_of_secs(secs),
;

/// The long-lived credential of an account.
#[derive(Debug)]
pub struct MiAccount {
    /// The cookie captured at the interactive login.
    pub cookie: String,
    /// How long a request may take.
    pub timeout: Duration,
    /// The user agent sent with authenticated requests.
    pub user_agent: String,
}

impl Clone for MiAccount {
    fn clone(&self) -> (r: Self)
        ensures
            r == *self,
    {
        MiAccount {
            cookie: self.cookie.clone(),
            timeout: self.timeout,
            user_agent: self.user_agent.clone(),
        }
    }
}

/// The value of the first pair named `name` in a cookie string, or the empty
/// sequence where there is none.
pub open spec fn value_or_empty(cookie: Text, name: Text) -> Text {
    match first_value(cookie_pairs_of(cookie), name) {
        Some(value) => value,
        None => Seq::empty(),
    }
}

impl MiAccount {
    /// An account with the given cookie, a timeout of five seconds and the
    /// default user agent.
    pub fn new(cookie: &str) -> (r: Self)
        ensures
            r.cookie@ == cookie@,
            r.timeout == duration_of_secs(5),
            r.user_agent@ == DEFAULT_USER_AGENT@,
    {
        MiAccount {
            cookie: cookie.to_owned(),
            timeout: Duration::from_secs(5),
            user_agent: DEFAULT_USER_AGENT.to_owned(),
        }
    }

    /// The same account with another user agent.
    pub fn with_ua(self, ua: String) -> (r: Self)
        ensures
            r.cookie == self.cookie,
            r.timeout == self.timeout,
            r.user_agent == ua,
    {
        MiAccount { cookie: self.cookie, timeout: self.timeout, user_agent: ua }
    }

    /// Merges two cookie strings, `newer` winning where both name a cookie.
    /// A pair named like an attribute or without a value is dropped.
    pub fn merge_cookies(&self, older: &str, newer: &str) -> (merged: String)
        ensures
            merged@ == merged_text(older@, newer@),
            holds_identity_only(merged@),
    {
        merge_cookies(older, newer)
    }

    /// Normalises concatenated `Set-Cookie` headers.
    pub fn tidy_kvs(&self, s: &str) -> (tidied: String)
        ensures
            tidied@ == tidied_text(s@),
            holds_identity_only(tidied@),
    {
        tidy_key_values(s)
    }

    /// The service token in the account cookie, or the empty string where
    /// the account cookie names none.
    pub fn get_service_token(&self) -> (token: String)
        ensures
            token@ == value_or_empty(self.cookie@, SERVICE_TOKEN@),
    {
        match self.get_value_by_key(SERVICE_TOKEN) {
            Some(token) => token,
            None => String::new(),
        }
    }

    /// The value of the first pair named `key` in the account cookie, or
    /// `None` where no pair has that name. A name that is present with an
    /// empty value gives the empty string, not `None`.
    pub fn get_value_by_key(&self, key: &str) -> (value: Option<String>)
        ensures
            text_view(value) == first_value(cookie_pairs_of(self.cookie@), key@),
    {
        extract_value(self.cookie.as_str(), key)
    }
}

} // verus!
