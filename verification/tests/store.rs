use minote::auth::{MiAccount, DEFAULT_USER_AGENT};
use minote::error::{AuthError, MiError};
use minote::executor::{Decision, RetryPolicy, SendOutcome};
use minote::store::{CredentialStore, RefreshRole};
use std::time::Duration;

#[test]
fn new_account_has_default_agent_and_timeout() {
    let account = MiAccount::new("a=1");
    assert_eq!(account.cookie, "a=1");
    assert_eq!(account.timeout, Duration::from_secs(5));
    assert_eq!(account.user_agent, DEFAULT_USER_AGENT);
    let other = account.clone().with_ua("X".to_string());
    assert_eq!(other.cookie, "a=1");
    assert_eq!(other.timeout, Duration::from_secs(5));
    assert_eq!(other.user_agent, "X");
}

#[test]
fn service_token_is_read_from_the_account_cookie() {
    let account = MiAccount::new("userId=7; serviceToken = abc ; x=1");
    assert_eq!(account.get_service_token(), "abc");
    assert_eq!(account.get_value_by_key("userId"), Some("7".to_string()));
    assert_eq!(account.get_value_by_key("missing"), None);
    assert_eq!(MiAccount::new("empty=; x=1").get_value_by_key("empty"), Some(String::new()));
    assert_eq!(MiAccount::new("serviceToken=; x=1").get_service_token(), "");
    assert_eq!(MiAccount::new("a=1").get_service_token(), "");
}

#[test]
fn account_methods_agree_with_the_codec() {
    let account = MiAccount::new("");
    assert_eq!(account.merge_cookies("a=1; b=2", "b=3; c=4"), "a=1; b=3; c=4");
    assert_eq!(account.merge_cookies("Path=/; a=1; e=", "HttpOnly=x; q=\"\""), "a=1");
    assert_eq!(account.tidy_kvs("sid=abc; Path=/; Secure"), "sid=abc");
}

#[test]
fn store_falls_back_to_the_account_cookie() {
    let store = CredentialStore::new("passToken=P", None);
    assert_eq!(store.current_cookie(), "passToken=P");
    assert_eq!(store.user_agent(), DEFAULT_USER_AGENT);
    assert_eq!(store.account().cookie, "passToken=P");
}

#[test]
fn account_cookie_with_service_token_is_the_session_cookie() {
    let mut store = CredentialStore::new("serviceToken=S; userId=1", Some("UA".to_string()));
    assert_eq!(store.current_cookie(), "serviceToken=S; userId=1");
    assert_eq!(store.user_agent(), "UA");
    let merged = store.finish_refresh(Ok("serviceToken=T".to_string()));
    assert_eq!(merged, Ok("serviceToken=T; userId=1".to_string()));
    assert_eq!(store.current_cookie(), "serviceToken=T; userId=1");
}

#[test]
fn refresh_merges_into_the_account_cookie_each_time() {
    let mut store = CredentialStore::new("passToken=P; userId=1", None);
    assert_eq!(
        store.finish_refresh(Ok("serviceToken=T1; extra=1".to_string())),
        Ok("extra=1; passToken=P; serviceToken=T1; userId=1".to_string())
    );
    assert_eq!(
        store.finish_refresh(Ok("serviceToken=T2".to_string())),
        Ok("passToken=P; serviceToken=T2; userId=1".to_string())
    );
    assert_eq!(store.current_cookie(), "passToken=P; serviceToken=T2; userId=1");
    assert_eq!(store.account().cookie, "passToken=P; userId=1");
}

#[test]
fn failed_refresh_leaves_the_session_cookie() {
    let mut store = CredentialStore::new("passToken=P", None);
    store.finish_refresh(Ok("serviceToken=T1".to_string())).unwrap();
    assert_eq!(
        store.finish_refresh(Err(MiError::Auth(AuthError::SessionExpired))),
        Err(AuthError::SessionExpired)
    );
    assert_eq!(
        store.finish_refresh(Err(MiError::Auth(AuthError::NoLocation))),
        Err(AuthError::NoLocation)
    );
    assert_eq!(
        store.finish_refresh(Err(MiError::Parse("bad".to_string()))),
        Err(AuthError::RefreshFailed(Box::new(MiError::Parse("bad".to_string()))))
    );
    assert_eq!(store.current_cookie(), "passToken=P; serviceToken=T1");
}

#[test]
fn messages_name_the_failure() {
    assert_eq!(AuthError::NoLocation.message(), "no location in service login response");
    assert_eq!(AuthError::SessionExpired.message(), "session expired — fresh login required");
    assert_eq!(MiError::Network("timed out".to_string()).message(), "timed out");
    assert_eq!(MiError::Parse("bad json".to_string()).message(), "bad json");
    assert_eq!(
        MiError::Auth(AuthError::MaxAttempts(401)).message(),
        "authentication error: 401"
    );
}

#[test]
fn only_the_first_to_ask_leads_a_refresh() {
    let mut store = CredentialStore::new("passToken=P", None);
    assert_eq!(store.awaited_refresh(), Some(None));
    assert_eq!(store.begin_refresh(), RefreshRole::Lead);
    assert_eq!(store.begin_refresh(), RefreshRole::Follow);
    assert_eq!(store.begin_refresh(), RefreshRole::Follow);
    assert_eq!(store.awaited_refresh(), None);
    assert_eq!(store.current_cookie(), "passToken=P");

    assert_eq!(
        store.finish_refresh(Ok("serviceToken=T".to_string())),
        Ok("passToken=P; serviceToken=T".to_string())
    );
    assert_eq!(store.awaited_refresh(), Some(None));
    assert_eq!(store.current_cookie(), "passToken=P; serviceToken=T");

    assert_eq!(store.begin_refresh(), RefreshRole::Lead);
    assert_eq!(store.begin_refresh(), RefreshRole::Follow);
    assert_eq!(
        store.finish_refresh(Err(MiError::Auth(AuthError::SessionExpired))),
        Err(AuthError::SessionExpired)
    );
    assert_eq!(store.awaited_refresh(), Some(Some(AuthError::SessionExpired)));
    assert_eq!(store.awaited_refresh(), Some(Some(AuthError::SessionExpired)));
    assert_eq!(store.current_cookie(), "passToken=P; serviceToken=T");
}

#[test]
fn an_abandoned_refresh_lets_the_next_caller_lead() {
    let mut store = CredentialStore::new("passToken=P", None);
    store.finish_refresh(Err(MiError::Network("down".to_string()))).unwrap_err();
    assert_eq!(store.begin_refresh(), RefreshRole::Lead);
    assert_eq!(store.begin_refresh(), RefreshRole::Follow);
    store.abandon_refresh();
    assert_eq!(
        store.awaited_refresh(),
        Some(Some(AuthError::RefreshFailed(Box::new(MiError::Network("down".to_string())))))
    );
    assert_eq!(store.begin_refresh(), RefreshRole::Lead);
    assert_eq!(store.current_cookie(), "passToken=P");
}

#[test]
fn two_requests_share_one_refresh() {
    let policy = RetryPolicy::default();
    let mut store = CredentialStore::new("passToken=P", None);
    let unauthorized = || SendOutcome::Response { status: 401, body: Vec::new() };

    // Both requests are refused before either has refreshed.
    assert_eq!(policy.after_send(1, unauthorized()), Decision::Refresh { attempt: 1 });
    assert_eq!(policy.after_send(1, unauthorized()), Decision::Refresh { attempt: 1 });
    let first = store.begin_refresh();
    let second = store.begin_refresh();
    assert_eq!((first, second), (RefreshRole::Lead, RefreshRole::Follow));
    assert_eq!(store.awaited_refresh(), None);

    // The first runs the one handshake; the second takes its result.
    let led = store.finish_refresh(Ok("serviceToken=T".to_string())).err();
    let followed = store.awaited_refresh().unwrap();
    assert_eq!(policy.after_refresh(1, led), Decision::Send { attempt: 2 });
    assert_eq!(policy.after_refresh(1, followed), Decision::Send { attempt: 2 });
    assert_eq!(store.current_cookie(), "passToken=P; serviceToken=T");
}

#[test]
fn failures_are_copied_faithfully() {
    let failures = [
        MiError::Network("n".to_string()),
        MiError::Parse("p".to_string()),
        MiError::Api("a".to_string()),
        MiError::MaxRetriesExceeded,
        MiError::Auth(AuthError::NoLocation),
        MiError::Auth(AuthError::SessionExpired),
        MiError::Auth(AuthError::MaxAttempts(403)),
        MiError::Auth(AuthError::RefreshFailed(Box::new(MiError::Auth(AuthError::RefreshFailed(
            Box::new(MiError::Parse("deep".to_string())),
        ))))),
    ];
    for failure in &failures {
        assert_eq!(&failure.duplicate(), failure);
        assert_eq!(failure.duplicate().message(), failure.message());
    }
    assert_eq!(failures[7].message(), "STS error: STS error: deep");
    assert_eq!(MiError::Api("a".to_string()).message(), "a");
}

#[test]
fn refresh_drops_attributes_and_empty_values_of_the_account_cookie() {
    let mut store = CredentialStore::new("passToken=P; Path=/; empty=; Secure=1", None);
    assert_eq!(store.current_cookie(), "passToken=P; Path=/; empty=; Secure=1");
    assert_eq!(
        store.finish_refresh(Ok("serviceToken=T".to_string())),
        Ok("passToken=P; serviceToken=T".to_string())
    );
    assert_eq!(store.current_cookie(), "passToken=P; serviceToken=T");
    assert_eq!(store.account().timeout, Duration::from_secs(5));
}
