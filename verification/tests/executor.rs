use minote::auth::MiAccount;
use minote::error::{AuthError, MiError};
use minote::executor::{build_headers, detect_mobile, Decision, Header, Method, RetryPolicy, SendOutcome};
use minote::store::CredentialStore;
use minote::sts::{HopOutcome, HopReply, StsStage, StsStep};

fn header_value<'a>(headers: &'a [Header], name: &str) -> Option<&'a str> {
    headers.iter().find(|h| h.name == name).map(|h| h.value.as_str())
}

fn sts_answer(url: &str) -> HopOutcome {
    let blank = HopReply { status: 200, location: None, set_cookies: Vec::new(), login_url: None };
    match url {
        "https://svc/login" => HopOutcome::Answered(HopReply {
            status: 302,
            location: Some("https://svc/sts".to_string()),
            ..blank
        }),
        "https://svc/sts" => HopOutcome::Answered(HopReply {
            set_cookies: vec!["serviceToken=T1".to_string(), "userId=U1".to_string()],
            ..blank
        }),
        _ => HopOutcome::Answered(HopReply::read(
            200,
            None,
            Vec::new(),
            &b"{\"data\":{\"loginUrl\":\"https://svc/login\"}}".to_vec(),
        )),
    }
}

fn refresh(store: &mut CredentialStore, calls: &mut usize) -> Option<AuthError> {
    let mut stage = StsStage::LoginUrl;
    let mut fetch = MiAccount::begin_handshake(1);
    let handshake = loop {
        *calls += 1;
        let outcome = sts_answer(&fetch.url);
        match store.account().continue_handshake(stage, outcome) {
            StsStep::Fetch(next_stage, next_fetch) => {
                stage = next_stage;
                fetch = next_fetch;
            }
            StsStep::Finished(result) => break result,
        }
    };
    store.finish_refresh(handshake).err()
}

fn run(
    policy: &RetryPolicy,
    store: &mut CredentialStore,
    script: Vec<SendOutcome>,
) -> (Result<(Vec<u8>, u16), MiError>, usize, usize, usize, Vec<String>) {
    let mut script = script.into_iter();
    let (mut calls, mut refreshes, mut pauses) = (0usize, 0usize, 0usize);
    let mut cookies_sent = Vec::new();
    let mut decision = policy.begin();
    loop {
        decision = match decision {
            Decision::Send { attempt } => {
                calls += 1;
                let headers = build_headers(&store.current_cookie(), store.user_agent(), Method::Get);
                cookies_sent.push(header_value(&headers, "Cookie").unwrap().to_string());
                let outcome = script.next().expect("no more sends are expected");
                policy.after_send(attempt, outcome)
            }
            Decision::Backoff { attempt, millis } => {
                assert_eq!(millis, policy.backoff_ms);
                pauses += 1;
                policy.after_backoff(attempt)
            }
            Decision::Refresh { attempt } => {
                refreshes += 1;
                let failure = refresh(store, &mut calls);
                policy.after_refresh(attempt, failure)
            }
            Decision::Return { body, status } => {
                return (Ok((body, status)), calls, refreshes, pauses, cookies_sent)
            }
            Decision::Fail(e) => return (Err(e), calls, refreshes, pauses, cookies_sent),
        };
    }
}

fn status(code: u16) -> SendOutcome {
    SendOutcome::Response { status: code, body: Vec::new() }
}

#[test]
fn default_policy_is_three_attempts_and_half_a_second() {
    assert_eq!(RetryPolicy::default(), RetryPolicy { max_attempts: 3, backoff_ms: 500 });
}

#[test]
fn unauthorized_then_refresh_then_success_takes_five_calls() {
    let policy = RetryPolicy::default();
    let mut store = CredentialStore::new("passToken=P; userId=U0", None);
    let body = b"{\"data\":{\"entries\":[]}}".to_vec();
    let script = vec![status(401), SendOutcome::Response { status: 200, body: body.clone() }];
    let (result, calls, refreshes, pauses, cookies) = run(&policy, &mut store, script);
    assert_eq!(result, Ok((body, 200)));
    assert_eq!(calls, 5);
    assert_eq!(refreshes, 1);
    assert_eq!(pauses, 0);
    assert_eq!(cookies[0], "passToken=P; userId=U0");
    assert_eq!(cookies[1], "passToken=P; serviceToken=T1; userId=U1");
    assert_eq!(store.current_cookie(), "passToken=P; serviceToken=T1; userId=U1");
}

#[test]
fn three_connection_failures_surface_the_last_one() {
    let policy = RetryPolicy::default();
    let mut store = CredentialStore::new("a=1", None);
    let script = vec![
        SendOutcome::Failed("first".to_string()),
        SendOutcome::Failed("second".to_string()),
        SendOutcome::Failed("third".to_string()),
    ];
    let (result, calls, refreshes, pauses, _) = run(&policy, &mut store, script);
    assert_eq!(result, Err(MiError::Network("third".to_string())));
    assert_eq!(calls, 3);
    assert_eq!(refreshes, 0);
    assert_eq!(pauses, 2);
}

#[test]
fn forbidden_on_the_last_attempt_is_terminal() {
    let policy = RetryPolicy::default();
    let mut store = CredentialStore::new("a=1", None);
    let script = vec![status(403), status(403), status(403)];
    let (result, calls, refreshes, _, _) = run(&policy, &mut store, script);
    assert_eq!(result, Err(MiError::Auth(AuthError::MaxAttempts(403))));
    assert_eq!(refreshes, 2);
    assert_eq!(calls, 3 + 2 * 3);
    assert_eq!(
        MiError::Auth(AuthError::MaxAttempts(403)).message(),
        "authentication error: 403"
    );
}

#[test]
fn failed_refresh_ends_the_request_at_once() {
    let policy = RetryPolicy::default();
    let decision = policy.after_refresh(1, Some(AuthError::SessionExpired));
    assert_eq!(decision, Decision::Fail(MiError::Auth(AuthError::SessionExpired)));
    let wrapped = AuthError::RefreshFailed(Box::new(MiError::Network("down".to_string())));
    assert_eq!(wrapped.message(), "STS error: down");
    assert_eq!(
        policy.after_refresh(2, Some(wrapped)),
        Decision::Fail(MiError::Auth(AuthError::RefreshFailed(Box::new(MiError::Network(
            "down".to_string()
        )))))
    );
}

#[test]
fn other_statuses_are_returned_as_they_are() {
    let policy = RetryPolicy::default();
    for code in [200u16, 204, 302, 400, 404, 500] {
        let decision =
            policy.after_send(1, SendOutcome::Response { status: code, body: vec![1, 2, 3] });
        assert_eq!(decision, Decision::Return { body: vec![1, 2, 3], status: code });
    }
}

#[test]
fn decisions_follow_the_attempt_budget() {
    let policy = RetryPolicy { max_attempts: 2, backoff_ms: 10 };
    assert_eq!(policy.begin(), Decision::Send { attempt: 1 });
    assert_eq!(
        policy.after_send(1, SendOutcome::Failed("x".to_string())),
        Decision::Backoff { attempt: 1, millis: 10 }
    );
    assert_eq!(policy.after_backoff(1), Decision::Send { attempt: 2 });
    assert_eq!(policy.after_send(1, status(401)), Decision::Refresh { attempt: 1 });
    assert_eq!(policy.after_refresh(1, None), Decision::Send { attempt: 2 });
    assert_eq!(
        policy.after_send(2, SendOutcome::Failed("y".to_string())),
        Decision::Fail(MiError::Network("y".to_string()))
    );
    assert_eq!(
        policy.after_send(2, status(401)),
        Decision::Fail(MiError::Auth(AuthError::MaxAttempts(401)))
    );
    assert_eq!(policy.after_backoff(2), Decision::Fail(MiError::MaxRetriesExceeded));
    assert_eq!(policy.after_refresh(2, None), Decision::Fail(MiError::MaxRetriesExceeded));
}

#[test]
fn no_attempt_allowed_means_max_retries_exceeded() {
    let policy = RetryPolicy { max_attempts: 0, backoff_ms: 500 };
    assert_eq!(policy.begin(), Decision::Fail(MiError::MaxRetriesExceeded));
    assert_eq!(MiError::MaxRetriesExceeded.message(), "max retries reached");
}

#[test]
fn headers_mimic_a_desktop_browser() {
    let headers = build_headers("a=1; i.mi.com_ph=TOKEN123", "Mozilla/5.0 (Windows NT 10.0)", Method::Get);
    let pairs: Vec<(&str, &str)> =
        headers.iter().map(|h| (h.name.as_str(), h.value.as_str())).collect();
    assert_eq!(
        pairs,
        vec![
            ("Cookie", "a=1; i.mi.com_ph=TOKEN123"),
            ("User-Agent", "Mozilla/5.0 (Windows NT 10.0)"),
            ("Accept", "*/*"),
            ("Accept-Language", "en-US,en;q=0.9,zh-CN;q=0.8,zh;q=0.7"),
            ("priority", "u=1, i"),
            ("Referer", "https://i.mi.com/note/h5"),
            ("Sec-Ch-Ua-Mobile", "?0"),
            ("Sec-Ch-Ua-Platform", "\"Windows\""),
            ("Sec-Fetch-Dest", "empty"),
            ("Sec-Fetch-Mode", "cors"),
            ("Sec-Fetch-Site", "same-origin"),
        ]
    );
}

#[test]
fn writes_carry_the_anti_forgery_token_of_the_cookie() {
    let headers = build_headers("a=1; i.mi.com_ph=TOKEN123", "UA", Method::Post);
    assert_eq!(headers.len(), 12);
    assert_eq!(header_value(&headers, "X-XSRF-TOKEN"), Some("TOKEN123"));
    let without = build_headers("a=1", "UA", Method::Post);
    assert_eq!(without.len(), 11);
    assert_eq!(header_value(&without, "X-XSRF-TOKEN"), None);
}

#[test]
fn mobile_user_agents_are_announced_as_mobile() {
    assert!(detect_mobile("Mozilla/5.0 (iPhone; CPU iPhone OS 17_0 like Mac OS X)"));
    assert!(detect_mobile("Mozilla/5.0 (Linux; Android 14)"));
    assert!(detect_mobile("Something Mobile/15E148"));
    assert!(!detect_mobile("Mozilla/5.0 (Windows NT 10.0; Win64; x64)"));
    assert!(!detect_mobile(""));
    let headers = build_headers("a=1", "Mozilla/5.0 (iPhone)", Method::Get);
    assert_eq!(header_value(&headers, "Sec-Ch-Ua-Mobile"), Some("?1"));
    assert_eq!(header_value(&headers, "Sec-Ch-Ua-Platform"), Some("\"iOS\""));
}
