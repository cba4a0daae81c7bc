use minote::auth::{MiAccount, DEFAULT_USER_AGENT};
use minote::error::{AuthError, MiError};
use minote::sts::{Fetch, HopOutcome, HopReply, StsStage, StsStep};

fn reply(status: u16) -> HopReply {
    HopReply { status, location: None, set_cookies: Vec::new(), login_url: None }
}

fn answer(url: &str) -> HopOutcome {
    match url {
        "https://svc/login" => {
            HopOutcome::Answered(HopReply {
                location: Some("https://svc/sts".to_string()),
                ..reply(302)
            })
        }
        "https://svc/sts" => HopOutcome::Answered(HopReply {
            set_cookies: vec!["serviceToken=T1".to_string(), "userId=U1".to_string()],
            ..reply(200)
        }),
        _ => HopOutcome::Answered(HopReply::read(
            200,
            None,
            Vec::new(),
            &b"{\"data\":{\"loginUrl\":\"https://svc/login\"}}".to_vec(),
        )),
    }
}

#[test]
fn first_request_is_unauthenticated_and_time_stamped() {
    let fetch = MiAccount::begin_handshake(1_700_000_000_123);
    assert_eq!(
        fetch,
        Fetch {
            url: "https://i.mi.com/api/user/login?&followUp=https%3A%2F%2Fi.mi.com%2F&_locale=zh_CN&ts=1700000000123"
                .to_string(),
            cookie: None,
            user_agent: None,
            follow_redirects: false,
        }
    );
    assert!(MiAccount::begin_handshake(0).url.ends_with("&ts=0"));
}

#[test]
fn handshake_yields_normalised_cookies_of_the_token_service() {
    let account = MiAccount::new("passToken=P; userId=U0");
    let mut sent: Vec<Fetch> = Vec::new();
    let mut stage = StsStage::LoginUrl;
    let mut fetch = MiAccount::begin_handshake(42);
    let result = loop {
        let outcome = answer(&fetch.url);
        sent.push(fetch);
        match account.continue_handshake(stage, outcome) {
            StsStep::Fetch(next_stage, next_fetch) => {
                stage = next_stage;
                fetch = next_fetch;
            }
            StsStep::Finished(result) => break result,
        }
    };
    assert_eq!(result, Ok("serviceToken=T1; userId=U1".to_string()));
    assert_eq!(sent.len(), 3);
    assert_eq!(sent[1].url, "https://svc/login");
    assert_eq!(sent[2].url, "https://svc/sts");
    for fetch in &sent[1..] {
        assert_eq!(fetch.cookie.as_deref(), Some("passToken=P; userId=U0"));
        assert_eq!(fetch.user_agent.as_deref(), Some(DEFAULT_USER_AGENT));
    }
    assert!(sent.iter().all(|f| !f.follow_redirects));
}

#[test]
fn no_set_cookie_header_means_session_expired() {
    let account = MiAccount::new("passToken=P");
    let step = account.continue_handshake(StsStage::Exchange, HopOutcome::Answered(reply(200)));
    assert_eq!(step, StsStep::Finished(Err(MiError::Auth(AuthError::SessionExpired))));
}

#[test]
fn missing_location_ends_the_handshake() {
    let account = MiAccount::new("passToken=P");
    let step = account.continue_handshake(StsStage::ServiceLogin, HopOutcome::Answered(reply(200)));
    assert_eq!(step, StsStep::Finished(Err(MiError::Auth(AuthError::NoLocation))));
}

#[test]
fn login_address_needs_success_and_a_body() {
    let account = MiAccount::new("passToken=P");
    let refused = account.continue_handshake(StsStage::LoginUrl, HopOutcome::Answered(reply(500)));
    assert_eq!(
        refused,
        StsStep::Finished(Err(MiError::Network(
            "login address request failed with status 500".to_string()
        )))
    );
    let empty = account.continue_handshake(StsStage::LoginUrl, HopOutcome::Answered(reply(200)));
    assert_eq!(
        empty,
        StsStep::Finished(Err(MiError::Parse("no login address in response".to_string())))
    );
}

#[test]
fn connection_failure_ends_the_handshake_at_every_stage() {
    let account = MiAccount::new("passToken=P");
    for stage in [StsStage::LoginUrl, StsStage::ServiceLogin, StsStage::Exchange] {
        let step = account.continue_handshake(stage, HopOutcome::Failed("reset".to_string()));
        assert_eq!(step, StsStep::Finished(Err(MiError::Network("reset".to_string()))));
    }
}

#[test]
fn handshake_requests_use_the_user_agent_of_the_account() {
    let account = MiAccount::new("c=1").with_ua("Agent/1".to_string());
    let step = account.continue_handshake(
        StsStage::ServiceLogin,
        HopOutcome::Answered(HopReply { location: Some("https://x/y".to_string()), ..reply(302) }),
    );
    assert_eq!(
        step,
        StsStep::Fetch(
            StsStage::Exchange,
            Fetch {
                url: "https://x/y".to_string(),
                cookie: Some("c=1".to_string()),
                user_agent: Some("Agent/1".to_string()),
                follow_redirects: false,
            }
        )
    );
}

#[test]
fn attributes_of_set_cookie_headers_are_dropped() {
    let account = MiAccount::new("passToken=P");
    let step = account.continue_handshake(
        StsStage::Exchange,
        HopOutcome::Answered(HopReply {
            set_cookies: vec![
                "serviceToken=T1; Path=/; Domain=i.mi.com; Expires=Wed, 21 Oct 2026 07:28:00 GMT; HttpOnly".to_string(),
                "i.mi.com_slh=S; path=/".to_string(),
                "i.mi.com_ph=H; Max-Age=3600; SameSite=Lax".to_string(),
                "userId=77; Secure".to_string(),
                "gone=; Path=/".to_string(),
            ],
            ..reply(200)
        }),
    );
    assert_eq!(
        step,
        StsStep::Finished(Ok(
            "i.mi.com_ph=H; i.mi.com_slh=S; serviceToken=T1; userId=77".to_string()
        ))
    );
}

#[test]
fn login_address_is_read_from_the_envelope() {
    let body = b"{\"code\":0,\"data\":{\"loginUrl\":\"https://svc/login\",\"x\":1}}".to_vec();
    let reply = HopReply::read(200, None, Vec::new(), &body);
    assert_eq!(
        reply,
        HopReply {
            status: 200,
            location: None,
            set_cookies: Vec::new(),
            login_url: Some("https://svc/login".to_string()),
        }
    );
    for bad in ["", "not json", "{}", "{\"data\":{}}", "{\"data\":{\"loginUrl\":7}}", "{\"data\":[\"u\"]}", "{\"loginUrl\":\"u\"}"] {
        let reply = HopReply::read(
            302,
            Some("l".to_string()),
            vec!["a=1".to_string()],
            &bad.as_bytes().to_vec(),
        );
        assert_eq!(reply.login_url, None, "{bad}");
        assert_eq!(reply.status, 302);
        assert_eq!(reply.location.as_deref(), Some("l"));
        assert_eq!(reply.set_cookies, vec!["a=1".to_string()]);
    }
    let account = MiAccount::new("c=1");
    let step = account.continue_handshake(
        StsStage::LoginUrl,
        HopOutcome::Answered(HopReply::read(200, None, Vec::new(), &body)),
    );
    assert!(matches!(step, StsStep::Fetch(StsStage::ServiceLogin, ref f) if f.url == "https://svc/login"));
}

#[test]
fn login_address_survives_what_stands_round_it() {
    let body = "{\"data\":{\"n\":1.5e3,\"loginUrl\":\"https://svc/l?a=\\\"b\\\"&c=\\u00e9\\n\",\"deep\":[[{\"loginUrl\":\"no\"}]],\"big\":18446744073709551615}}";
    let reply = HopReply::read(200, None, Vec::new(), &body.as_bytes().to_vec());
    assert_eq!(reply.login_url.as_deref(), Some("https://svc/l?a=\"b\"&c=é\n"));
    let nested = b"{\"data\":\"{\\\"loginUrl\\\":\\\"u\\\"}\"}".to_vec();
    assert_eq!(HopReply::read(200, None, Vec::new(), &nested).login_url, None);
    let null = b"{\"data\":null}".to_vec();
    assert_eq!(HopReply::read(200, None, Vec::new(), &null).login_url, None);
}
