//! The resilient request executor: what goes into a request, and what to do
//! after each step of sending it.
//!
//! One logical request takes a bounded number of attempts. A connection
//! failure is answered by a pause and another attempt; an authorization
//! failure by a refresh of the session cookie and another attempt; on the
//! last attempt either is final. Any other response is the result. The
//! library decides; the caller sends, sleeps and refreshes, and reports what
//! happened.

use vstd::prelude::*;
use crate::codec::{cookie_pairs_of, extract_value, first_value};
use crate::error::{AuthError, AuthFault, Fault, MiError};
use crate::text::{chars_of, contains, contains_text, Text};

verus! {

/// How often a request is attempted, and how long to pause after a
/// connection failure.
#[derive(Clone, Copy, Debug, PartialEq, Eq, Structural)]
pub struct RetryPolicy {
    /// The number of attempts that one request may take.
    pub max_attempts: u32,
    /// The pause after a connection failure, in milliseconds.
    pub backoff_ms: u64,
}

impl Default for RetryPolicy {
    /// Three attempts, half a second of pause.
    fn default() -> (policy: Self)
        ensures
            policy == (RetryPolicy { max_attempts: 3, backoff_ms: 500 }),
    {
        RetryPolicy { max_attempts: 3, backoff_ms: 500 }
    }
}

/// The method of a request.
#[derive(Clone, Copy, Debug, PartialEq, Eq, Structural)]
pub enum Method {
    Get,
    Post,
    Put,
    Delete,
}

/// A header of a request.
#[derive(Clone, Debug, PartialEq, Eq)]
pub struct Header {
    pub name: String,
    pub value: String,
}

impl View for Header {
    type V = (Text, Text);

    open spec fn view(&self) -> (Text, Text) {
        (self.name@, self.value@)
    }
}

/// The name and value of each header, in order.
pub open spec fn header_views(headers: Seq<Header>) -> Seq<(Text, Text)> {
    headers.map_values(|h: Header| h@)
}

/// The name of the cookie that holds the anti-forgery token.
pub const FORGERY_TOKEN: &'static str = "i.mi.com_ph";

/// Whether a user agent is that of a mobile device.
pub open spec fn is_mobile(user_agent: Text) -> bool {
    ||| contains_text(user_agent, "iPhone"@)
    ||| contains_text(user_agent, "Android"@)
    ||| contains_text(user_agent, "Mobile"@)
}

/// The headers that every request carries.
pub open spec fn common_headers(cookie: Text, user_agent: Text) -> Seq<(Text, Text)> {
    seq![
        ("Cookie"@, cookie),
        ("User-Agent"@, user_agent),
        ("Accept"@, "*/*"@),
        ("Accept-Language"@, "en-US,en;q=0.9,zh-CN;q=0.8,zh;q=0.7"@),
        ("priority"@, "u=1, i"@),
        ("Referer"@, "https://i.mi.com/note/h5"@),
        (
            "Sec-Ch-Ua-Mobile"@,
            if is_mobile(user_agent) {
                "?1"@
            } else {
                "?0"@
            },
        ),
        (
            "Sec-Ch-Ua-Platform"@,
            if is_mobile(user_agent) {
                "\"iOS\""@
            } else {
                "\"Windows\""@
            },
        ),
        ("Sec-Fetch-Dest"@, "empty"@),
        ("Sec-Fetch-Mode"@, "cors"@),
        ("Sec-Fetch-Site"@, "same-origin"@),
    ]
}

/// The headers of a request: the common ones and, for a method other than
/// `Get`, the anti-forgery token of the cookie where the cookie has one.
pub open spec fn request_headers(cookie: Text, user_agent: Text, method: Method) -> Seq<
    (Text, Text),
> {
    let common = common_headers(cookie, user_agent);
    match first_value(cookie_pairs_of(cookie), FORGERY_TOKEN@) {
        Some(token) if method != Method::Get => common.push(("X-XSRF-TOKEN"@, token)),
        _ => common,
    }
}

/// A header with the given name and value.
fn header(name: &str, value: &str) -> (h: Header)
    ensures
        h@ == (name@, value@),
{
    Header { name: name.to_owned(), value: value.to_owned() }
}

/// Whether a user agent is that of a mobile device.
pub fn detect_mobile(user_agent: &str) -> (mobile: bool)
    ensures
        mobile == is_mobile(user_agent@),
{
    let agent = chars_of(user_agent);
    contains(&agent, &chars_of("iPhone")) || contains(&agent, &chars_of("Android")) || contains(
        &agent,
        &chars_of("Mobile"),
    )
}

/// The headers of a request that carries `cookie`, for the given user
/// agent and method.
pub fn build_headers(cookie: &str, user_agent: &str, method: Method) -> (headers: Vec<Header>)
    ensures
        header_views(headers@) == request_headers(cookie@, user_agent@, method),
{
    let mobile = detect_mobile(user_agent);
    let mut headers: Vec<Header> = Vec::new();
    headers.push(header("Cookie", cookie));
    headers.push(header("User-Agent", user_agent));
    headers.push(header("Accept", "*/*"));
    headers.push(header("Accept-Language", "en-US,en;q=0.9,zh-CN;q=0.8,zh;q=0.7"));
    headers.push(header("priority", "u=1, i"));
    headers.push(header("Referer", "https://i.mi.com/note/h5"));
    headers.push(header("Sec-Ch-Ua-Mobile", if mobile { "?1" } else { "?0" }));
    headers.push(header("Sec-Ch-Ua-Platform", if mobile { "\"iOS\"" } else { "\"Windows\"" }));
    headers.push(header("Sec-Fetch-Dest", "empty"));
    headers.push(header("Sec-Fetch-Mode", "cors"));
    headers.push(header("Sec-Fetch-Site", "same-origin"));
    assert(header_views(headers@) =~= common_headers(cookie@, user_agent@));
    if method != Method::Get {
        match extract_value(cookie, FORGERY_TOKEN) {
            Some(token) => {
                let ghost before = headers@;
                headers.push(header("X-XSRF-TOKEN", token.as_str()));
                assert(header_views(headers@) =~= header_views(before).push(
                    ("X-XSRF-TOKEN"@, token@),
                ));
            },
            None => {},
        }
    }
    headers
}

/// How an attempt to send ended.
#[derive(Clone, Debug, PartialEq, Eq)]
pub enum SendOutcome {
    /// No response came: the connection failed, with this message.
    Failed(String),
    /// A response came, with this status and body.
    Response { status: u16, body: Vec<u8> },
}

/// The end of an attempt, with texts as character sequences.
pub enum SendOutcomeView {
    Failed(Text),
    Response { status: u16, body: Seq<u8> },
}

impl View for SendOutcome {
    type V = SendOutcomeView;

    open spec fn view(&self) -> SendOutcomeView {
        match self {
            SendOutcome::Failed(message) => SendOutcomeView::Failed(message@),
            SendOutcome::Response { status, body } => SendOutcomeView::Response {
                status: *status,
                body: body@,
            },
        }
    }
}

/// What the executor does next.
#[derive(Debug, PartialEq, Eq)]
pub enum Decision {
    /// Send the request with the cookie that is current; this is attempt
    /// number `attempt`, counted from one.
    Send { attempt: u32 },
    /// Pause for `millis` milliseconds after attempt `attempt`.
    Backoff { attempt: u32, millis: u64 },
    /// Refresh the session cookie after attempt `attempt`.
    Refresh { attempt: u32 },
    /// The request is over, with this response.
    Return { body: Vec<u8>, status: u16 },
    /// The request is over, with this failure.
    Fail(MiError),
}

/// A decision, with texts as character sequences.
pub enum DecisionView {
    Send { attempt: u32 },
    Backoff { attempt: u32, millis: u64 },
    Refresh { attempt: u32 },
    Return { body: Seq<u8>, status: u16 },
    Fail(Fault),
}

impl View for Decision {
    type V = DecisionView;

    open spec fn view(&self) -> DecisionView {
        match self {
            Decision::Send { attempt } => DecisionView::Send { attempt: *attempt },
            Decision::Backoff { attempt, millis } => DecisionView::Backoff {
                attempt: *attempt,
                millis: *millis,
            },
            Decision::Refresh { attempt } => DecisionView::Refresh { attempt: *attempt },
            Decision::Return { body, status } => DecisionView::Return {
                body: body@,
                status: *status,
            },
            Decision::Fail(e) => DecisionView::Fail(e@),
        }
    }
}

/// Whether a status refuses authorization: 401 or 403.
pub open spec fn is_auth_failure(status: u16) -> bool {
    status == 401 || status == 403
}

/// Whether a decision ends the request.
pub open spec fn is_final(d: DecisionView) -> bool {
    d is Return || d is Fail
}

impl RetryPolicy {
    /// The attempt after attempt `attempt`, or the end where there is none
    /// left.
    pub open spec fn next_attempt(self, attempt: u32) -> DecisionView {
        if attempt < self.max_attempts {
            DecisionView::Send { attempt: (attempt + 1) as u32 }
        } else {
            DecisionView::Fail(Fault::MaxRetriesExceeded)
        }
    }

    /// The decision after attempt `attempt` ended as `outcome`.
    pub open spec fn decide_after_send(self, attempt: u32, outcome: SendOutcomeView) -> DecisionView {
        match outcome {
            SendOutcomeView::Failed(message) => if attempt < self.max_attempts {
                DecisionView::Backoff { attempt, millis: self.backoff_ms }
            } else {
                DecisionView::Fail(Fault::Network(message))
            },
            SendOutcomeView::Response { status, body } => if !is_auth_failure(status) {
                DecisionView::Return { body, status }
            } else if attempt < self.max_attempts {
                DecisionView::Refresh { attempt }
            } else {
                DecisionView::Fail(Fault::Auth(AuthFault::MaxAttempts(status)))
            },
        }
    }

    /// The decision after the refresh that followed attempt `attempt`.
    pub open spec fn decide_after_refresh(self, attempt: u32, failure: Option<AuthFault>) -> DecisionView {
        match failure {
            Some(fault) => DecisionView::Fail(Fault::Auth(fault)),
            None => self.next_attempt(attempt),
        }
    }

    /// The attempt after attempt `attempt`.
    fn advance(&self, attempt: u32) -> (d: Decision)
        ensures
            d@ == self.next_attempt(attempt),
    {
        if attempt < self.max_attempts {
            Decision::Send { attempt: attempt + 1 }
        } else {
            Decision::Fail(MiError::MaxRetriesExceeded)
        }
    }

    /// Begins a request: the first attempt, or the end where the policy
    /// allows no attempt.
    pub fn begin(&self) -> (d: Decision)
        ensures
            d@ == self.next_attempt(0),
    {
        self.advance(0)
    }

    /// Decides after attempt `attempt` ended as `outcome`.
    ///
    /// A response that does not refuse authorization is returned as it is,
    /// whatever its status. A connection failure leads to a pause, and a
    /// refused authorization to a refresh, while an attempt is left; on the
    /// last attempt the connection failure is the failure of the request,
    /// and the refused authorization ends it without another refresh.
    pub fn after_send(&self, attempt: u32, outcome: SendOutcome) -> (d: Decision)
        ensures
            d@ == self.decide_after_send(attempt, outcome@),
    {
        match outcome {
            SendOutcome::Failed(message) => {
                if attempt < self.max_attempts {
                    Decision::Backoff { attempt, millis: self.backoff_ms }
                } else {
                    Decision::Fail(MiError::Network(message))
                }
            },
            SendOutcome::Response { status, body } => {
                if !(status == 401 || status == 403) {
                    Decision::Return { body, status }
                } else if attempt < self.max_attempts {
                    Decision::Refresh { attempt }
                } else {
                    Decision::Fail(MiError::Auth(AuthError::MaxAttempts(status)))
                }
            },
        }
    }

    /// Decides after the pause that followed attempt `attempt`: the next
    /// attempt.
    pub fn after_backoff(&self, attempt: u32) -> (d: Decision)
        ensures
            d@ == self.next_attempt(attempt),
    {
        self.advance(attempt)
    }

    /// Decides after the refresh that followed attempt `attempt`: the next
    /// attempt where the refresh succeeded; where it failed, its failure is
    /// the failure of the request, and nothing more is attempted.
    pub fn after_refresh(&self, attempt: u32, failure: Option<AuthError>) -> (d: Decision)
        ensures
            d@ == self.decide_after_refresh(
                attempt,
                match failure {
                    Some(e) => Some(e@),
                    None => None,
                },
            ),
    {
        match failure {
            Some(e) => Decision::Fail(MiError::Auth(e)),
            None => self.advance(attempt),
        }
    }
}

/// No attempt goes beyond the budget: the attempt that follows attempt
/// `attempt` is numbered one higher and at most `max_attempts`.
pub proof fn lemma_attempts_stay_within_budget(policy: RetryPolicy, attempt: u32)
    ensures
        policy.next_attempt(attempt) matches DecisionView::Send { attempt: next } ==> next
            == attempt + 1 && next <= policy.max_attempts,
        !(policy.next_attempt(attempt) is Send) ==> policy.next_attempt(attempt)
            == DecisionView::Fail(Fault::MaxRetriesExceeded),
{
}

/// Whatever an attempt ends as, the executor pauses or refreshes only while
/// an attempt is left, and then the next attempt follows; on the last
/// attempt every decision is final.
pub proof fn lemma_retry_leads_to_an_attempt(
    policy: RetryPolicy,
    attempt: u32,
    outcome: SendOutcomeView,
)
    ensures
        ({
            let d = policy.decide_after_send(attempt, outcome);
            &&& d is Backoff || d is Refresh ==> attempt < policy.max_attempts
                && policy.next_attempt(attempt) is Send && policy.decide_after_refresh(
                attempt,
                None,
            ) is Send
            &&& attempt >= policy.max_attempts ==> is_final(d)
            &&& !(d is Send)
        }),
{
}

/// A refresh that fails ends the request with the failure of the refresh,
/// whatever the attempt.
pub proof fn lemma_failed_refresh_is_final(policy: RetryPolicy, attempt: u32, fault: AuthFault)
    ensures
        policy.decide_after_refresh(attempt, Some(fault)) == DecisionView::Fail(Fault::Auth(fault)),
{
}

} // verus!
