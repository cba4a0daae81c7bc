//! The handshake that exchanges the account cookie for a session cookie.
//!
//! The handshake takes three requests, each built from the answer to the one
//! before: ask the service for its login address, go to that address to
//! learn where the token service is, and collect the cookies that the token
//! service sets. No request may follow a redirect by itself: the redirect
//! target and the cookies are the answer. The library decides; the caller
//! sends each request and reports what came back.

use vstd::prelude::*;
use vstd::string::{StrSliceExecFns, StringSliceAdditionalSpecFns};
use vstd::utf8::encode_utf8;
use crate::auth::{MiAccount, LOGIN_ENDPOINT};
use crate::codec::{
    holds_identity_only, lemma_tidy_reads_back, tidied_text, tidy_key_values,
};
use crate::error::{AuthError, AuthFault, Fault, MiError};
use crate::json::{json_member, read_member};
use crate::text::{
    append, chars_of, decimal, decimal_chars, join, joined, string_of, text_view, texts, Text,
};

verus! {

/// A `GET` request of the handshake.
#[derive(Clone, Debug, PartialEq, Eq)]
pub struct Fetch {
    /// The address to get.
    pub url: String,
    /// The value of the `Cookie` header, where one is sent.
    pub cookie: Option<String>,
    /// The value of the `User-Agent` header, where one is sent.
    pub user_agent: Option<String>,
    /// Whether the transport may follow a redirect by itself.
    pub follow_redirects: bool,
}

/// A request of the handshake, with texts as character sequences.
pub struct FetchView {
    pub url: Text,
    pub cookie: Option<Text>,
    pub user_agent: Option<Text>,
    pub follow_redirects: bool,
}

impl View for Fetch {
    type V = FetchView;

    open spec fn view(&self) -> FetchView {
        FetchView {
            url: self.url@,
            cookie: text_view(self.cookie),
            user_agent: text_view(self.user_agent),
            follow_redirects: self.follow_redirects,
        }
    }
}

/// What the handshake reads from a response.
#[derive(Clone, Debug, PartialEq, Eq)]
pub struct HopReply {
    /// The status code.
    pub status: u16,
    /// The value of the `Location` header, where there is one.
    pub location: Option<String>,
    /// The values of all `Set-Cookie` headers, in order.
    pub set_cookies: Vec<String>,
    /// The login address in the body, where the body is an envelope that
    /// holds one.
    pub login_url: Option<String>,
}

/// A response, with texts as character sequences.
pub struct HopReplyView {
    pub status: u16,
    pub location: Option<Text>,
    pub set_cookies: Seq<Text>,
    pub login_url: Option<Text>,
}

impl View for HopReply {
    type V = HopReplyView;

    open spec fn view(&self) -> HopReplyView {
        HopReplyView {
            status: self.status,
            location: text_view(self.location),
            set_cookies: texts(self.set_cookies@),
            login_url: text_view(self.login_url),
        }
    }
}

/// The login address that a body names: the string `loginUrl` in the object
/// `data` of the JSON envelope that the body is, or `None` where the body is
/// no such envelope. The member `data` is read as the JSON text that it is.
pub open spec fn login_url_in(body: Seq<u8>) -> Option<Text> {
    match json_member(body, "data"@) {
        Ok(Some((data, _))) => match json_member(encode_utf8(data), "loginUrl"@) {
            Ok(Some((_, Some(url)))) => Some(url),
            _ => None,
        },
        _ => None,
    }
}

impl HopReply {
    /// What the handshake reads from a response with this status, these
    /// headers and this body.
    pub fn read(
        status: u16,
        location: Option<String>,
        set_cookies: Vec<String>,
        body: &Vec<u8>,
    ) -> (reply: HopReply)
        ensures
            reply@ == (HopReplyView {
                status,
                location: text_view(location),
                set_cookies: texts(set_cookies@),
                login_url: login_url_in(body@),
            }),
    {
        let login_url = match read_member(body, "data") {
            Ok(Some((data, _))) => {
                let inner = data.as_str().as_bytes_vec();
                match read_member(&inner, "loginUrl") {
                    Ok(Some((_, Some(url)))) => Some(url),
                    _ => None,
                }
            },
            _ => None,
        };
        HopReply { status, location, set_cookies, login_url }
    }
}

/// How a request of the handshake ended.
#[derive(Clone, Debug, PartialEq, Eq)]
pub enum HopOutcome {
    /// No response came: the connection failed, with this message.
    Failed(String),
    /// A response came.
    Answered(HopReply),
}

/// The end of a request, with texts as character sequences.
pub enum HopOutcomeView {
    Failed(Text),
    Answered(HopReplyView),
}

impl View for HopOutcome {
    type V = HopOutcomeView;

    open spec fn view(&self) -> HopOutcomeView {
        match self {
            HopOutcome::Failed(message) => HopOutcomeView::Failed(message@),
            HopOutcome::Answered(reply) => HopOutcomeView::Answered(reply@),
        }
    }
}

/// The request of the handshake that is under way.
#[derive(Clone, Copy, Debug, PartialEq, Eq, Structural)]
pub enum StsStage {
    /// Asking for the login address.
    LoginUrl,
    /// Asking the login address where the token service is.
    ServiceLogin,
    /// Asking the token service for the session cookies.
    Exchange,
}

/// What the handshake does next.
#[derive(Debug, PartialEq, Eq)]
pub enum StsStep {
    /// Send this request, and report its outcome for this stage.
    Fetch(StsStage, Fetch),
    /// The handshake is over: with the normalised session cookies, or with
    /// the failure that ended it.
    Finished(Result<String, MiError>),
}

/// A step, with texts as character sequences.
pub enum StsStepView {
    Fetch(StsStage, FetchView),
    Finished(Result<Text, Fault>),
}

impl View for StsStep {
    type V = StsStepView;

    open spec fn view(&self) -> StsStepView {
        match self {
            StsStep::Fetch(stage, fetch) => StsStepView::Fetch(*stage, fetch@),
            StsStep::Finished(Ok(cookie)) => StsStepView::Finished(Ok(cookie@)),
            StsStep::Finished(Err(e)) => StsStepView::Finished(Err(e@)),
        }
    }
}

/// Whether a status code reports success.
pub open spec fn is_success(status: u16) -> bool {
    200 <= status < 300
}

/// The address of the first request, for the time `now_ms` in milliseconds.
pub open spec fn login_address(now_ms: nat) -> Text {
    LOGIN_ENDPOINT@ + decimal(now_ms)
}

/// The first request: unauthenticated, with the time as a parameter so that
/// no cache answers it.
pub open spec fn first_fetch(now_ms: nat) -> FetchView {
    FetchView {
        url: login_address(now_ms),
        cookie: None,
        user_agent: None,
        follow_redirects: false,
    }
}

/// A request that carries the account cookie and the user agent.
pub open spec fn signed_fetch(url: Text, cookie: Text, user_agent: Text) -> FetchView {
    FetchView { url, cookie: Some(cookie), user_agent: Some(user_agent), follow_redirects: false }
}

/// The message of the failure when the login address is refused.
pub open spec fn refused_message(status: u16) -> Text {
    "login address request failed with status "@ + decimal(status as nat)
}

/// What follows from the outcome of the request of `stage`, for an account
/// with this cookie and user agent.
pub open spec fn next_step(
    cookie: Text,
    user_agent: Text,
    stage: StsStage,
    outcome: HopOutcomeView,
) -> StsStepView {
    match outcome {
        HopOutcomeView::Failed(message) => StsStepView::Finished(Err(Fault::Network(message))),
        HopOutcomeView::Answered(reply) => match stage {
            StsStage::LoginUrl => if !is_success(reply.status) {
                StsStepView::Finished(Err(Fault::Network(refused_message(reply.status))))
            } else {
                match reply.login_url {
                    Some(url) => StsStepView::Fetch(
                        StsStage::ServiceLogin,
                        signed_fetch(url, cookie, user_agent),
                    ),
                    None => StsStepView::Finished(
                        Err(Fault::Parse("no login address in response"@)),
                    ),
                }
            },
            StsStage::ServiceLogin => match reply.location {
                Some(url) => StsStepView::Fetch(
                    StsStage::Exchange,
                    signed_fetch(url, cookie, user_agent),
                ),
                None => StsStepView::Finished(Err(Fault::Auth(AuthFault::NoLocation))),
            },
            StsStage::Exchange => if reply.set_cookies.len() == 0 {
                StsStepView::Finished(Err(Fault::Auth(AuthFault::SessionExpired)))
            } else {
                StsStepView::Finished(Ok(tidied_text(joined(reply.set_cookies, "; "@))))
            },
        },
    }
}

impl MiAccount {
    /// Begins the handshake at the time `now_ms`, in milliseconds: the first
    /// request, whose outcome is to be reported for the stage
    /// `StsStage::LoginUrl`.
    pub fn begin_handshake(now_ms: u128) -> (fetch: Fetch)
        ensures
            fetch@ == first_fetch(now_ms as nat),
    {
        let mut url = chars_of(LOGIN_ENDPOINT);
        let stamp = decimal_chars(now_ms);
        append(&mut url, &stamp);
        Fetch { url: string_of(&url), cookie: None, user_agent: None, follow_redirects: false }
    }

    /// A request to `url` that carries the cookie and the user agent of this
    /// account and follows no redirect.
    fn signed(&self, url: String) -> (fetch: Fetch)
        ensures
            fetch@ == signed_fetch(url@, self.cookie@, self.user_agent@),
    {
        Fetch {
            url,
            cookie: Some(self.cookie.clone()),
            user_agent: Some(self.user_agent.clone()),
            follow_redirects: false,
        }
    }

    /// Continues the handshake with the outcome of the request of `stage`:
    /// the next request, or the end of the handshake.
    ///
    /// A connection failure ends it with a network error at every stage. The
    /// login address must come with a success status and in the body; the
    /// service login must name a location; the token service must set at
    /// least one cookie, else the account cookie has expired.
    pub fn continue_handshake(&self, stage: StsStage, outcome: HopOutcome) -> (step: StsStep)
        ensures
            step@ == next_step(self.cookie@, self.user_agent@, stage, outcome@),
    {
        match outcome {
            HopOutcome::Failed(message) => StsStep::Finished(Err(MiError::Network(message))),
            HopOutcome::Answered(reply) => match stage {
                StsStage::LoginUrl => {
                    if !(200 <= reply.status && reply.status < 300) {
                        let mut message = chars_of("login address request failed with status ");
                        let digits = decimal_chars(reply.status as u128);
                        append(&mut message, &digits);
                        StsStep::Finished(Err(MiError::Network(string_of(&message))))
                    } else {
                        match reply.login_url {
                            Some(url) => StsStep::Fetch(StsStage::ServiceLogin, self.signed(url)),
                            None => StsStep::Finished(
                                Err(MiError::Parse("no login address in response".to_owned())),
                            ),
                        }
                    }
                },
                StsStage::ServiceLogin => match reply.location {
                    Some(url) => StsStep::Fetch(StsStage::Exchange, self.signed(url)),
                    None => StsStep::Finished(Err(MiError::Auth(AuthError::NoLocation))),
                },
                StsStage::Exchange => {
                    if reply.set_cookies.len() == 0 {
                        StsStep::Finished(Err(MiError::Auth(AuthError::SessionExpired)))
                    } else {
                        let combined = join(&reply.set_cookies, "; ");
                        let combined = string_of(&combined);
                        StsStep::Finished(Ok(tidy_key_values(combined.as_str())))
                    }
                },
            },
        }
    }
}

/// The place of a stage in the handshake.
pub open spec fn stage_number(stage: StsStage) -> int {
    match stage {
        StsStage::LoginUrl => 1,
        StsStage::ServiceLogin => 2,
        StsStage::Exchange => 3,
    }
}

/// The handshake moves forward one stage at a time and ends after the
/// third: a step is either the request of the next stage or the end, and no
/// request follows redirects. Every request after the first carries the
/// cookie and the user agent of the account.
pub proof fn lemma_handshake_moves_forward(
    cookie: Text,
    user_agent: Text,
    stage: StsStage,
    outcome: HopOutcomeView,
)
    ensures
        match next_step(cookie, user_agent, stage, outcome) {
            StsStepView::Fetch(next, fetch) => {
                &&& stage_number(next) == stage_number(stage) + 1
                &&& !fetch.follow_redirects
                &&& fetch.cookie == Some(cookie)
                &&& fetch.user_agent == Some(user_agent)
            },
            StsStepView::Finished(_) => true,
        },
        stage == StsStage::Exchange ==> next_step(cookie, user_agent, stage, outcome) is Finished,
        outcome is Failed ==> next_step(cookie, user_agent, stage, outcome) is Finished,
{
}

/// The handshake succeeds only at the last stage, and there exactly when the
/// token service set a cookie; what it yields holds identity cookies only.
pub proof fn lemma_handshake_yields_identity(
    cookie: Text,
    user_agent: Text,
    stage: StsStage,
    outcome: HopOutcomeView,
)
    ensures
        match next_step(cookie, user_agent, stage, outcome) {
            StsStepView::Finished(Ok(session)) => {
                &&& stage == StsStage::Exchange
                &&& outcome is Answered
                &&& outcome->Answered_0.set_cookies.len() > 0
                &&& holds_identity_only(session)
            },
            _ => !(stage == StsStage::Exchange && outcome is Answered
                && outcome->Answered_0.set_cookies.len() > 0),
        },
{
    if let HopOutcomeView::Answered(reply) = outcome {
        lemma_tidy_reads_back(joined(reply.set_cookies, "; "@));
    }
}

} // verus!
