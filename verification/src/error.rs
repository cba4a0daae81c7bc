//! What can go wrong: in the transport, in a response, in authentication, or
//! by running out of attempts.

use vstd::prelude::*;
use crate::text::{append, chars_of, decimal, decimal_chars, string_of, Text};

verus! {

/// An authentication failure.
#[derive(Debug, PartialEq, Eq)]
pub enum AuthError {
    /// The service-login response carried no `Location` header.
    NoLocation,
    /// The final hop set no cookie: the account cookie itself has expired,
    /// and only a fresh interactive login can help.
    SessionExpired,
    /// The handshake failed for a reason that is no authentication failure.
    RefreshFailed(Box<MiError>),
    /// The last attempt was still answered with this authorization status.
    MaxAttempts(u16),
}

/// A failure of a request or of the handshake.
#[derive(Debug, PartialEq, Eq)]
pub enum MiError {
    /// The connection failed or timed out.
    Network(String),
    /// A response was malformed or lacked an expected field.
    Parse(String),
    /// Authentication failed.
    Auth(AuthError),
    /// The service answered a request, but not with what was asked for.
    Api(String),
    /// All attempts were used up without a result.
    MaxRetriesExceeded,
}

/// An authentication failure, with texts as character sequences.
pub enum AuthFault {
    NoLocation,
    SessionExpired,
    RefreshFailed(Box<Fault>),
    MaxAttempts(u16),
}

/// A failure, with texts as character sequences.
pub enum Fault {
    Network(Text),
    Parse(Text),
    Auth(AuthFault),
    Api(Text),
    MaxRetriesExceeded,
}

/// An authentication failure with its texts as character sequences.
pub open spec fn auth_fault_of(e: AuthError) -> AuthFault
    decreases e,
{
    match e {
        AuthError::NoLocation => AuthFault::NoLocation,
        AuthError::SessionExpired => AuthFault::SessionExpired,
        AuthError::RefreshFailed(inner) => AuthFault::RefreshFailed(Box::new(fault_of(*inner))),
        AuthError::MaxAttempts(status) => AuthFault::MaxAttempts(status),
    }
}

/// A failure with its texts as character sequences.
pub open spec fn fault_of(e: MiError) -> Fault
    decreases e,
{
    match e {
        MiError::Network(message) => Fault::Network(message@),
        MiError::Parse(message) => Fault::Parse(message@),
        MiError::Auth(auth) => Fault::Auth(auth_fault_of(auth)),
        MiError::Api(message) => Fault::Api(message@),
        MiError::MaxRetriesExceeded => Fault::MaxRetriesExceeded,
    }
}

impl View for AuthError {
    type V = AuthFault;

    open spec fn view(&self) -> AuthFault {
        auth_fault_of(*self)
    }
}

impl View for MiError {
    type V = Fault;

    open spec fn view(&self) -> Fault {
        fault_of(*self)
    }
}

/// The message of an authentication failure.
pub open spec fn auth_message(fault: AuthFault) -> Text
    decreases fault,
{
    match fault {
        AuthFault::NoLocation => "no location in service login response"@,
        AuthFault::SessionExpired => "session expired — fresh login required"@,
        AuthFault::RefreshFailed(inner) => "STS error: "@ + fault_message(*inner),
        AuthFault::MaxAttempts(status) => "authentication error: "@ + decimal(status as nat),
    }
}

/// The message of a failure.
pub open spec fn fault_message(fault: Fault) -> Text
    decreases fault,
{
    match fault {
        Fault::Network(message) => message,
        Fault::Parse(message) => message,
        Fault::Auth(auth) => auth_message(auth),
        Fault::Api(message) => message,
        Fault::MaxRetriesExceeded => "max retries reached"@,
    }
}

impl AuthError {
    /// A copy of this failure.
    pub fn duplicate(&self) -> (copy: AuthError)
        ensures
            copy@ == self@,
        decreases self,
    {
        match self {
            AuthError::NoLocation => AuthError::NoLocation,
            AuthError::SessionExpired => AuthError::SessionExpired,
            AuthError::RefreshFailed(inner) => AuthError::RefreshFailed(
                Box::new(inner.duplicate()),
            ),
            AuthError::MaxAttempts(status) => AuthError::MaxAttempts(*status),
        }
    }

    /// The message of this failure, as characters.
    pub fn message_chars(&self) -> (r: Vec<char>)
        ensures
            r@ == auth_message(self@),
        decreases self,
    {
        match self {
            AuthError::NoLocation => chars_of("no location in service login response"),
            AuthError::SessionExpired => chars_of("session expired — fresh login required"),
            AuthError::RefreshFailed(inner) => {
                let mut r = chars_of("STS error: ");
                let rest = inner.message_chars();
                append(&mut r, &rest);
                r
            },
            AuthError::MaxAttempts(status) => {
                let mut r = chars_of("authentication error: ");
                let digits = decimal_chars(*status as u128);
                append(&mut r, &digits);
                r
            },
        }
    }

    /// The message of this failure.
    pub fn message(&self) -> (r: String)
        ensures
            r@ == auth_message(self@),
    {
        string_of(&self.message_chars())
    }
}

impl MiError {
    /// A copy of this failure.
    pub fn duplicate(&self) -> (copy: MiError)
        ensures
            copy@ == self@,
        decreases self,
    {
        match self {
            MiError::Network(message) => MiError::Network(message.clone()),
            MiError::Parse(message) => MiError::Parse(message.clone()),
            MiError::Auth(auth) => MiError::Auth(auth.duplicate()),
            MiError::Api(message) => MiError::Api(message.clone()),
            MiError::MaxRetriesExceeded => MiError::MaxRetriesExceeded,
        }
    }

    /// The message of this failure, as characters.
    pub fn message_chars(&self) -> (r: Vec<char>)
        ensures
            r@ == fault_message(self@),
        decreases self,
    {
        match self {
            MiError::Network(message) => chars_of(message.as_str()),
            MiError::Parse(message) => chars_of(message.as_str()),
            MiError::Auth(auth) => auth.message_chars(),
            MiError::Api(message) => chars_of(message.as_str()),
            MiError::MaxRetriesExceeded => chars_of("max retries reached"),
        }
    }

    /// The message of this failure.
    pub fn message(&self) -> (r: String)
        ensures
            r@ == fault_message(self@),
    {
        string_of(&self.message_chars())
    }
}

} // verus!
