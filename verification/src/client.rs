//! The client's side of logging in: what it shows for what the services
//! answer, and the countdown of a code.

use vstd::prelude::*;
use crate::api::{NOT_FOUND, OK, TOO_MANY_REQUESTS, UNAUTHORIZED};

verus! {

/// Seconds for which a code that was sent can be entered.
pub const CODE_COUNTDOWN: u16 = 90;

/// Seconds to wait that are taken when the service names none.
pub const DEFAULT_COOLDOWN: u64 = 600;

/// The page that the client shows.
#[derive(Debug, Clone, PartialEq, Eq)]
pub enum AppState {
    /// The form to log in.
    Login,
    /// The form to enter the code that was mailed to this address.
    TwoFactor(String),
    /// The form to link a node.
    NodeLink,
}

/// What the form to log in shows.
#[derive(Debug, Clone, Copy, PartialEq, Eq, Structural)]
pub enum LoginState {
    Idle,
    Failure,
}

/// What the form to enter a code shows.
#[derive(Debug, Clone, PartialEq)]
pub enum AuthStatus {
    Idle,
    Sent,
    Sending,
    Timeout,
    Verified,
    Error(String),
}

/// Whether a request for a code was turned down for its sender asking too
/// often, and for how many seconds.
#[derive(Debug, Clone, Copy, PartialEq, Eq, Structural)]
pub enum IsRateLimited {
    RateLimited(u16),
    NotRateLimited,
}

/// Why a code was not redeemed.
#[derive(Debug, Clone, Copy, PartialEq, Eq, Structural)]
pub enum ErrorKind {
    TooManyRequests,
    NotFound,
    InvalidCode,
    Internal,
}

/// The body of the answer to an offered code.
#[derive(Debug)]
pub enum VerifyCodeResponse {
    Granted { token: String },
    Error { kind: ErrorKind, message: Option<String> },
}

impl AppState {
    /// The page after this one: from logging in to the code, for the address
    /// that logged in, and from the code to linking a node, where the client
    /// stays.
    pub fn advance(self, email: String) -> (next: AppState)
        ensures
            match self {
                AppState::Login => next matches AppState::TwoFactor(address) && address == email,
                AppState::TwoFactor(_) => next is NodeLink,
                AppState::NodeLink => next is NodeLink,
            },
    {
        match self {
            AppState::Login => AppState::TwoFactor(email),
            AppState::TwoFactor(_) => AppState::NodeLink,
            AppState::NodeLink => AppState::NodeLink,
        }
    }
}

/// What the form to log in shows after an answer with status `status`,
/// `body_read` telling whether its body could be read; `status` is `None` if
/// there was no answer.  Returns whether the login went through, too.
pub fn login_outcome(status: Option<u16>, body_read: bool) -> (r: (LoginState, bool))
    ensures
        r.1 == (status == Some(OK) && body_read),
        r.0 == if r.1 {
            LoginState::Idle
        } else {
            LoginState::Failure
        },
{
    match status {
        Some(code) => {
            if code == OK && body_read {
                (LoginState::Idle, true)
            } else {
                (LoginState::Failure, false)
            }
        },
        None => (LoginState::Failure, false),
    }
}

/// What a request for a code came to, from the status of the answer and the
/// seconds to wait that its body names, if it names any.  An answer that is
/// neither a success nor a refusal for asking too often is an error, told by
/// its status.
pub fn send_code_outcome(status: u16, cooldown: Option<u64>) -> (r: Result<IsRateLimited, u16>)
    ensures
        status == OK ==> r == Ok::<IsRateLimited, u16>(IsRateLimited::NotRateLimited),
        status == TOO_MANY_REQUESTS ==> r == Ok::<IsRateLimited, u16>(
            IsRateLimited::RateLimited(
                match cooldown {
                    Some(seconds) => seconds as u16,
                    None => DEFAULT_COOLDOWN as u16,
                },
            ),
        ),
        status != OK && status != TOO_MANY_REQUESTS ==> r == Err::<IsRateLimited, u16>(status),
{
    if status == OK {
        Ok(IsRateLimited::NotRateLimited)
    } else if status == TOO_MANY_REQUESTS {
        let seconds = match cooldown {
            Some(seconds) => seconds,
            None => DEFAULT_COOLDOWN,
        };
        Ok(IsRateLimited::RateLimited(#[verifier::truncate] (seconds as u16)))
    } else {
        Err(status)
    }
}

/// What the form shows, and what the countdown starts from, once a request
/// for a code came to `outcome`.
pub fn after_send(outcome: IsRateLimited) -> (r: (AuthStatus, u16))
    ensures
        match outcome {
            IsRateLimited::NotRateLimited => r.0 is Sent && r.1 == CODE_COUNTDOWN,
            IsRateLimited::RateLimited(seconds) => r.0 matches AuthStatus::Error(text) && text@
                == "Rate limited. Please wait below"@ && r.1 == seconds,
        },
{
    match outcome {
        IsRateLimited::NotRateLimited => (AuthStatus::Sent, CODE_COUNTDOWN),
        IsRateLimited::RateLimited(seconds) => (
            AuthStatus::Error("Rate limited. Please wait below".to_owned()),
            seconds,
        ),
    }
}

/// One second of the countdown: what is left of `remaining`, and whether
/// the countdown of a code that was sent has thereby run out.
pub fn tick(remaining: u16, code_was_sent: bool) -> (r: (u16, bool))
    ensures
        r.0 == if remaining > 0 {
            (remaining - 1) as u16
        } else {
            0
        },
        r.1 == (code_was_sent && r.0 == 0),
{
    let left = remaining.saturating_sub(1);
    (left, code_was_sent && left == 0)
}

/// The words for a code that was not redeemed.
pub open spec fn reason(kind: ErrorKind) -> Seq<char> {
    match kind {
        ErrorKind::TooManyRequests => "Error: Too many requests. Please try again later."@,
        ErrorKind::NotFound => "Error: Email not registered."@,
        ErrorKind::InvalidCode => "Error: Invalid verification code."@,
        ErrorKind::Internal => "Error: Internal server error."@,
    }
}

/// The words for an answer to an offered code that is no success.
pub open spec fn refusal(status: u16) -> Seq<char> {
    if status == TOO_MANY_REQUESTS {
        "Too many get code request"@
    } else if status == NOT_FOUND {
        "Email not registered"@
    } else if status == UNAUTHORIZED {
        "Invalid verification code"@
    } else {
        "Internal Server Error"@
    }
}

/// What the form shows after the answer to an offered code, from the status
/// of the answer and from its body, if it is a success and its body could be
/// read.  Returns the token, too, if there is one.
pub fn verify_outcome(status: u16, body: Option<VerifyCodeResponse>) -> (r: (
    AuthStatus,
    Option<String>,
))
    ensures
        status != OK ==> r.1 is None && (r.0 matches AuthStatus::Error(text) && text@ == refusal(
            status,
        )),
        status == OK ==> match body {
            Some(VerifyCodeResponse::Granted { token }) => r.0 is Verified && r.1 == Some(token),
            Some(VerifyCodeResponse::Error { kind, message }) => r.1 is None && (r.0
                matches AuthStatus::Error(text) && text@ == reason(kind)),
            None => r.1 is None && r.0 is Error,
        },
{
    if status == OK {
        match body {
            Some(VerifyCodeResponse::Granted { token }) => (AuthStatus::Verified, Some(token)),
            Some(VerifyCodeResponse::Error { kind, message }) => {
                let text = match kind {
                    ErrorKind::TooManyRequests => {
                        "Error: Too many requests. Please try again later."
                    },
                    ErrorKind::NotFound => "Error: Email not registered.",
                    ErrorKind::InvalidCode => "Error: Invalid verification code.",
                    ErrorKind::Internal => "Error: Internal server error.",
                };
                (AuthStatus::Error(text.to_owned()), None)
            },
            None => (AuthStatus::Error("No token received.".to_owned()), None),
        }
    } else if status == TOO_MANY_REQUESTS {
        (AuthStatus::Error("Too many get code request".to_owned()), None)
    } else if status == NOT_FOUND {
        (AuthStatus::Error("Email not registered".to_owned()), None)
    } else if status == UNAUTHORIZED {
        (AuthStatus::Error("Invalid verification code".to_owned()), None)
    } else {
        (AuthStatus::Error("Internal Server Error".to_owned()), None)
    }
}

} // verus!
