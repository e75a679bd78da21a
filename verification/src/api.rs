//! What the HTTP services take and give: the bodies of requests and answers,
//! and the rules by which an outcome becomes an answer.

use vstd::prelude::*;
use crate::auth::AuthError;
use crate::tfa::{TFAError, TFAResponse};

verus! {

/// Status of an answer that carries what was asked for.
pub const OK: u16 = 200;

/// Status of an answer to a request that was not allowed.
pub const UNAUTHORIZED: u16 = 401;

/// Status of an answer about something that does not exist.
pub const NOT_FOUND: u16 = 404;

/// Status of an answer to a caller that asked too often.
pub const TOO_MANY_REQUESTS: u16 = 429;

/// Status of an answer after a fault of the service.
pub const INTERNAL_SERVER_ERROR: u16 = 500;

/// Status of an answer while the service cannot do its work.
pub const SERVICE_UNAVAILABLE: u16 = 503;

/// The body of a request to log in.
#[derive(Debug)]
pub struct LoginRequest {
    pub email: String,
    pub password: String,
}

/// The body of the answer to a request to log in.
#[derive(Debug)]
pub struct LoginResponse {
    pub status: String,
    pub email: Option<String>,
}

/// The body of an accepted request to log in.
#[derive(Debug)]
pub struct LoginSuccess {
    pub email: String,
}

/// The body of a request for a code, or to drop an entry.
#[derive(Debug)]
pub struct RegisterRequest {
    pub email: String,
}

/// The body of a request to redeem a code.
#[derive(Debug)]
pub struct VerifyCodeRequest {
    pub email: String,
    pub code: u32,
}

/// The body of the answer to a request for a code: how many seconds the
/// caller has to wait, if it has to.
#[derive(Debug, PartialEq, Eq, Structural)]
pub struct CoolDown {
    pub cooldown: Option<u16>,
}

impl Default for CoolDown {
    fn default() -> (body: Self)
        ensures
            body.cooldown is None,
    {
        CoolDown { cooldown: None }
    }
}

impl CoolDown {
    pub fn new(cooldown: u16) -> (body: Self)
        ensures
            body.cooldown == Some(cooldown),
    {
        CoolDown { cooldown: Some(cooldown) }
    }
}

/// The body of an answer that carries a token.
#[derive(Debug)]
pub struct Token {
    pub token: String,
}

impl From<String> for Token {
    fn from(token: String) -> (body: Self) {
        Token { token }
    }
}

impl vstd::std_specs::convert::FromSpecImpl<String> for Token {
    open spec fn obeys_from_spec() -> bool {
        true
    }

    open spec fn from_spec(token: String) -> Self {
        Token { token }
    }
}

/// The body of the answer to an accepted request for a code.
#[derive(Debug, PartialEq, Eq, Structural)]
pub struct RegisterSuccess {
    pub cooldown: Option<u16>,
}

impl Default for RegisterSuccess {
    fn default() -> (body: Self)
        ensures
            body.cooldown is None,
    {
        RegisterSuccess { cooldown: None }
    }
}

/// The body of the answer to an accepted request to drop an entry.
#[derive(Debug, PartialEq, Eq, Structural)]
pub struct DeregisterSuccess;

/// The body of the answer to a redeemed code.
#[derive(Debug)]
pub struct VerifyCodeSuccess {
    pub token: String,
}

/// What is mailed: a code, to an address.
#[derive(Debug)]
pub struct EmailRequest {
    pub to: String,
    pub code: String,
}

/// The answer to a request that was turned down.
#[derive(Debug)]
pub enum ApiError {
    Unauthorized(Option<String>),
    TooManyRegisterRequests(Option<u16>),
    TooManyGetTokenRequests,
    NotFound,
    Internal,
}

impl ApiError {
    /// The status with which `error` is answered.
    pub open spec fn status_of(error: ApiError) -> u16 {
        match error {
            ApiError::Unauthorized(_) => UNAUTHORIZED,
            ApiError::TooManyRegisterRequests(_) => TOO_MANY_REQUESTS,
            ApiError::TooManyGetTokenRequests => TOO_MANY_REQUESTS,
            ApiError::NotFound => NOT_FOUND,
            ApiError::Internal => INTERNAL_SERVER_ERROR,
        }
    }

    /// The status with which this error is answered.
    pub fn status(&self) -> (code: u16)
        ensures
            code == Self::status_of(*self),
    {
        match self {
            ApiError::Unauthorized(_) => UNAUTHORIZED,
            ApiError::TooManyRegisterRequests(_) => TOO_MANY_REQUESTS,
            ApiError::TooManyGetTokenRequests => TOO_MANY_REQUESTS,
            ApiError::NotFound => NOT_FOUND,
            ApiError::Internal => INTERNAL_SERVER_ERROR,
        }
    }

    /// The body that goes with a caller that asked for codes too often: the
    /// seconds it has to wait.  Every other error is its own body.
    pub fn cooldown_body(&self) -> (body: Option<RegisterSuccess>)
        ensures
            match *self {
                ApiError::TooManyRegisterRequests(cooldown) => body == Some(
                    RegisterSuccess { cooldown },
                ),
                _ => body is None,
            },
    {
        match self {
            ApiError::TooManyRegisterRequests(cooldown) => Some(
                RegisterSuccess { cooldown: *cooldown },
            ),
            _ => None,
        }
    }

    /// The answer to a turned-down account request.
    pub fn from_auth(e: AuthError) -> (error: Self)
        ensures
            match e {
                AuthError::InvalidCredentials => error matches ApiError::Unauthorized(Some(text))
                    && text@ == "Invalid credentials"@,
                AuthError::UserAlreadyExists => error matches ApiError::Unauthorized(Some(text))
                    && text@ == "User already exists"@,
                AuthError::UserNotFound => error is NotFound,
                AuthError::UserLocked => error matches ApiError::Unauthorized(Some(text)) && text@
                    == "Account locked"@,
                AuthError::UserFileNotFound => error is Internal,
            },
    {
        match e {
            AuthError::InvalidCredentials => ApiError::Unauthorized(
                Some("Invalid credentials".to_owned()),
            ),
            AuthError::UserAlreadyExists => ApiError::Unauthorized(
                Some("User already exists".to_owned()),
            ),
            AuthError::UserNotFound => ApiError::NotFound,
            AuthError::UserLocked => ApiError::Unauthorized(Some("Account locked".to_owned())),
            _ => ApiError::Internal,
        }
    }

    /// The answer to a turned-down two-factor request.  The seconds to wait
    /// are cut to sixteen bits.
    pub fn from_tfa(e: TFAError) -> (error: Self)
        ensures
            match e {
                TFAError::InvalidCode => error matches ApiError::Unauthorized(None),
                TFAError::CodeExpired => error matches ApiError::Unauthorized(Some(text)) && text@
                    == "Code expired"@,
                TFAError::TooManyGetTokenRequests => error is TooManyGetTokenRequests,
                TFAError::TooManyRegisterRequests(times) => error
                    matches ApiError::TooManyRegisterRequests(Some(seconds)) && seconds
                    == times as u16,
                TFAError::NotFound => error is NotFound,
                TFAError::Error(_) => error is Internal,
            },
    {
        match e {
            TFAError::InvalidCode => ApiError::Unauthorized(None),
            TFAError::CodeExpired => ApiError::Unauthorized(Some("Code expired".to_owned())),
            TFAError::TooManyGetTokenRequests => ApiError::TooManyGetTokenRequests,
            TFAError::TooManyRegisterRequests(times) => ApiError::TooManyRegisterRequests(
                Some(#[verifier::truncate] (times as u16)),
            ),
            TFAError::NotFound => ApiError::NotFound,
            _ => ApiError::Internal,
        }
    }
}

/// The answer to a request for a code, from the engine's answer, if it gave
/// one.  On success the code is handed back too: it is what has to be
/// mailed.
pub fn register_reply(response: Option<TFAResponse>) -> (r: Result<(RegisterSuccess, u32), ApiError>)
    ensures
        match response {
            Some(TFAResponse::Registered(code)) => r == Ok::<(RegisterSuccess, u32), ApiError>(
                (RegisterSuccess { cooldown: None }, code),
            ),
            Some(TFAResponse::Error(TFAError::TooManyRegisterRequests(times))) => r matches Err(
                ApiError::TooManyRegisterRequests(Some(seconds)),
            ) && seconds == times as u16,
            Some(TFAResponse::Error(TFAError::InvalidCode)) => r matches Err(
                ApiError::Unauthorized(None),
            ),
            Some(TFAResponse::Error(TFAError::CodeExpired)) => r matches Err(
                ApiError::Unauthorized(Some(_)),
            ),
            Some(TFAResponse::Error(TFAError::TooManyGetTokenRequests)) => r matches Err(
                ApiError::TooManyGetTokenRequests,
            ),
            Some(TFAResponse::Error(TFAError::NotFound)) => r matches Err(ApiError::NotFound),
            _ => r matches Err(ApiError::Internal),
        },
{
    match response {
        Some(TFAResponse::Registered(code)) => Ok((RegisterSuccess { cooldown: None }, code)),
        Some(TFAResponse::Error(error)) => Err(ApiError::from_tfa(error)),
        _ => Err(ApiError::Internal),
    }
}

/// The answer to a request to drop an entry, from the engine's answer, if
/// it gave one.
pub fn deregister_reply(response: Option<TFAResponse>) -> (r: Result<DeregisterSuccess, ApiError>)
    ensures
        match response {
            Some(TFAResponse::Deregistered) => r is Ok,
            _ => r matches Err(ApiError::Internal),
        },
{
    match response {
        Some(TFAResponse::Deregistered) => Ok(DeregisterSuccess),
        _ => Err(ApiError::Internal),
    }
}

/// The answer to a code offered for a token, from the engine's answer, if it
/// gave one.
pub fn verify_reply(response: Option<TFAResponse>) -> (r: Result<VerifyCodeSuccess, ApiError>)
    ensures
        match response {
            Some(TFAResponse::Token(token)) => r matches Ok(body) && body.token == token,
            Some(TFAResponse::Error(TFAError::TooManyRegisterRequests(times))) => r matches Err(
                ApiError::TooManyRegisterRequests(Some(seconds)),
            ) && seconds == times as u16,
            Some(TFAResponse::Error(TFAError::InvalidCode)) => r matches Err(
                ApiError::Unauthorized(None),
            ),
            Some(TFAResponse::Error(TFAError::CodeExpired)) => r matches Err(
                ApiError::Unauthorized(Some(_)),
            ),
            Some(TFAResponse::Error(TFAError::TooManyGetTokenRequests)) => r matches Err(
                ApiError::TooManyGetTokenRequests,
            ),
            Some(TFAResponse::Error(TFAError::NotFound)) => r matches Err(ApiError::NotFound),
            _ => r matches Err(ApiError::Internal),
        },
{
    match response {
        Some(TFAResponse::Token(token)) => Ok(VerifyCodeSuccess { token }),
        Some(TFAResponse::Error(error)) => Err(ApiError::from_tfa(error)),
        _ => Err(ApiError::Internal),
    }
}

/// The answer to a request to log in, from the outcome of the password
/// check and from whether the two-factor service answers.  Whatever the
/// reason, a failed check is answered with "Invalid credentials".
pub fn login_reply(outcome: Result<String, AuthError>, tfa_is_healthy: bool) -> (r: Result<
    LoginSuccess,
    ApiError,
>)
    ensures
        match outcome {
            Ok(email) => if tfa_is_healthy {
                r matches Ok(body) && body.email == email
            } else {
                r matches Err(ApiError::Internal)
            },
            Err(_) => r matches Err(ApiError::Unauthorized(Some(text))) && text@
                == "Invalid credentials"@,
        },
{
    match outcome {
        Ok(email) => {
            if !tfa_is_healthy {
                return Err(ApiError::Internal);
            }
            Ok(LoginSuccess { email })
        },
        Err(_e) => Err(ApiError::Unauthorized(Some("Invalid credentials".to_owned()))),
    }
}

/// The plain answer to a request for a code, from the engine's answer, if it
/// gave one: a status, and the seconds to wait if the sender asked too
/// often.  On success the code is handed back too: it is what has to be
/// mailed.
pub fn register_answer(response: Option<TFAResponse>) -> (r: (u16, CoolDown, Option<u32>))
    ensures
        match response {
            Some(TFAResponse::Registered(code)) => r == (OK, CoolDown { cooldown: None }, Some(code)),
            Some(TFAResponse::Error(TFAError::TooManyRegisterRequests(times))) => r == (
                TOO_MANY_REQUESTS,
                CoolDown { cooldown: Some(times as u16) },
                None::<u32>,
            ),
            _ => r == (INTERNAL_SERVER_ERROR, CoolDown { cooldown: None }, None::<u32>),
        },
{
    match response {
        Some(TFAResponse::Registered(code)) => (OK, CoolDown::default(), Some(code)),
        Some(TFAResponse::Error(TFAError::TooManyRegisterRequests(time_to_wait))) => (
            TOO_MANY_REQUESTS,
            CoolDown::new(#[verifier::truncate] (time_to_wait as u16)),
            None,
        ),
        _ => (INTERNAL_SERVER_ERROR, CoolDown::default(), None),
    }
}

/// The plain answer to a request to drop an entry, from the engine's
/// answer, if it gave one.
pub fn deregister_answer(response: Option<TFAResponse>) -> (r: (u16, CoolDown))
    ensures
        r.1 == (CoolDown { cooldown: None }),
        r.0 == match response {
            Some(TFAResponse::Deregistered) => OK,
            _ => NOT_FOUND,
        },
{
    match response {
        Some(TFAResponse::Deregistered) => (OK, CoolDown::default()),
        _ => (NOT_FOUND, CoolDown::default()),
    }
}

/// The plain answer to a code offered for a token, from the engine's
/// answer, if it gave one: the token, or the word "Error" in its place.
pub fn verify_answer(response: Option<TFAResponse>) -> (r: (u16, Token))
    ensures
        match response {
            Some(TFAResponse::Token(token)) => r.0 == OK && r.1.token == token,
            _ => r.0 == INTERNAL_SERVER_ERROR && r.1.token@ == "Error"@,
        },
{
    match response {
        Some(TFAResponse::Token(token)) => (OK, Token { token }),
        _ => (INTERNAL_SERVER_ERROR, Token { token: "Error".to_owned() }),
    }
}

/// The plain answer to a request to log in, from the outcome of the password
/// check and from whether the two-factor service answers.
pub fn login_answer(outcome: Result<String, AuthError>, tfa_is_healthy: bool) -> (r: (
    u16,
    LoginResponse,
))
    ensures
        match outcome {
            Ok(email) => if tfa_is_healthy {
                r.0 == OK && r.1.status@ == "Ok"@ && r.1.email == Some(email)
            } else {
                r.0 == SERVICE_UNAVAILABLE && r.1.status@ == "Failure"@ && r.1.email is None
            },
            Err(_) => r.0 == UNAUTHORIZED && r.1.status@ == "Failure"@ && r.1.email is None,
        },
{
    match outcome {
        Ok(email) => {
            if !tfa_is_healthy {
                return (
                    SERVICE_UNAVAILABLE,
                    LoginResponse { status: "Failure".to_owned(), email: None },
                );
            }
            (OK, LoginResponse { status: "Ok".to_owned(), email: Some(email) })
        },
        Err(_e) => (UNAUTHORIZED, LoginResponse { status: "Failure".to_owned(), email: None }),
    }
}

} // verus!
