//! The two-factor engine: one entry per key, each with a code, a log of the
//! times at which a code was asked for, and the token issued for the code.
//!
//! Time is a count of seconds handed in by the caller, from a clock that
//! never runs backwards.  Codes and tokens are drawn at random; every rule is
//! stated for whatever is drawn.

use vstd::prelude::*;
use crate::table::Table;

verus! {

/// Seconds after which a code can no longer be redeemed.
pub const TFA_CODE_TIMEOUT: u64 = 90;

/// Seconds after which an entry is dropped, and after which a key that asked
/// too often may ask again.
pub const KEY_TIMEOUT: u64 = 600;

/// The number of times a key may ask for a code before it must wait.
pub const REQUEST_LIMIT: usize = 5;

/// Codes are below this number: six decimal digits.
pub const CODE_LIMIT: u32 = 1_000_000;

/// The number of characters of a token.
pub const TOKEN_LENGTH: usize = 36;

/// A two-factor code.
pub type TFACode = u32;

/// What an entry is filed under: an e-mail address.
#[derive(Clone, Debug, Hash, PartialEq, Eq, PartialOrd, Ord)]
pub struct TFAKey(pub String);

impl View for TFAKey {
    type V = Seq<char>;

    open spec fn view(&self) -> Seq<char> {
        self.0@
    }
}

impl From<String> for TFAKey {
    fn from(value: String) -> (key: Self) {
        TFAKey(value)
    }
}

impl vstd::std_specs::convert::FromSpecImpl<String> for TFAKey {
    open spec fn obeys_from_spec() -> bool {
        true
    }

    open spec fn from_spec(value: String) -> Self {
        TFAKey(value)
    }
}

/// How many times the token of an entry has been handed out.
#[derive(Clone, Copy, Debug, PartialEq, Eq, Structural)]
pub enum TokenVersion {
    Unissued,
    V1,
    V2,
    V3,
    V4,
    V5,
}

impl Default for TokenVersion {
    fn default() -> (version: Self)
        ensures
            version == TokenVersion::Unissued,
    {
        TokenVersion::Unissued
    }
}

impl TokenVersion {
    /// The version after this one; the last version has none.
    pub open spec fn successor(self) -> Option<TokenVersion> {
        match self {
            TokenVersion::Unissued => Some(TokenVersion::V1),
            TokenVersion::V1 => Some(TokenVersion::V2),
            TokenVersion::V2 => Some(TokenVersion::V3),
            TokenVersion::V3 => Some(TokenVersion::V4),
            TokenVersion::V4 => Some(TokenVersion::V5),
            TokenVersion::V5 => None,
        }
    }

    /// Steps to the next version and returns it.  The last version stays,
    /// and the step fails.
    pub fn next_version(&mut self) -> (r: Result<Self, ()>)
        ensures
            match old(self).successor() {
                Some(next) => r == Ok::<TokenVersion, ()>(next) && *final(self) == next,
                None => r is Err && *final(self) == *old(self),
            },
    {
        let next_version = match self {
            TokenVersion::Unissued => TokenVersion::V1,
            TokenVersion::V1 => TokenVersion::V2,
            TokenVersion::V2 => TokenVersion::V3,
            TokenVersion::V3 => TokenVersion::V4,
            TokenVersion::V4 => TokenVersion::V5,
            TokenVersion::V5 => {
                return Err(());
            },
        };
        *self = next_version;
        Ok(next_version)
    }
}

/// Why a request was turned down.
#[derive(Debug, Clone, PartialEq, Eq)]
pub enum TFAError {
    /// The key asked for a code too often; it may ask again after this many
    /// seconds.
    TooManyRegisterRequests(u64),
    /// The token was handed out as often as it may be.
    TooManyGetTokenRequests,
    /// The code is too old.
    CodeExpired,
    /// The code is not the one that was issued.
    InvalidCode,
    /// There is no entry for the key.
    NotFound,
    /// Anything else.
    Error(String),
}

/// The answer to a request.
#[derive(Clone, Debug)]
pub enum TFAResponse {
    /// A code was issued: this one.
    Registered(u32),
    /// The entry is gone.
    Deregistered,
    /// The code was right: this is the token.
    Token(String),
    /// The request was turned down.
    Error(TFAError),
}

/// A request to the engine.
#[derive(Clone, Debug)]
pub enum TFARequest {
    /// Issue a code for the key.
    Register(TFAKey),
    /// Drop the key's entry.
    Deregister(TFAKey),
    /// Redeem the code for the key's token.
    VerifyAndIssueToken(TFAKey, TFACode),
}

/// One entry, as plain values.
pub struct TFAState {
    /// The times at which a code was asked for, oldest first.
    pub log: Seq<u64>,
    /// The code that was issued last.
    pub code: u32,
    /// The token, once a code was redeemed.
    pub token: Option<Seq<char>>,
    /// How many times the token has been handed out.
    pub token_version: TokenVersion,
}

impl TFAState {
    /// Well-formedness: a code was asked for at least once, and a token
    /// that was handed out exists.
    pub open spec fn wf(self) -> bool {
        &&& self.log.len() > 0
        &&& self.token_version != TokenVersion::Unissued ==> self.token is Some
    }

    /// The whole seconds from `earlier` to `now`; zero if `now` is not
    /// later.
    pub open spec fn seconds_between(earlier: u64, now: u64) -> u64 {
        if now >= earlier {
            (now - earlier) as u64
        } else {
            0
        }
    }

    /// Seconds since a code was first asked for.
    pub open spec fn elapsed_since_creation(self, now: u64) -> u64 {
        Self::seconds_between(self.log[0], now)
    }

    /// Seconds since a code was last asked for.
    pub open spec fn elapsed_since_last_request(self, now: u64) -> u64 {
        Self::seconds_between(self.log.last(), now)
    }

    /// Whether the code is too old to be redeemed.
    pub open spec fn code_expired(self, now: u64) -> bool {
        self.elapsed_since_last_request(now) > TFA_CODE_TIMEOUT
    }

    /// Whether a code was asked for more often than allowed.
    pub open spec fn too_many_requests(self) -> bool {
        self.log.len() > REQUEST_LIMIT
    }

    /// A new entry: one request at `now`, no token.
    pub open spec fn fresh(now: u64, code: u32) -> TFAState {
        TFAState { log: seq![now], code, token: None, token_version: TokenVersion::Unissued }
    }

    /// The entry with its token forgotten.
    pub open spec fn without_token(self) -> TFAState {
        TFAState { token: None, token_version: TokenVersion::Unissued, ..self }
    }

    /// The entry after one more request for a code at `now`, answered with
    /// `code`.
    pub open spec fn asked_again(self, now: u64, code: u32) -> TFAState {
        TFAState { log: self.log.push(now), code, ..self }
    }

    /// The entry after its code was redeemed, with `fresh` as the token if
    /// none was issued yet.
    pub open spec fn redeemed(self, fresh: Seq<char>) -> TFAState {
        TFAState {
            token: if self.token_version == TokenVersion::Unissued {
                Some(fresh)
            } else {
                self.token
            },
            token_version: self.token_version.successor().unwrap(),
            ..self
        }
    }

    /// The entry as `flush_expired_keys` leaves it, if it keeps it.
    pub open spec fn flushed(self, now: u64) -> TFAState {
        if self.code_expired(now) {
            self.without_token()
        } else {
            self
        }
    }
}

/// One entry of the engine.
#[derive(Clone, Debug)]
pub struct TFAValue {
    log: Vec<u64>,
    code: u32,
    token: Option<String>,
    token_version: TokenVersion,
}

impl View for TFAValue {
    type V = TFAState;

    closed spec fn view(&self) -> TFAState {
        TFAState {
            log: self.log@,
            code: self.code,
            token: match self.token {
                Some(token) => Some(token@),
                None => None,
            },
            token_version: self.token_version,
        }
    }
}

/// Draws a number below `limit` with `rand::random_range(0..limit)`.  The
/// range is not empty, so the call does not panic; the result lies in the
/// range.  Nothing else is known of it.
#[verifier::external_body]
fn random_below(limit: u32) -> (drawn: u32)
    requires
        limit > 0,
    ensures
        drawn < limit,
{
    rand::random_range(0..limit)
}

/// Draws a random UUID with `uuid::Uuid::new_v4()` and writes it out with
/// `to_string()`: the hyphenated form, which is 36 characters long.  Nothing
/// else is known of it.
#[verifier::external_body]
fn random_token() -> (token: String)
    ensures
        token@.len() == TOKEN_LENGTH,
{
    uuid::Uuid::new_v4().to_string()
}

impl TFAValue {
    /// A new entry for a request at `now`, with a code drawn at random.
    pub fn new(now: u64) -> (value: Self)
        ensures
            value@.log == seq![now],
            value@.code < CODE_LIMIT,
            value@.token is None,
            value@.token_version == TokenVersion::Unissued,
            value@.wf(),
    {
        Self::with_code(now, random_below(CODE_LIMIT))
    }

    /// A new entry for a request at `now`, with the code `code`.
    pub fn with_code(now: u64, code: u32) -> (value: Self)
        ensures
            value@ == TFAState::fresh(now, code),
            value@.wf(),
    {
        let mut log: Vec<u64> = Vec::with_capacity(6);
        log.push(now);
        let value = TFAValue { log, code, token_version: TokenVersion::Unissued, token: None };
        assert(value@.log =~= seq![now]);
        value
    }

    /// Whether at `now` the code is too old to be redeemed: more than
    /// `TFA_CODE_TIMEOUT` seconds have passed since it was asked for.
    pub fn is_code_expired(&self, now: u64) -> (expired: bool)
        requires
            self@.log.len() > 0,
        ensures
            expired == self@.code_expired(now),
    {
        let elapsed = self.time_elapsed_sice_last_request(now);
        elapsed > TFA_CODE_TIMEOUT
    }

    /// Whether a code was asked for more often than `REQUEST_LIMIT` times.
    pub fn too_many_register_requests(&self) -> (too_many: bool)
        ensures
            too_many == self@.too_many_requests(),
    {
        self.log.len() > 5
    }

    /// Seconds from the last request for a code to `now`.
    pub fn time_elapsed_sice_last_request(&self, now: u64) -> (seconds: u64)
        requires
            self@.log.len() > 0,
        ensures
            seconds == self@.elapsed_since_last_request(now),
    {
        now.saturating_sub(self.log[self.log.len() - 1])
    }

    /// Seconds from the first request for a code to `now`.
    pub fn time_elapsed_since_creation(&self, now: u64) -> (seconds: u64)
        requires
            self@.log.len() > 0,
        ensures
            seconds == self@.elapsed_since_creation(now),
    {
        now.saturating_sub(self.log[0])
    }

    /// The code that was issued last.
    pub fn code(&self) -> (code: u32)
        ensures
            code == self@.code,
    {
        self.code
    }

    /// The token, once a code was redeemed.
    pub fn token(&self) -> (token: Option<&String>)
        ensures
            token is Some == self@.token is Some,
            token matches Some(held) ==> self@.token == Some(held@),
    {
        self.token.as_ref()
    }

    /// Sets the token.
    pub fn set_token(&mut self, token: String)
        ensures
            final(self)@ == (TFAState { token: Some(token@), ..old(self)@ }),
    {
        self.token = Some(token);
    }

    /// How many times the token has been handed out.
    pub fn token_version(&self) -> (version: TokenVersion)
        ensures
            version == self@.token_version,
    {
        self.token_version
    }

    /// The times at which a code was asked for, oldest first.
    pub fn log(&self) -> (log: &Vec<u64>)
        ensures
            log@ == self@.log,
    {
        &self.log
    }

    /// Forgets the token.
    fn clear_token(&mut self)
        ensures
            final(self)@ == old(self)@.without_token(),
    {
        self.token = None;
        self.token_version = TokenVersion::Unissued;
    }

    /// Starts the log anew.
    fn restart(&mut self)
        ensures
            final(self)@ == (TFAState {
                log: Seq::<u64>::empty(),
                ..old(self)@.without_token()
            }),
    {
        self.log.clear();
        self.token = None;
        self.token_version = TokenVersion::Unissued;
    }

    /// Records a request at `now` that was answered with `code`.
    fn ask_again(&mut self, now: u64, code: u32)
        ensures
            final(self)@ == old(self)@.asked_again(now, code),
    {
        self.log.push(now);
        self.code = code;
    }

    /// Hands the token out once more, with `fresh` as the token if none was
    /// issued yet.  Returns a copy of the token.
    fn redeem(&mut self, fresh: String) -> (token: String)
        requires
            old(self)@.wf(),
            old(self)@.token_version.successor() is Some,
        ensures
            final(self)@ == old(self)@.redeemed(fresh@),
            final(self)@.wf(),
            Some(token@) == final(self)@.token,
    {
        match self.token_version.next_version() {
            Ok(token_version) => {
                if token_version == TokenVersion::V1 {
                    self.token = Some(fresh);
                }
            },
            Err(_) => {},
        }
        match &self.token {
            Some(token) => token.clone(),
            None => String::new(),
        }
    }
}

/// The entries of the engine, by key.
pub struct TFAStorage {
    storage: Table<TFAValue>,
}

impl View for TFAStorage {
    type V = Map<Seq<char>, TFAState>;

    closed spec fn view(&self) -> Map<Seq<char>, TFAState> {
        self.storage@.map_values(|value: TFAValue| value@)
    }
}

/// What the engine answers, and what it holds afterwards, when `key` asks for
/// a code at `now` and `code` is drawn.
///
/// A key that has no entry gets one.  A key that asked too often is turned
/// down until `KEY_TIMEOUT` seconds have passed since it first asked, and is
/// told how many seconds are left; after that its entry starts anew.  Any
/// other key has the request logged and its code replaced.
pub open spec fn registered(
    before: Map<Seq<char>, TFAState>,
    key: Seq<char>,
    now: u64,
    code: u32,
    after: Map<Seq<char>, TFAState>,
    response: TFAResponse,
) -> bool {
    if !before.contains_key(key) {
        &&& response == TFAResponse::Registered(code)
        &&& after == before.insert(key, TFAState::fresh(now, code))
    } else if before[key].too_many_requests() && before[key].elapsed_since_creation(now)
        < KEY_TIMEOUT {
        &&& response == TFAResponse::Error(
            TFAError::TooManyRegisterRequests(
                (KEY_TIMEOUT - before[key].elapsed_since_creation(now)) as u64,
            ),
        )
        &&& after == before
    } else if before[key].too_many_requests() {
        &&& response == TFAResponse::Registered(code)
        &&& after == before.insert(
            key,
            TFAState { log: seq![now], code, ..before[key].without_token() },
        )
    } else {
        &&& response == TFAResponse::Registered(code)
        &&& after == before.insert(key, before[key].asked_again(now, code))
    }
}

/// What the engine answers, and what it holds afterwards, when `code` is
/// offered for `key` at `now` and `fresh` is drawn as a token.
///
/// The request is turned down if the key has no entry, if the code is not
/// the entry's, if the key asked for codes too often, if the code is too
/// old, or if the token was handed out five times.  Otherwise the token is
/// handed out: `fresh` the first time, the same token after that.
pub open spec fn verified(
    before: Map<Seq<char>, TFAState>,
    key: Seq<char>,
    code: u32,
    now: u64,
    fresh: Seq<char>,
    after: Map<Seq<char>, TFAState>,
    response: TFAResponse,
) -> bool {
    if !before.contains_key(key) {
        response == TFAResponse::Error(TFAError::NotFound) && after == before
    } else if before[key].code != code {
        response == TFAResponse::Error(TFAError::InvalidCode) && after == before
    } else if before[key].too_many_requests() {
        response == TFAResponse::Error(TFAError::TooManyRegisterRequests(KEY_TIMEOUT)) && after
            == before
    } else if before[key].code_expired(now) {
        response == TFAResponse::Error(TFAError::CodeExpired) && after == before
    } else if before[key].token_version.successor() is None {
        response == TFAResponse::Error(TFAError::TooManyGetTokenRequests) && after == before
    } else {
        &&& response matches TFAResponse::Token(token)
        &&& Some(token@) == before[key].redeemed(fresh).token
        &&& after == before.insert(key, before[key].redeemed(fresh))
    }
}

/// What the engine holds after the entries that are older than `KEY_TIMEOUT`
/// seconds at `now` are dropped and the tokens of expired codes forgotten.
pub open spec fn flushed(before: Map<Seq<char>, TFAState>, now: u64) -> Map<Seq<char>, TFAState> {
    Map::new(
        |key: Seq<char>|
            before.contains_key(key) && before[key].elapsed_since_creation(now) <= KEY_TIMEOUT,
        |key: Seq<char>| before[key].flushed(now),
    )
}

/// What the engine answers to `request` at `now`, and what it holds
/// afterwards, for some code below `CODE_LIMIT` or some token of
/// `TOKEN_LENGTH` characters that is drawn.
pub open spec fn handled(
    before: Map<Seq<char>, TFAState>,
    request: TFARequest,
    now: u64,
    after: Map<Seq<char>, TFAState>,
    response: TFAResponse,
) -> bool {
    match request {
        TFARequest::Register(key) => exists|code: u32|
            code < CODE_LIMIT && #[trigger] registered(before, key@, now, code, after, response),
        TFARequest::Deregister(key) => response is Deregistered && after == before.remove(key@),
        TFARequest::VerifyAndIssueToken(key, code) => exists|fresh: Seq<char>|
            fresh.len() == TOKEN_LENGTH && #[trigger] verified(
                before,
                key@,
                code,
                now,
                fresh,
                after,
                response,
            ),
    }
}

impl TFAStorage {
    /// Well-formedness: every entry is well-formed.
    pub closed spec fn wf(&self) -> bool {
        &&& self.storage.wf()
        &&& forall|key: Seq<char>| #[trigger]
            self.storage@.contains_key(key) ==> self.storage@[key]@.wf()
    }

    /// Every entry of a well-formed engine is well-formed.
    pub proof fn lemma_entries_wf(&self)
        requires
            self.wf(),
        ensures
            forall|key: Seq<char>| #[trigger] self@.contains_key(key) ==> self@[key].wf(),
    {
    }

    /// An engine without entries.
    pub fn new() -> (engine: Self)
        ensures
            engine.wf(),
            engine@ == Map::<Seq<char>, TFAState>::empty(),
    {
        let engine = TFAStorage { storage: Table::new() };
        assert(engine@ =~= Map::<Seq<char>, TFAState>::empty());
        engine
    }

    /// The number of entries.
    pub fn len(&self) -> (n: usize)
        requires
            self.wf(),
        ensures
            n == self@.dom().len(),
    {
        assert(self@.dom() =~= self.storage@.dom());
        self.storage.len()
    }

    /// The entry of `key`, if there is one.
    pub fn get(&self, key: &TFAKey) -> (value: Option<&TFAValue>)
        requires
            self.wf(),
        ensures
            value is Some == self@.contains_key(key@),
            value matches Some(held) ==> held@ == self@[key@] && held@.wf(),
    {
        self.storage.get(&key.0)
    }

    /// Answers a request: a request for a code, a request to drop an entry,
    /// or a code to redeem.  Draws the code or the token it may need.
    pub fn handle(&mut self, request: TFARequest, now: u64) -> (response: TFAResponse)
        requires
            old(self).wf(),
        ensures
            final(self).wf(),
            handled(old(self)@, request, now, final(self)@, response),
    {
        match request {
            TFARequest::Register(key) => self.register(key, now),
            TFARequest::Deregister(key) => self.deregister(key),
            TFARequest::VerifyAndIssueToken(key, tfa_code) => self.verify_and_issue_token(
                key,
                tfa_code,
                now,
            ),
        }
    }

    /// One turn of the engine: answers `request`, if there is one, and then
    /// drops what is too old at `now`.
    pub fn step(&mut self, request: Option<TFARequest>, now: u64) -> (response: Option<
        TFAResponse,
    >)
        requires
            old(self).wf(),
        ensures
            final(self).wf(),
            match request {
                Some(asked) => response is Some && exists|middle: Map<Seq<char>, TFAState>|
                    #[trigger] handled(old(self)@, asked, now, middle, response->Some_0)
                        && final(self)@ == flushed(middle, now),
                None => response is None && final(self)@ == flushed(old(self)@, now),
            },
    {
        let response = match request {
            Some(request) => Some(self.handle(request, now)),
            None => None,
        };
        let ghost middle = self@;
        self.flush_expired_keys(now);
        proof {
            if request is Some {
                assert(handled(old(self)@, request->Some_0, now, middle, response->Some_0));
            }
        }
        response
    }

    /// Issues a code, drawn at random, for `key` at `now`.
    pub fn register(&mut self, key: TFAKey, now: u64) -> (response: TFAResponse)
        requires
            old(self).wf(),
        ensures
            final(self).wf(),
            exists|code: u32|
                code < CODE_LIMIT && #[trigger] registered(
                    old(self)@,
                    key@,
                    now,
                    code,
                    final(self)@,
                    response,
                ),
    {
        let code = random_below(CODE_LIMIT);
        self.register_with(key, now, code)
    }

    /// Issues the code `code` for `key` at `now`.
    pub fn register_with(&mut self, key: TFAKey, now: u64, code: u32) -> (response: TFAResponse)
        requires
            old(self).wf(),
        ensures
            final(self).wf(),
            registered(old(self)@, key@, now, code, final(self)@, response),
    {
        let ghost before = self@;
        match self.storage.remove(&key.0) {
            Some(mut value) => {
                assert(value@ == before[key@]);
                if value.too_many_register_requests() {
                    let remaining_cooldown = KEY_TIMEOUT.saturating_sub(
                        value.time_elapsed_since_creation(now),
                    );
                    if remaining_cooldown != 0 {
                        self.storage.insert(key.0, value);
                        assert(self@ =~= before);
                        return TFAResponse::Error(
                            TFAError::TooManyRegisterRequests(remaining_cooldown),
                        );
                    }
                    value.restart();
                }
                value.ask_again(now, code);
                assert(value@.log =~= if before[key@].too_many_requests() {
                    seq![now]
                } else {
                    before[key@].log.push(now)
                });
                self.storage.insert(key.0, value);
                assert(self@ =~= before.insert(key@, value@));
                TFAResponse::Registered(code)
            },
            None => {
                let value = TFAValue::with_code(now, code);
                self.storage.insert(key.0, value);
                assert(self@ =~= before.insert(key@, TFAState::fresh(now, code)));
                TFAResponse::Registered(code)
            },
        }
    }

    /// Drops the entry of `key`, if there is one.
    pub fn deregister(&mut self, key: TFAKey) -> (response: TFAResponse)
        requires
            old(self).wf(),
        ensures
            final(self).wf(),
            response is Deregistered,
            final(self)@ == old(self)@.remove(key@),
    {
        self.storage.remove(&key.0);
        assert(self@ =~= old(self)@.remove(key@));
        TFAResponse::Deregistered
    }

    /// Redeems `tfa_code` for the token of `key` at `now`; the token, if one
    /// has to be issued, is drawn at random.
    pub fn verify_and_issue_token(&mut self, key: TFAKey, tfa_code: u32, now: u64) -> (response:
        TFAResponse)
        requires
            old(self).wf(),
        ensures
            final(self).wf(),
            exists|fresh: Seq<char>|
                fresh.len() == TOKEN_LENGTH && #[trigger] verified(
                    old(self)@,
                    key@,
                    tfa_code,
                    now,
                    fresh,
                    final(self)@,
                    response,
                ),
    {
        let fresh = random_token();
        let ghost drawn = fresh@;
        let response = self.verify_with(key, tfa_code, now, fresh);
        assert(verified(old(self)@, key@, tfa_code, now, drawn, self@, response));
        response
    }

    /// Redeems `tfa_code` for the token of `key` at `now`, with `fresh` as
    /// the token if one has to be issued.
    pub fn verify_with(&mut self, key: TFAKey, tfa_code: u32, now: u64, fresh: String) -> (response:
        TFAResponse)
        requires
            old(self).wf(),
        ensures
            final(self).wf(),
            verified(old(self)@, key@, tfa_code, now, fresh@, final(self)@, response),
    {
        let ghost before = self@;
        let refusal = match self.storage.get(&key.0) {
            Some(value) => {
                if value.code() != tfa_code {
                    Some(TFAError::InvalidCode)
                } else if value.too_many_register_requests() {
                    Some(TFAError::TooManyRegisterRequests(KEY_TIMEOUT))
                } else if value.is_code_expired(now) {
                    Some(TFAError::CodeExpired)
                } else {
                    match value.token_version() {
                        TokenVersion::V5 => Some(TFAError::TooManyGetTokenRequests),
                        _ => None,
                    }
                }
            },
            None => Some(TFAError::NotFound),
        };
        match refusal {
            Some(error) => TFAResponse::Error(error),
            None => {
                match self.storage.remove(&key.0) {
                    Some(mut value) => {
                        let token = value.redeem(fresh);
                        self.storage.insert(key.0, value);
                        assert(self@ =~= before.insert(key@, before[key@].redeemed(fresh@)));
                        TFAResponse::Token(token)
                    },
                    None => TFAResponse::Error(TFAError::NotFound),
                }
            },
        }
    }

    /// Drops the entries whose first request is more than `KEY_TIMEOUT`
    /// seconds old at `now`, and forgets the token of every entry that stays
    /// and whose code has expired.
    pub fn flush_expired_keys(&mut self, now: u64)
        requires
            old(self).wf(),
        ensures
            final(self).wf(),
            final(self)@ == flushed(old(self)@, now),
    {
        let ghost before = self@;
        let mut kept: Table<TFAValue> = Table::new();
        loop
            invariant
                self.wf(),
                kept.wf(),
                forall|key: Seq<char>| #[trigger]
                    kept@.contains_key(key) ==> kept@[key]@.wf(),
                forall|key: Seq<char>| #[trigger]
                    self@.contains_key(key) ==> before.contains_key(key) && self@[key]
                        == before[key] && !kept@.contains_key(key),
                forall|key: Seq<char>| #[trigger]
                    kept@.contains_key(key) ==> flushed(before, now).contains_key(key) && kept@[key]@
                        == flushed(before, now)[key],
                forall|key: Seq<char>| #[trigger]
                    flushed(before, now).contains_key(key) ==> kept@.contains_key(key)
                        || self@.contains_key(key),
            ensures
                self.storage@ == Map::<Seq<char>, TFAValue>::empty(),
            decreases self.storage.keys().len(),
        {
            let ghost current = self@;
            let ghost held = kept@;
            match self.storage.pop() {
                Some((key, mut value)) => {
                    let ghost entry = value@;
                    assert(self@ =~= current.remove(key@));
                    assert(current.contains_key(key@) && current[key@] == entry);
                    if value.time_elapsed_since_creation(now) <= KEY_TIMEOUT {
                        if value.is_code_expired(now) {
                            value.clear_token();
                        }
                        assert(value@ == entry.flushed(now));
                        kept.insert(key, value);
                        assert(kept@ =~= held.insert(key@, value));
                    }
                    assert forall|other: Seq<char>| #[trigger]
                        self@.contains_key(other) implies before.contains_key(other)
                        && self@[other] == before[other] && !kept@.contains_key(other) by {
                        assert(current.contains_key(other));
                        assert(other != key@);
                    }
                    assert forall|other: Seq<char>| #[trigger]
                        kept@.contains_key(other) implies flushed(before, now).contains_key(other)
                        && kept@[other]@ == flushed(before, now)[other] by {
                        if other != key@ {
                            assert(held.contains_key(other));
                        }
                    }
                    assert forall|other: Seq<char>| #[trigger]
                        flushed(before, now).contains_key(other) implies kept@.contains_key(other)
                        || self@.contains_key(other) by {
                        if !held.contains_key(other) && other != key@ {
                            assert(current.contains_key(other));
                        }
                    }
                },
                None => {
                    proof {
                        self.storage.lemma_domain();
                        assert(self.storage@.dom().len() == 0);
                        assert(self.storage@ =~= Map::<Seq<char>, TFAValue>::empty());
                    }
                    break ;
                },
            }
        }
        self.storage = kept;
        assert(self@ =~= flushed(before, now));
    }
}

} // verus!
