use mangonel::api::{
    deregister_answer, deregister_reply, login_answer, login_reply, register_answer,
    register_reply, verify_answer, verify_reply, ApiError, CoolDown, DeregisterSuccess,
    RegisterSuccess, Token,
};
use mangonel::auth::{login, register, AuthError, Users};
use mangonel::tfa::{
    TFAError, TFAKey, TFARequest, TFAResponse, TFAStorage, TFAValue, TokenVersion, CODE_LIMIT,
    KEY_TIMEOUT, REQUEST_LIMIT, TFA_CODE_TIMEOUT,
};

fn key(name: &str) -> TFAKey {
    TFAKey::from(name.to_string())
}

fn registered(response: TFAResponse) -> u32 {
    match response {
        TFAResponse::Registered(code) => code,
        other => panic!("{:?}", other),
    }
}

fn token(response: TFAResponse) -> String {
    match response {
        TFAResponse::Token(token) => token,
        other => panic!("{:?}", other),
    }
}

fn refused(response: TFAResponse) -> TFAError {
    match response {
        TFAResponse::Error(error) => error,
        other => panic!("{:?}", other),
    }
}

#[test]
fn constants_of_the_engine() {
    assert_eq!(TFA_CODE_TIMEOUT, 90);
    assert_eq!(KEY_TIMEOUT, 600);
    assert_eq!(REQUEST_LIMIT, 5);
    assert_eq!(CODE_LIMIT, 1_000_000);
}

#[test]
fn a_value_knows_its_age() {
    let value = TFAValue::with_code(1000, 123456);
    assert_eq!(value.code(), 123456);
    assert_eq!(value.token(), None);
    assert_eq!(value.token_version(), TokenVersion::Unissued);
    assert_eq!(value.log(), &vec![1000]);
    assert!(!value.too_many_register_requests());
    assert_eq!(value.time_elapsed_since_creation(1000), 0);
    assert_eq!(value.time_elapsed_since_creation(1600), 600);
    assert_eq!(value.time_elapsed_sice_last_request(1090), 90);
    assert_eq!(value.time_elapsed_sice_last_request(999), 0);
    assert!(!value.is_code_expired(1090));
    assert!(value.is_code_expired(1091));
    let mut value = value;
    value.set_token("abc".to_string());
    assert_eq!(value.token(), Some(&"abc".to_string()));
}

#[test]
fn drawn_codes_have_six_digits() {
    for now in 0..200 {
        let value = TFAValue::new(now);
        assert!(value.code() < 1_000_000);
        assert_eq!(value.log(), &vec![now]);
    }
    let mut engine = TFAStorage::new();
    let mut seen = std::collections::HashSet::new();
    for i in 0..50u64 {
        let code = registered(engine.register(key(&format!("user{}", i)), i));
        assert!(code < 1_000_000);
        seen.insert(code);
    }
    assert!(seen.len() > 1);
    assert_eq!(engine.len(), 50);
}

#[test]
fn token_versions_step_to_the_fifth() {
    let mut version = TokenVersion::default();
    assert_eq!(version, TokenVersion::Unissued);
    assert_eq!(version.next_version(), Ok(TokenVersion::V1));
    assert_eq!(version.next_version(), Ok(TokenVersion::V2));
    assert_eq!(version.next_version(), Ok(TokenVersion::V3));
    assert_eq!(version.next_version(), Ok(TokenVersion::V4));
    assert_eq!(version.next_version(), Ok(TokenVersion::V5));
    assert_eq!(version.next_version(), Err(()));
    assert_eq!(version, TokenVersion::V5);
}

#[test]
fn register_logs_requests_and_limits_them() {
    let mut engine = TFAStorage::new();
    let alice = key("alice@example.com");
    for i in 0..6u64 {
        let response = engine.register_with(alice.clone(), 100 + i, 1000 + i as u32);
        assert_eq!(registered(response), 1000 + i as u32);
    }
    let value = engine.get(&alice).unwrap();
    assert_eq!(value.log(), &vec![100, 101, 102, 103, 104, 105]);
    assert_eq!(value.code(), 1005);
    assert!(value.too_many_register_requests());
    let response = engine.register_with(alice.clone(), 110, 7);
    assert_eq!(refused(response), TFAError::TooManyRegisterRequests(590));
    let response = engine.register_with(alice.clone(), 699, 7);
    assert_eq!(refused(response), TFAError::TooManyRegisterRequests(1));
    assert_eq!(engine.get(&alice).unwrap().code(), 1005);
    let response = engine.register_with(alice.clone(), 700, 7);
    assert_eq!(registered(response), 7);
    let value = engine.get(&alice).unwrap();
    assert_eq!(value.log(), &vec![700]);
    assert_eq!(value.token(), None);
    assert_eq!(value.token_version(), TokenVersion::Unissued);
    assert_eq!(engine.len(), 1);
}

#[test]
fn verify_issues_one_token_five_times() {
    let mut engine = TFAStorage::new();
    let bob = key("bob@example.com");
    assert_eq!(
        refused(engine.verify_with(bob.clone(), 1, 0, "t".to_string())),
        TFAError::NotFound
    );
    registered(engine.register_with(bob.clone(), 10, 424242));
    assert_eq!(
        refused(engine.verify_with(bob.clone(), 424243, 20, "t".to_string())),
        TFAError::InvalidCode
    );
    assert_eq!(
        refused(engine.verify_with(bob.clone(), 424242, 101, "t".to_string())),
        TFAError::CodeExpired
    );
    assert_eq!(token(engine.verify_with(bob.clone(), 424242, 100, "first".to_string())), "first");
    for other in ["second", "third", "fourth", "fifth"] {
        assert_eq!(token(engine.verify_with(bob.clone(), 424242, 50, other.to_string())), "first");
    }
    assert_eq!(engine.get(&bob).unwrap().token_version(), TokenVersion::V5);
    assert_eq!(
        refused(engine.verify_with(bob.clone(), 424242, 50, "sixth".to_string())),
        TFAError::TooManyGetTokenRequests
    );
    for i in 0..5u64 {
        registered(engine.register_with(bob.clone(), 50 + i, 5));
    }
    assert_eq!(
        refused(engine.verify_with(bob.clone(), 5, 60, "t".to_string())),
        TFAError::TooManyRegisterRequests(600)
    );
}

#[test]
fn drawn_tokens_are_uuids() {
    let mut engine = TFAStorage::new();
    let carol = key("carol@example.com");
    let code = registered(engine.register(carol.clone(), 0));
    let first = token(engine.verify_and_issue_token(carol.clone(), code, 1));
    assert_eq!(first.len(), 36);
    assert_eq!(first.matches('-').count(), 4);
    assert_eq!(first.as_bytes()[14], b'4');
    let second = token(engine.verify_and_issue_token(carol.clone(), code, 2));
    assert_eq!(first, second);
    let dave = key("dave@example.com");
    let code = registered(engine.register(dave.clone(), 0));
    let other = token(engine.verify_and_issue_token(dave, code, 1));
    assert_ne!(first, other);
}

#[test]
fn flush_drops_old_keys_and_stale_tokens() {
    let mut engine = TFAStorage::new();
    registered(engine.register_with(key("old"), 0, 1));
    registered(engine.register_with(key("stale"), 500, 2));
    registered(engine.register_with(key("new"), 1000, 3));
    assert_eq!(token(engine.verify_with(key("stale"), 2, 510, "s".to_string())), "s");
    assert_eq!(token(engine.verify_with(key("new"), 3, 1001, "n".to_string())), "n");
    engine.flush_expired_keys(600);
    assert_eq!(engine.len(), 3);
    engine.flush_expired_keys(1050);
    assert_eq!(engine.len(), 2);
    assert!(engine.get(&key("old")).is_none());
    let stale = engine.get(&key("stale")).unwrap();
    assert_eq!(stale.token(), None);
    assert_eq!(stale.token_version(), TokenVersion::Unissued);
    let new = engine.get(&key("new")).unwrap();
    assert_eq!(new.token(), Some(&"n".to_string()));
    assert_eq!(new.token_version(), TokenVersion::V1);
    engine.flush_expired_keys(1101);
    assert_eq!(engine.len(), 1);
    engine.flush_expired_keys(1601);
    assert_eq!(engine.len(), 0);
}

#[test]
fn requests_are_handled_and_then_the_engine_is_flushed() {
    let mut engine = TFAStorage::new();
    let code = registered(engine.handle(TFARequest::Register(key("erin")), 5));
    assert!(matches!(
        engine.handle(TFARequest::VerifyAndIssueToken(key("erin"), code, ), 6),
        TFAResponse::Token(_)
    ));
    assert!(matches!(
        engine.handle(TFARequest::Deregister(key("erin")), 7),
        TFAResponse::Deregistered
    ));
    assert_eq!(engine.len(), 0);
    assert!(matches!(
        engine.handle(TFARequest::Deregister(key("nobody")), 7),
        TFAResponse::Deregistered
    ));
    assert!(engine.step(None, 8).is_none());
    assert!(matches!(
        engine.step(Some(TFARequest::Register(key("frank"))), 9),
        Some(TFAResponse::Registered(_))
    ));
    assert_eq!(engine.len(), 1);
    assert!(engine.step(None, 610).is_none());
    assert_eq!(engine.len(), 0);
}

#[test]
fn accounts() {
    let mut users = Users::new();
    assert_eq!(login(&users, "a@b.c", "pw"), Err(AuthError::UserNotFound));
    assert_eq!(register(&mut users, "a@b.c", "pw"), Ok(()));
    assert_eq!(register(&mut users, "a@b.c", "other"), Err(AuthError::UserAlreadyExists));
    assert_eq!(register(&mut users, "d@e.f", "pw2"), Ok(()));
    assert_eq!(users.len(), 2);
    assert_eq!(login(&users, "a@b.c", "pw"), Ok("a@b.c".to_string()));
    assert_eq!(login(&users, "a@b.c", "other"), Err(AuthError::InvalidCredentials));
    assert_eq!(login(&users, "d@e.f", "pw2"), Ok("d@e.f".to_string()));
    assert_eq!(login(&users, "x@y.z", "pw"), Err(AuthError::UserNotFound));
    let mut all: Vec<(String, String)> =
        users.drain().into_iter().map(|user| (user.email, user.password)).collect();
    all.sort();
    assert_eq!(
        all,
        vec![("a@b.c".to_string(), "pw".to_string()), ("d@e.f".to_string(), "pw2".to_string())]
    );
    assert_eq!(users.len(), 0);
}

#[test]
fn errors_become_answers() {
    let unauthorized = |error: ApiError| match error {
        ApiError::Unauthorized(text) => text,
        other => panic!("{:?}", other),
    };
    assert_eq!(
        unauthorized(ApiError::from_auth(AuthError::InvalidCredentials)),
        Some("Invalid credentials".to_string())
    );
    assert_eq!(
        unauthorized(ApiError::from_auth(AuthError::UserAlreadyExists)),
        Some("User already exists".to_string())
    );
    assert_eq!(
        unauthorized(ApiError::from_auth(AuthError::UserLocked)),
        Some("Account locked".to_string())
    );
    assert!(matches!(ApiError::from_auth(AuthError::UserNotFound), ApiError::NotFound));
    assert!(matches!(ApiError::from_auth(AuthError::UserFileNotFound), ApiError::Internal));
    assert_eq!(unauthorized(ApiError::from_tfa(TFAError::InvalidCode)), None);
    assert_eq!(
        unauthorized(ApiError::from_tfa(TFAError::CodeExpired)),
        Some("Code expired".to_string())
    );
    assert!(matches!(
        ApiError::from_tfa(TFAError::TooManyGetTokenRequests),
        ApiError::TooManyGetTokenRequests
    ));
    assert!(matches!(
        ApiError::from_tfa(TFAError::TooManyRegisterRequests(590)),
        ApiError::TooManyRegisterRequests(Some(590))
    ));
    assert!(matches!(
        ApiError::from_tfa(TFAError::TooManyRegisterRequests(65536 + 7)),
        ApiError::TooManyRegisterRequests(Some(7))
    ));
    assert!(matches!(ApiError::from_tfa(TFAError::NotFound), ApiError::NotFound));
    assert!(matches!(ApiError::from_tfa(TFAError::Error("x".to_string())), ApiError::Internal));

    assert_eq!(ApiError::Unauthorized(None).status(), 401);
    assert_eq!(ApiError::TooManyRegisterRequests(Some(3)).status(), 429);
    assert_eq!(ApiError::TooManyGetTokenRequests.status(), 429);
    assert_eq!(ApiError::NotFound.status(), 404);
    assert_eq!(ApiError::Internal.status(), 500);
    assert_eq!(
        ApiError::TooManyRegisterRequests(Some(3)).cooldown_body(),
        Some(RegisterSuccess { cooldown: Some(3) })
    );
    assert_eq!(
        ApiError::TooManyRegisterRequests(None).cooldown_body(),
        Some(RegisterSuccess { cooldown: None })
    );
    assert_eq!(ApiError::NotFound.cooldown_body(), None);
}

#[test]
fn engine_answers_become_replies() {
    assert_eq!(
        register_reply(Some(TFAResponse::Registered(42))).ok(),
        Some((RegisterSuccess { cooldown: None }, 42))
    );
    assert!(matches!(
        register_reply(Some(TFAResponse::Error(TFAError::TooManyRegisterRequests(12)))),
        Err(ApiError::TooManyRegisterRequests(Some(12)))
    ));
    assert!(matches!(register_reply(Some(TFAResponse::Deregistered)), Err(ApiError::Internal)));
    assert!(matches!(register_reply(None), Err(ApiError::Internal)));
    assert_eq!(deregister_reply(Some(TFAResponse::Deregistered)).ok(), Some(DeregisterSuccess));
    assert!(matches!(
        deregister_reply(Some(TFAResponse::Registered(1))),
        Err(ApiError::Internal)
    ));
    assert!(matches!(deregister_reply(None), Err(ApiError::Internal)));
    assert_eq!(
        verify_reply(Some(TFAResponse::Token("tok".to_string()))).ok().map(|body| body.token),
        Some("tok".to_string())
    );
    assert!(matches!(
        verify_reply(Some(TFAResponse::Error(TFAError::InvalidCode))),
        Err(ApiError::Unauthorized(None))
    ));
    assert!(matches!(verify_reply(Some(TFAResponse::Registered(1))), Err(ApiError::Internal)));
    assert!(matches!(verify_reply(None), Err(ApiError::Internal)));

    assert_eq!(
        login_reply(Ok("a@b.c".to_string()), true).ok().map(|body| body.email),
        Some("a@b.c".to_string())
    );
    assert!(matches!(login_reply(Ok("a@b.c".to_string()), false), Err(ApiError::Internal)));
    for healthy in [true, false] {
        match login_reply(Err(AuthError::UserNotFound), healthy) {
            Err(ApiError::Unauthorized(Some(text))) => assert_eq!(text, "Invalid credentials"),
            other => panic!("{:?}", other.map(|body| body.email)),
        }
    }
}

#[test]
fn bodies() {
    assert_eq!(CoolDown::new(600), CoolDown { cooldown: Some(600) });
    assert_eq!(CoolDown::default(), CoolDown { cooldown: None });
    assert_eq!(RegisterSuccess::default(), RegisterSuccess { cooldown: None });
    assert_eq!(Token::from("abc".to_string()).token, "abc");
}

#[test]
fn engine_answers_become_plain_answers() {
    assert_eq!(
        register_answer(Some(TFAResponse::Registered(42))),
        (200, CoolDown { cooldown: None }, Some(42))
    );
    assert_eq!(
        register_answer(Some(TFAResponse::Error(TFAError::TooManyRegisterRequests(590)))),
        (429, CoolDown { cooldown: Some(590) }, None)
    );
    assert_eq!(
        register_answer(Some(TFAResponse::Error(TFAError::NotFound))),
        (500, CoolDown { cooldown: None }, None)
    );
    assert_eq!(register_answer(None), (500, CoolDown { cooldown: None }, None));
    assert_eq!(
        deregister_answer(Some(TFAResponse::Deregistered)),
        (200, CoolDown { cooldown: None })
    );
    assert_eq!(deregister_answer(None), (404, CoolDown { cooldown: None }));
    assert_eq!(
        deregister_answer(Some(TFAResponse::Registered(1))),
        (404, CoolDown { cooldown: None })
    );
    let (status, body) = verify_answer(Some(TFAResponse::Token("tok".to_string())));
    assert_eq!((status, body.token.as_str()), (200, "tok"));
    let (status, body) = verify_answer(Some(TFAResponse::Error(TFAError::InvalidCode)));
    assert_eq!((status, body.token.as_str()), (500, "Error"));
    let (status, body) = verify_answer(None);
    assert_eq!((status, body.token.as_str()), (500, "Error"));

    let (status, body) = login_answer(Ok("a@b.c".to_string()), true);
    assert_eq!((status, body.status.as_str(), body.email), (200, "Ok", Some("a@b.c".to_string())));
    let (status, body) = login_answer(Ok("a@b.c".to_string()), false);
    assert_eq!((status, body.status.as_str(), body.email), (503, "Failure", None));
    let (status, body) = login_answer(Err(AuthError::InvalidCredentials), true);
    assert_eq!((status, body.status.as_str(), body.email), (401, "Failure", None));
}
