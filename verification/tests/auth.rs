use youtube_dl_server::auth::auth_request_state::{AuthError, RequestOutcome};
use youtube_dl_server::auth::user::{token_characters, API_TOKEN_LENGTH};
use youtube_dl_server::auth::{AuthFairing, AuthRequestState, AuthSystem, User};
use youtube_dl_server::database::{DatabaseError, ServerDatabase};

const SESSION: u128 = 0x67e5_5044_10b1_426f_9247_bb68_0e5f_e0c8;
const SESSION_HEADER: &str = "\"67e55044-10b1-426f-9247-bb680e5fe0c8\"";

fn db() -> ServerDatabase {
    let users = vec![User::new(5, "admin".to_string(), "secret".to_string())];
    let mut db = ServerDatabase::open(vec![], vec![], users, vec![]).unwrap();
    db.new_session_with("secret", SESSION).unwrap();
    db
}

fn headers(items: &[&str]) -> Vec<String> {
    items.iter().map(|s| s.to_string()).collect()
}

fn check(api: &[&str], session: &[&str]) -> AuthRequestState {
    AuthFairing::on_request_inner(&db(), &headers(api), &headers(session))
}

#[test]
fn a_request_with_both_tokens_is_authorized() {
    match check(&["secret"], &[SESSION_HEADER]) {
        AuthRequestState::Authorized(user) => {
            assert_eq!(user.get_user_id(), 5);
            assert_eq!(user.get_api_token(), "secret");
        }
        _ => panic!("the request carries valid tokens"),
    }
    assert_eq!(check(&["secret"], &[SESSION_HEADER]).from_request(), RequestOutcome::Success);
}

#[test]
fn a_request_without_tokens_is_unauthenticated() {
    let state = check(&[], &[]);
    assert!(matches!(state, AuthRequestState::Unauthenticated));
    assert_eq!(state.from_request(), RequestOutcome::Forward);
    assert!(!AuthFairing::authorization_provided(&headers(&[]), &headers(&[])));
    assert!(AuthFairing::authorization_provided(&headers(&["a"]), &headers(&[])));
    assert!(AuthFairing::authorization_provided(&headers(&[]), &headers(&["b"])));
}

#[test]
fn anything_else_is_refused() {
    let cases: Vec<(Vec<&str>, Vec<&str>, AuthError)> = vec![
        (vec![], vec![SESSION_HEADER], AuthError::ApiTokenHeaderCount),
        (vec!["secret", "secret"], vec![SESSION_HEADER], AuthError::ApiTokenHeaderCount),
        (vec!["secret"], vec![], AuthError::SessionTokenHeaderCount),
        (vec!["secret"], vec![SESSION_HEADER, SESSION_HEADER], AuthError::SessionTokenHeaderCount),
        (vec!["secret"], vec!["67e55044-10b1-426f-9247-bb680e5fe0c8"], AuthError::MalformedSessionToken),
        (vec!["secret"], vec!["\"not a uuid\""], AuthError::MalformedSessionToken),
        (vec!["secret"], vec![""], AuthError::MalformedSessionToken),
        (vec!["wrong"], vec![SESSION_HEADER], AuthError::InvalidSession),
        (vec!["secret"], vec!["\"67e55044-10b1-426f-9247-bb680e5fe0c9\""], AuthError::InvalidSession),
    ];
    for (api, session, expected) in cases {
        let state = check(&api, &session);
        assert_eq!(state.from_request(), RequestOutcome::Unauthorized);
        match state {
            AuthRequestState::Error(e) => assert_eq!(e, expected),
            _ => panic!("the request must be refused"),
        }
    }
}

#[test]
fn a_session_token_is_a_uuid_in_a_json_string() {
    assert_eq!(AuthFairing::validate_session_token_headers(&headers(&[SESSION_HEADER])), Ok(SESSION));
    assert_eq!(
        AuthFairing::validate_session_token_headers(&headers(&[
            "\"67E55044-10B1-426F-9247-BB680E5FE0C8\""
        ])),
        Ok(SESSION)
    );
    assert_eq!(
        AuthFairing::validate_session_token_headers(&headers(&[
            "\"00000000-0000-0000-0000-000000000001\""
        ])),
        Ok(1)
    );
    assert_eq!(
        AuthFairing::validate_session_token_headers(&headers(&["1"])),
        Err(AuthError::MalformedSessionToken)
    );
    assert_eq!(
        AuthFairing::validate_api_token_headers(&headers(&["secret"])),
        Ok("secret")
    );
    assert_eq!(
        AuthFairing::validate_api_token_headers(&headers(&[])),
        Err(AuthError::ApiTokenHeaderCount)
    );
}

#[test]
fn tokens_are_resolved_against_the_store() {
    let db = db();
    assert!(matches!(
        AuthFairing::resolve_tokens(&db, "secret", SESSION),
        AuthRequestState::Authorized(_)
    ));
    assert!(matches!(
        AuthFairing::resolve_tokens(&db, "secret", 1),
        AuthRequestState::Error(AuthError::InvalidSession)
    ));
}

#[test]
fn errors_have_messages() {
    assert_eq!(AuthError::ApiTokenHeaderCount.message(), "Expected exactly 1 'api-token' header.");
    assert_eq!(
        AuthError::SessionTokenHeaderCount.message(),
        "Expected exactly 1 'session-token' header."
    );
    assert_eq!(AuthError::InvalidSession.message(), "Invalid session.");
    assert_eq!(
        AuthError::MalformedSessionToken.message(),
        "Expected 'session-token' to hold a UUID."
    );
}

#[test]
fn sessions_open_and_close() {
    let mut db = db();
    assert_eq!(
        AuthSystem::attempt_new_session(&mut db, "wrong"),
        Err(DatabaseError::InvalidApiToken)
    );
    let token = AuthSystem::attempt_new_session(&mut db, "secret").unwrap();
    assert!(db.validate_session("secret", token).is_some());
    assert_eq!(db.sessions().len(), 2);
    AuthSystem::expire_all_sessions(&mut db);
    assert!(db.sessions().is_empty());
    assert!(matches!(
        AuthFairing::on_request_inner(&db, &headers(&["secret"]), &headers(&[SESSION_HEADER])),
        AuthRequestState::Error(AuthError::InvalidSession)
    ));
}

#[test]
fn api_tokens_are_32_letters_and_digits() {
    let alphabet = token_characters();
    assert_eq!(
        alphabet,
        b"abcdefghijklmnopqrstuvwxyzABCDEFGHIJKLMNOPQRSTUVWXYZ0123456789".to_vec()
    );
    let db = ServerDatabase::open(vec![], vec![], vec![], vec![]).unwrap();
    let other = ServerDatabase::open(vec![], vec![], vec![], vec![]).unwrap();
    let token = db.users()[0].get_api_token();
    assert_eq!(token.len(), API_TOKEN_LENGTH);
    assert!(token.bytes().all(|b| alphabet.contains(&b)));
    assert_ne!(token, other.users()[0].get_api_token());
    assert_eq!(User::admin_user_name(), "admin");
    let nobody = User::default();
    assert_eq!(nobody.get_user_id(), 0);
    assert_eq!(nobody.get_name(), "");
}
