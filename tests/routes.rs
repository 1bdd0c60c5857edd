use auth_service::app_state::AppState;
use auth_service::data_stores::TwoFACode;
use auth_service::email::Email;
use auth_service::error::AuthAPIError;
use auth_service::hashmap_two_fa_code_store::HashmapTwoFACodeStore;
use auth_service::hashmap_user_store::HashmapUserStore;
use auth_service::hashset_banned_token_store::HashsetBannedTokenStore;
use auth_service::routes::{
    login, login_response, login_with, logout, signup, verify_2fa, verify_token, LoginOutcome,
    LoginRequest, LoginResponse, SignupRequest, Verify2FARequest, VerifyTokenRequest,
};
use auth_service::data_stores::LoginAttemptId;
use auth_service::token::{TokenCodec, TOKEN_TTL_SECONDS};

type State = AppState<HashmapUserStore, HashsetBannedTokenStore, HashmapTwoFACodeStore>;

const NOW: u64 = 1_700_000_000;

fn new_state() -> State {
    AppState::new(
        HashmapUserStore::default(),
        HashsetBannedTokenStore::default(),
        HashmapTwoFACodeStore::default(),
        TokenCodec::new(b"test-secret".to_vec()),
    )
}

fn signup_req(email: &str, password: &str, requires_2fa: bool) -> SignupRequest {
    SignupRequest { email: email.to_string(), password: password.to_string(), requires_2fa }
}

fn login_req(email: &str, password: &str) -> LoginRequest {
    LoginRequest { email: email.to_string(), password: password.to_string() }
}

fn token_of(outcome: Result<LoginOutcome, AuthAPIError>) -> String {
    match outcome {
        Ok(LoginOutcome::Authenticated(t)) => t,
        _ => panic!("expected a session token"),
    }
}

fn status(r: Result<impl Sized, AuthAPIError>) -> u16 {
    match r {
        Ok(_) => 200,
        Err(e) => e.status_code(),
    }
}

#[test]
fn should_return_201_if_valid_input() {
    let mut state = new_state();
    let response = signup(&mut state, signup_req("foo@example.com", "password123", true));
    assert_eq!(response.unwrap().message, "User created successfully!".to_owned());
}

#[test]
fn signup_should_return_400_if_invalid_input() {
    let mut state = new_state();
    let input = [
        signup_req("foo", "password123", true),
        signup_req("foo@example.com", "pass", true),
        signup_req("", "password1", true),
    ];
    for i in input {
        let err = signup(&mut state, i).unwrap_err();
        assert_eq!(err.status_code(), 400);
        assert_eq!(err.message(), "Invalid credentials".to_owned());
    }
}

#[test]
fn should_return_409_if_email_already_exists() {
    let mut state = new_state();
    let _ = signup(&mut state, signup_req("foo@example.com", "password123", true));
    let err = signup(&mut state, signup_req("foo@example.com", "Pxxx012345678", true)).unwrap_err();
    assert_eq!(err.status_code(), 409);
    assert_eq!(err.message(), "User already exists".to_owned());
}

#[test]
fn login_should_return_400_if_invalid_input() {
    let mut state = new_state();
    let r = login(&mut state, login_req("fooexample.com", "12345678"), NOW);
    assert_eq!(status(r), 400);
}

#[test]
fn should_return_401_if_incorrect_credentials() {
    let mut state = new_state();
    let _ = signup(&mut state, signup_req("foo@example.com", "password123", true));
    let r = login(&mut state, login_req("foo@example.com", "not-the-same"), NOW);
    assert_eq!(status(r), 401);
}

#[test]
fn should_return_200_if_valid_credentials_and_2fa_disabled() {
    let mut state = new_state();
    let r = signup(&mut state, signup_req("random@example.com", "password123", false));
    assert!(r.is_ok());
    let r = login(&mut state, login_req("random@example.com", "password123"), NOW);
    assert!(matches!(login_response(r.as_ref().unwrap()), LoginResponse::RegularAuth));
    let auth_cookie = token_of(r);
    assert!(!auth_cookie.is_empty());
}

#[test]
fn should_return_200_valid_token() {
    let mut state = new_state();
    let r = signup(&mut state, signup_req("random@example.com", "password123", false));
    assert!(r.is_ok());
    let token = token_of(login(&mut state, login_req("random@example.com", "password123"), NOW));
    let r = verify_token(&state, &VerifyTokenRequest { token }, NOW);
    assert_eq!(status(r), 200);
}

#[test]
fn verify_token_should_return_401_if_invalid_token() {
    let state = new_state();
    let r = verify_token(&state, &VerifyTokenRequest { token: "bogus".to_string() }, NOW);
    assert_eq!(status(r), 401);
}

#[test]
fn should_return_200_if_valid_jwt_cookie() {
    let mut state = new_state();
    let email = Email::parse("foo@example.com".to_string()).unwrap();
    let cookie = state.token_codec.mint(&email, NOW, 0);
    let r = logout(&mut state, Some(cookie), NOW);
    assert_eq!(status(r), 200);
}

#[test]
fn should_return_400_if_logout_called_twice_in_a_row() {
    let mut state = new_state();
    let email = Email::parse("foo@example.com".to_string()).unwrap();
    let cookie = state.token_codec.mint(&email, NOW, 0);
    let _ = logout(&mut state, Some(cookie), NOW);
    // The first logout took the cookie away, so the second comes without one.
    let r = logout(&mut state, None, NOW);
    assert_eq!(status(r), 400);
}

#[test]
fn should_return_400_if_jwt_cookie_missing() {
    let mut state = new_state();
    let r = logout(&mut state, None, NOW);
    assert_eq!(status(r), 400);
}

#[test]
fn logout_should_return_401_if_invalid_token() {
    let mut state = new_state();
    let r = logout(&mut state, Some("invalid".to_string()), NOW);
    assert_eq!(status(r), 401);
}

#[test]
fn registering_the_same_email_twice_fails_the_second_time() {
    let mut state = new_state();
    assert!(signup(&mut state, signup_req("a@x.com", "longenough1", false)).is_ok());
    assert_eq!(
        signup(&mut state, signup_req("a@x.com", "longenough2", true)).err(),
        Some(AuthAPIError::UserAlreadyExists)
    );
}

#[test]
fn login_without_second_factor_gives_a_token_for_the_account() {
    let mut state = new_state();
    signup(&mut state, signup_req("a@x.com", "longenough1", false)).unwrap();
    let token = token_of(login(&mut state, login_req("a@x.com", "longenough1"), NOW));
    let who = verify_token(&state, &VerifyTokenRequest { token }, NOW).unwrap();
    assert_eq!(who.as_ref(), "a@x.com");
}

#[test]
fn second_factor_challenge_confirms_once() {
    let mut state = new_state();
    signup(&mut state, signup_req("b@x.com", "longenough1", true)).unwrap();
    let attempt = LoginAttemptId::parse("550e8400-e29b-41d4-a716-446655440000".to_string()).unwrap();
    let code = TwoFACode::parse("042042".to_string()).unwrap();
    let outcome = login_with(&mut state, login_req("b@x.com", "longenough1"), NOW, attempt, code);
    match &outcome {
        Ok(LoginOutcome::ChallengeIssued { login_attempt_id, delivery }) => {
            assert_eq!(login_attempt_id.as_ref(), "550e8400-e29b-41d4-a716-446655440000");
            assert_eq!(delivery.recipient.as_ref(), "b@x.com");
            assert_eq!(delivery.content, "Your login code is 042042");
        }
        _ => panic!("expected a challenge"),
    }
    match login_response(outcome.as_ref().unwrap()) {
        LoginResponse::TwoFactorAuth(body) => {
            assert_eq!(body.message, "2FA required");
            assert_eq!(body.login_attempt_id, "550e8400-e29b-41d4-a716-446655440000");
        }
        LoginResponse::RegularAuth => panic!("expected a second factor"),
    }
    let confirm = || Verify2FARequest {
        email: "b@x.com".to_string(),
        login_attempt_id: "550E8400-E29B-41D4-A716-446655440000".to_string(),
        two_fa_code: "042042".to_string(),
    };
    let token = verify_2fa(&mut state, confirm(), NOW).unwrap();
    let who = verify_token(&state, &VerifyTokenRequest { token }, NOW).unwrap();
    assert_eq!(who.as_ref(), "b@x.com");
    assert_eq!(verify_2fa(&mut state, confirm(), NOW), Err(AuthAPIError::ChallengeNotFound));
}

#[test]
fn second_factor_login_with_fresh_challenge() {
    let mut state = new_state();
    signup(&mut state, signup_req("b@x.com", "longenough1", true)).unwrap();
    let outcome = login(&mut state, login_req("b@x.com", "longenough1"), NOW).unwrap();
    let (id, code) = match outcome {
        LoginOutcome::ChallengeIssued { login_attempt_id, delivery } => {
            let code = delivery.content["Your login code is ".len()..].to_string();
            (login_attempt_id.as_ref().to_string(), code)
        }
        LoginOutcome::Authenticated(_) => panic!("expected a challenge"),
    };
    assert_eq!(code.len(), 6);
    let req = Verify2FARequest { email: "b@x.com".to_string(), login_attempt_id: id, two_fa_code: code };
    assert!(verify_2fa(&mut state, req, NOW).is_ok());
}

#[test]
fn wrong_code_fails_and_consumes_the_challenge() {
    let mut state = new_state();
    signup(&mut state, signup_req("b@x.com", "longenough1", true)).unwrap();
    let attempt = LoginAttemptId::parse("550e8400-e29b-41d4-a716-446655440000".to_string()).unwrap();
    let code = TwoFACode::parse("123456".to_string()).unwrap();
    login_with(&mut state, login_req("b@x.com", "longenough1"), NOW, attempt, code).unwrap();
    let req = |code: &str| Verify2FARequest {
        email: "b@x.com".to_string(),
        login_attempt_id: "550e8400-e29b-41d4-a716-446655440000".to_string(),
        two_fa_code: code.to_string(),
    };
    assert_eq!(verify_2fa(&mut state, req("654321"), NOW), Err(AuthAPIError::ChallengeMismatch));
    assert_eq!(verify_2fa(&mut state, req("123456"), NOW), Err(AuthAPIError::ChallengeNotFound));
    assert_eq!(verify_2fa(&mut state, req("12345"), NOW), Err(AuthAPIError::InvalidCredentials));
}

#[test]
fn newer_challenge_replaces_the_older_one() {
    let mut state = new_state();
    signup(&mut state, signup_req("b@x.com", "longenough1", true)).unwrap();
    let first = LoginAttemptId::parse("550e8400-e29b-41d4-a716-446655440000".to_string()).unwrap();
    let second = LoginAttemptId::parse("6ba7b810-9dad-11d1-80b4-00c04fd430c8".to_string()).unwrap();
    let code = || TwoFACode::parse("111111".to_string()).unwrap();
    login_with(&mut state, login_req("b@x.com", "longenough1"), NOW, first, code()).unwrap();
    login_with(&mut state, login_req("b@x.com", "longenough1"), NOW, second, code()).unwrap();
    let req = Verify2FARequest {
        email: "b@x.com".to_string(),
        login_attempt_id: "550e8400-e29b-41d4-a716-446655440000".to_string(),
        two_fa_code: "111111".to_string(),
    };
    assert_eq!(verify_2fa(&mut state, req, NOW), Err(AuthAPIError::ChallengeMismatch));
}

#[test]
fn wrong_password_and_unknown_email_fail_alike() {
    let mut state = new_state();
    signup(&mut state, signup_req("a@x.com", "longenough1", false)).unwrap();
    let wrong = login(&mut state, login_req("a@x.com", "wrongpassword"), NOW).err();
    let unknown = login(&mut state, login_req("nobody@x.com", "longenough1"), NOW).err();
    assert_eq!(wrong, Some(AuthAPIError::IncorrectCredentials));
    assert_eq!(wrong, unknown);
}

#[test]
fn logout_then_verify_reports_revoked() {
    let mut state = new_state();
    signup(&mut state, signup_req("a@x.com", "longenough1", false)).unwrap();
    let token = token_of(login(&mut state, login_req("a@x.com", "longenough1"), NOW));
    assert_eq!(logout(&mut state, Some(token.clone()), NOW), Ok(()));
    let r = verify_token(&state, &VerifyTokenRequest { token: token.clone() }, NOW + 1);
    assert_eq!(r.err(), Some(AuthAPIError::TokenRevoked));
    assert_eq!(logout(&mut state, Some(token), NOW + 1), Err(AuthAPIError::TokenRevoked));
}

#[test]
fn never_minted_token_is_refused() {
    let state = new_state();
    let other = TokenCodec::new(b"other-secret".to_vec());
    let email = Email::parse("a@x.com".to_string()).unwrap();
    let foreign = other.mint(&email, NOW, 0);
    let r = verify_token(&state, &VerifyTokenRequest { token: foreign }, NOW);
    assert_eq!(r.err(), Some(AuthAPIError::InvalidToken));
}

#[test]
fn expired_token_is_refused() {
    let mut state = new_state();
    signup(&mut state, signup_req("a@x.com", "longenough1", false)).unwrap();
    let token = token_of(login(&mut state, login_req("a@x.com", "longenough1"), NOW));
    let later = NOW + TOKEN_TTL_SECONDS + 1;
    let r = verify_token(&state, &VerifyTokenRequest { token: token.clone() }, later);
    assert_eq!(r.err(), Some(AuthAPIError::TokenExpired));
    assert_eq!(logout(&mut state, Some(token), later), Err(AuthAPIError::TokenExpired));
}

#[test]
fn scenario_register_login_verify_logout_verify() {
    let mut state = new_state();
    assert!(signup(&mut state, signup_req("a@x.com", "longenough1", false)).is_ok());
    let token = token_of(login(&mut state, login_req("a@x.com", "longenough1"), NOW));
    assert!(verify_token(&state, &VerifyTokenRequest { token: token.clone() }, NOW).is_ok());
    assert!(logout(&mut state, Some(token.clone()), NOW).is_ok());
    assert!(verify_token(&state, &VerifyTokenRequest { token }, NOW).is_err());
}

#[test]
fn scenario_malformed_email_is_refused_before_any_store() {
    let mut state = new_state();
    let r = signup(&mut state, signup_req("not-an-email", "longenough1", false));
    assert_eq!(r.err(), Some(AuthAPIError::InvalidCredentials));
    let r = login(&mut state, login_req("not-an-email", "longenough1"), NOW);
    assert_eq!(r.err(), Some(AuthAPIError::InvalidCredentials));
    // Nothing was registered: a valid address is still free.
    assert!(signup(&mut state, signup_req("not-an-email@x.com", "longenough1", false)).is_ok());
}

#[test]
fn login_after_logout_in_the_same_second_gives_a_fresh_token() {
    let mut state = new_state();
    signup(&mut state, signup_req("a@x.com", "longenough1", false)).unwrap();
    let first = token_of(login(&mut state, login_req("a@x.com", "longenough1"), NOW));
    assert_eq!(logout(&mut state, Some(first.clone()), NOW), Ok(()));
    let second = token_of(login(&mut state, login_req("a@x.com", "longenough1"), NOW));
    assert_ne!(first, second);
    let who = verify_token(&state, &VerifyTokenRequest { token: second }, NOW).unwrap();
    assert_eq!(who.as_ref(), "a@x.com");
}

#[test]
fn any_validly_signed_token_is_accepted_whatever_its_serial() {
    let mut state = new_state();
    let email = Email::parse("a@x.com".to_string()).unwrap();
    let ahead = state.token_codec.mint(&email, NOW, 5);
    let r = verify_token(&state, &VerifyTokenRequest { token: ahead.clone() }, NOW);
    assert_eq!(r.unwrap().as_ref(), "a@x.com");
    assert_eq!(logout(&mut state, Some(ahead.clone()), NOW), Ok(()));
    let r = verify_token(&state, &VerifyTokenRequest { token: ahead }, NOW);
    assert_eq!(r.err(), Some(AuthAPIError::TokenRevoked));
}

#[test]
fn issued_token_skips_serials_whose_token_was_revoked() {
    let mut state = new_state();
    let email = Email::parse("a@x.com".to_string()).unwrap();
    let first = state.token_codec.mint(&email, NOW, 0);
    let second = state.token_codec.mint(&email, NOW, 1);
    logout(&mut state, Some(first.clone()), NOW).unwrap();
    logout(&mut state, Some(second.clone()), NOW).unwrap();
    let fresh = state.issue_token(&email, NOW).unwrap();
    assert_ne!(fresh, first);
    assert_ne!(fresh, second);
    assert_eq!(&fresh[80..96], "0000000000000002");
    assert_eq!(state.next_serial, 3);
    assert!(verify_token(&state, &VerifyTokenRequest { token: fresh }, NOW).is_ok());
}

#[test]
fn serial_numbers_run_out_gracefully() {
    let mut state = new_state();
    signup(&mut state, signup_req("a@x.com", "longenough1", false)).unwrap();
    state.next_serial = u64::MAX;
    let r = login(&mut state, login_req("a@x.com", "longenough1"), NOW);
    assert_eq!(r.err(), Some(AuthAPIError::UnexpectedError));
}

#[test]
fn error_statuses_and_messages() {
    assert_eq!(AuthAPIError::UserAlreadyExists.status_code(), 409);
    assert_eq!(AuthAPIError::UnexpectedError.status_code(), 500);
    assert_eq!(AuthAPIError::TokenRevoked.status_code(), 401);
    assert_eq!(AuthAPIError::MissingToken.message(), "Missing auth token");
}
