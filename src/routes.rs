use vstd::prelude::*;
use crate::app_state::{
    after_issue, fresh_serial, lemma_free_serial_exists, lemma_issued_token_checks, session_token,
    token_check, AppState, AuthView,
};
use crate::data_stores::{
    all_decimal, is_code_text, validation_of, BannedTokenStore, LoginAttemptId, TwoFACode, TwoFACodeStore,
    UserStore,
};
use crate::email::{is_email_text, Email};
use crate::error::AuthAPIError;
use crate::password::{is_password_text, Password};
use crate::primitives::uuid_text_of;
use crate::token::{
    expiry_of, lemma_unminted_is_malformed, token_text,
    TokenError,
};
use crate::user::User;

verus! {

/// A registration request.
#[derive(Debug, PartialEq, Eq)]
pub struct SignupRequest {
    pub email: String,
    pub password: String,
    pub requires_2fa: bool,
}

/// The body of a successful registration.
#[derive(Debug, PartialEq, Eq)]
pub struct SignupResponse {
    pub message: String,
}

/// The message that confirms a registration.
pub open spec fn signup_message() -> Seq<char> {
    "User created successfully!"@
}

/// What registering `email` with `password` gives in state `v`.
pub open spec fn signup_verdict(v: AuthView, email: Seq<char>, password: Seq<char>) -> Result<
    (),
    AuthAPIError,
> {
    if !is_email_text(email) || !is_password_text(password) {
        Err(AuthAPIError::InvalidCredentials)
    } else if v.users.contains_key(email) {
        Err(AuthAPIError::UserAlreadyExists)
    } else {
        Ok(())
    }
}

/// The state after registering `email` with `password` and flag `requires_2fa`.
pub open spec fn signup_next(
    v: AuthView,
    email: Seq<char>,
    password: Seq<char>,
    requires_2fa: bool,
) -> AuthView {
    if signup_verdict(v, email, password) is Ok {
        AuthView { users: v.users.insert(email, (password, requires_2fa)), ..v }
    } else {
        v
    }
}

/// Registers an account. The input's shape is checked before any store is
/// read; an address that already has an account is refused.
pub fn signup<U: UserStore, B: BannedTokenStore, T: TwoFACodeStore>(
    state: &mut AppState<U, B, T>,
    request: SignupRequest,
) -> (r: Result<SignupResponse, AuthAPIError>)
    requires
        old(state).wf(),
    ensures
        final(state).wf(),
        final(state)@ == signup_next(old(state)@, request.email@, request.password@, request.requires_2fa),
        match r {
            Ok(resp) => signup_verdict(old(state)@, request.email@, request.password@) is Ok
                && resp.message@ == signup_message(),
            Err(e) => signup_verdict(old(state)@, request.email@, request.password@) == Err::<
                (),
                AuthAPIError,
            >(e),
        },
{
    let email = match Email::parse(request.email) {
        Ok(e) => e,
        Err(_) => return Err(AuthAPIError::InvalidCredentials),
    };
    let password = match Password::parse(request.password) {
        Ok(p) => p,
        Err(_) => return Err(AuthAPIError::InvalidCredentials),
    };
    let user = User::new(email, password, request.requires_2fa);
    match state.user_store.add_user(user) {
        Ok(()) => {
            let ghost after = state@;
            assert(after.users == old(state)@.users.insert(
                request.email@,
                (request.password@, request.requires_2fa),
            ));
            Ok(SignupResponse { message: String::from_str("User created successfully!") })
        },
        Err(_) => Err(AuthAPIError::UserAlreadyExists),
    }
}

/// A login request.
#[derive(Debug, PartialEq, Eq)]
pub struct LoginRequest {
    pub email: String,
    pub password: String,
}

/// The body of a login response.
#[derive(Debug, PartialEq, Eq)]
pub enum LoginResponse {
    /// Logged in; the session token travels beside the body.
    RegularAuth,
    /// A second factor is required.
    TwoFactorAuth(TwoFactorAuthResponse),
}

/// The body that tells the caller a second factor is required.
#[derive(Debug, PartialEq, Eq)]
pub struct TwoFactorAuthResponse {
    pub message: String,
    pub login_attempt_id: String,
}

/// A message that carries a second-factor code to the account's owner.
#[derive(Debug, PartialEq, Eq)]
pub struct CodeDelivery {
    pub recipient: Email,
    pub subject: String,
    pub content: String,
}

/// How a login that passed the credential check ends.
#[derive(Debug, PartialEq, Eq)]
pub enum LoginOutcome {
    /// The session token of the account.
    Authenticated(String),
    /// A challenge was issued: its attempt id for the caller, and the code to
    /// deliver to the account's address.
    ChallengeIssued { login_attempt_id: LoginAttemptId, delivery: CodeDelivery },
}

/// The subject of the message that carries a code.
pub open spec fn code_subject() -> Seq<char> {
    "Your login code"@
}

/// The text of the message that carries `code`.
pub open spec fn code_message(code: Seq<char>) -> Seq<char> {
    "Your login code is "@ + code
}

/// The message of a response that asks for a second factor.
pub open spec fn two_factor_message() -> Seq<char> {
    "2FA required"@
}

/// `email` and `password` are well formed and match a registered account.
pub open spec fn credentials_ok(v: AuthView, email: Seq<char>, password: Seq<char>) -> bool {
    &&& is_email_text(email)
    &&& is_password_text(password)
    &&& validation_of(v.users, email, password) is Ok
}

/// The error of a login whose credentials do not pass: a shape error, or one
/// signal for both an unknown address and a wrong password.
pub open spec fn login_error(email: Seq<char>, password: Seq<char>) -> AuthAPIError {
    if !is_email_text(email) || !is_password_text(password) {
        AuthAPIError::InvalidCredentials
    } else {
        AuthAPIError::IncorrectCredentials
    }
}

/// The state after a login at `now` with `email` and `password` that would
/// issue the challenge (`attempt`, `code`) if one is needed.
pub open spec fn login_next(
    v: AuthView,
    email: Seq<char>,
    password: Seq<char>,
    now: u64,
    attempt: Seq<char>,
    code: Seq<char>,
) -> AuthView {
    if !credentials_ok(v, email, password) {
        v
    } else if v.users[email].1 {
        AuthView { codes: v.codes.insert(email, (attempt, code)), ..v }
    } else {
        after_issue(v, email, now)
    }
}

/// `r` is what a login with `email` and `password` at `now` in state `v`
/// gives, where the challenge it would issue is (`attempt`, `code`).
pub open spec fn login_result(
    v: AuthView,
    email: Seq<char>,
    password: Seq<char>,
    now: u64,
    attempt: Seq<char>,
    code: Seq<char>,
    r: Result<LoginOutcome, AuthAPIError>,
) -> bool {
    if !credentials_ok(v, email, password) {
        r == Err::<LoginOutcome, AuthAPIError>(login_error(email, password))
    } else if !v.users[email].1 {
        if fresh_serial(v, email, now) is None {
            r == Err::<LoginOutcome, AuthAPIError>(AuthAPIError::UnexpectedError)
        } else {
            r matches Ok(LoginOutcome::Authenticated(t)) && t@ == session_token(v, email, now)
                && token_check(after_issue(v, email, now), t@, now) == Ok::<Seq<char>, AuthAPIError>(email)
        }
    } else {
        r matches Ok(LoginOutcome::ChallengeIssued { login_attempt_id, delivery }) && login_attempt_id@
            == attempt && delivery.recipient@ == email && delivery.subject@ == code_subject()
            && delivery.content@ == code_message(code)
    }
}

fn code_delivery(email: Email, code: &TwoFACode) -> (r: CodeDelivery)
    ensures
        r.recipient@ == email@,
        r.subject@ == code_subject(),
        r.content@ == code_message(code@),
{
    let mut content = String::from_str("Your login code is ");
    content.append(code.as_str());
    CodeDelivery { recipient: email, subject: String::from_str("Your login code"), content }
}

/// Logs in with the challenge (`login_attempt_id`, `code`) ready in case the
/// account requires a second factor. The input's shape is checked before any
/// store is read.
pub fn login_with<U: UserStore, B: BannedTokenStore, T: TwoFACodeStore>(
    state: &mut AppState<U, B, T>,
    request: LoginRequest,
    now: u64,
    login_attempt_id: LoginAttemptId,
    code: TwoFACode,
) -> (r: Result<LoginOutcome, AuthAPIError>)
    requires
        old(state).wf(),
    ensures
        final(state).wf(),
        final(state)@ == login_next(
            old(state)@,
            request.email@,
            request.password@,
            now,
            login_attempt_id@,
            code@,
        ),
        login_result(
            old(state)@,
            request.email@,
            request.password@,
            now,
            login_attempt_id@,
            code@,
            r,
        ),
{
    let email = match Email::parse(request.email) {
        Ok(e) => e,
        Err(_) => return Err(AuthAPIError::InvalidCredentials),
    };
    let password = match Password::parse(request.password) {
        Ok(p) => p,
        Err(_) => return Err(AuthAPIError::InvalidCredentials),
    };
    if state.user_store.validate_user(&email, &password).is_err() {
        return Err(AuthAPIError::IncorrectCredentials);
    }
    let user = match state.user_store.get_user(&email) {
        Ok(u) => u,
        Err(_) => return Err(AuthAPIError::IncorrectCredentials),
    };
    if user.requires_2fa {
        let ghost before = state@;
        match state.two_fa_code_store.add_code(email.clone(), login_attempt_id.clone(), code.clone()) {
            Ok(()) => {},
            Err(_) => return Err(AuthAPIError::UnexpectedError),
        }
        assert(state@ == AuthView { codes: before.codes.insert(email@, (login_attempt_id@, code@)), ..before });
        let delivery = code_delivery(email, &code);
        Ok(LoginOutcome::ChallengeIssued { login_attempt_id, delivery })
    } else {
        match state.issue_token(&email, now) {
            Some(token) => Ok(LoginOutcome::Authenticated(token)),
            None => Err(AuthAPIError::UnexpectedError),
        }
    }
}

/// Logs in at `now`; where the account requires a second factor, a fresh
/// attempt id and a fresh six-digit code make the challenge.
pub fn login<U: UserStore, B: BannedTokenStore, T: TwoFACodeStore>(
    state: &mut AppState<U, B, T>,
    request: LoginRequest,
    now: u64,
) -> (r: Result<LoginOutcome, AuthAPIError>)
    requires
        old(state).wf(),
    ensures
        final(state).wf(),
        exists|attempt: Seq<char>, code: Seq<char>|
            #![trigger login_next(old(state)@, request.email@, request.password@, now, attempt, code)]
            uuid_text_of(attempt) == Some(attempt) && is_code_text(code) && all_decimal(code)
                && final(state)@ == login_next(
                old(state)@,
                request.email@,
                request.password@,
                now,
                attempt,
                code,
            ) && login_result(
                old(state)@,
                request.email@,
                request.password@,
                now,
                attempt,
                code,
                r,
            ),
{
    let ghost email = request.email@;
    let ghost password = request.password@;
    let login_attempt_id = LoginAttemptId::default();
    let code = TwoFACode::default();
    let ghost attempt = login_attempt_id@;
    let ghost code_text = code@;
    let r = login_with(state, request, now, login_attempt_id, code);
    assert(login_next(old(state)@, email, password, now, attempt, code_text) == state@);
    r
}

/// The body that answers a login.
pub fn login_response(outcome: &LoginOutcome) -> (r: LoginResponse)
    ensures
        match outcome {
            LoginOutcome::Authenticated(_) => r is RegularAuth,
            LoginOutcome::ChallengeIssued { login_attempt_id, .. } => r matches LoginResponse::TwoFactorAuth(
                body,
            ) && body.message@ == two_factor_message() && body.login_attempt_id@ == login_attempt_id@,
        },
{
    match outcome {
        LoginOutcome::Authenticated(_) => LoginResponse::RegularAuth,
        LoginOutcome::ChallengeIssued { login_attempt_id, .. } => LoginResponse::TwoFactorAuth(
            TwoFactorAuthResponse {
                message: String::from_str("2FA required"),
                login_attempt_id: login_attempt_id.as_str().to_owned(),
            },
        ),
    }
}

/// A request to confirm a second-factor challenge.
#[derive(Debug, PartialEq, Eq)]
pub struct Verify2FARequest {
    pub email: String,
    pub login_attempt_id: String,
    pub two_fa_code: String,
}

/// The input of a confirmation is well formed.
pub open spec fn confirm_input_ok(email: Seq<char>, attempt: Seq<char>, code: Seq<char>) -> bool {
    &&& is_email_text(email)
    &&& uuid_text_of(attempt) is Some
    &&& is_code_text(code)
}

/// What confirming (`attempt`, `code`) for `email` at `now` in state `v`
/// gives: the session token, or why not.
pub open spec fn confirm_verdict(
    v: AuthView,
    email: Seq<char>,
    attempt: Seq<char>,
    code: Seq<char>,
    now: u64,
) -> Result<Seq<char>, AuthAPIError> {
    if !confirm_input_ok(email, attempt, code) {
        Err(AuthAPIError::InvalidCredentials)
    } else if !v.codes.contains_key(email) {
        Err(AuthAPIError::ChallengeNotFound)
    } else if v.codes[email] != (uuid_text_of(attempt)->Some_0, code) {
        Err(AuthAPIError::ChallengeMismatch)
    } else if fresh_serial(v, email, now) is None {
        Err(AuthAPIError::UnexpectedError)
    } else {
        Ok(session_token(v, email, now))
    }
}

/// The state after a confirmation: a well-formed attempt consumes the
/// challenge of the address, whether it matched or not; a match also mints
/// a token at `now`, which spends serial numbers.
pub open spec fn confirm_next(
    v: AuthView,
    email: Seq<char>,
    attempt: Seq<char>,
    code: Seq<char>,
    now: u64,
) -> AuthView {
    if !confirm_input_ok(email, attempt, code) {
        v
    } else if v.codes.contains_key(email) && v.codes[email] == (uuid_text_of(attempt)->Some_0, code) {
        after_issue(AuthView { codes: v.codes.remove(email), ..v }, email, now)
    } else {
        AuthView { codes: v.codes.remove(email), ..v }
    }
}

/// Confirms the outstanding challenge of an address and, on a match, mints
/// its session token at `now`. The challenge is consumed either way, so a
/// code never serves twice.
pub fn verify_2fa<U: UserStore, B: BannedTokenStore, T: TwoFACodeStore>(
    state: &mut AppState<U, B, T>,
    request: Verify2FARequest,
    now: u64,
) -> (r: Result<String, AuthAPIError>)
    requires
        old(state).wf(),
    ensures
        final(state).wf(),
        final(state)@ == confirm_next(
            old(state)@,
            request.email@,
            request.login_attempt_id@,
            request.two_fa_code@,
            now,
        ),
        match r {
            Ok(t) => confirm_verdict(
                old(state)@,
                request.email@,
                request.login_attempt_id@,
                request.two_fa_code@,
                now,
            ) == Ok::<Seq<char>, AuthAPIError>(t@) && token_check(final(state)@, t@, now) == Ok::<
                Seq<char>,
                AuthAPIError,
            >(request.email@),
            Err(e) => confirm_verdict(
                old(state)@,
                request.email@,
                request.login_attempt_id@,
                request.two_fa_code@,
                now,
            ) == Err::<Seq<char>, AuthAPIError>(e),
        },
{
    let email = match Email::parse(request.email) {
        Ok(e) => e,
        Err(_) => return Err(AuthAPIError::InvalidCredentials),
    };
    let login_attempt_id = match LoginAttemptId::parse(request.login_attempt_id) {
        Ok(a) => a,
        Err(_) => return Err(AuthAPIError::InvalidCredentials),
    };
    let code = match TwoFACode::parse(request.two_fa_code) {
        Ok(c) => c,
        Err(_) => return Err(AuthAPIError::InvalidCredentials),
    };
    let ghost before = state@;
    let (stored_id, stored_code) = match state.two_fa_code_store.get_code(&email) {
        Ok(pair) => pair,
        Err(_) => {
            assert(before.codes.remove(email@) =~= before.codes);
            assert(confirm_next(before, email@, request.login_attempt_id@, request.two_fa_code@, now) == before);
            return Err(AuthAPIError::ChallengeNotFound);
        },
    };
    let _ = state.two_fa_code_store.remove_code(&email);
    assert(state@ == AuthView { codes: before.codes.remove(email@), ..before });
    if !(stored_id.same_as(&login_attempt_id) && stored_code.same_as(&code)) {
        return Err(AuthAPIError::ChallengeMismatch);
    }
    match state.issue_token(&email, now) {
        Some(token) => Ok(token),
        None => Err(AuthAPIError::UnexpectedError),
    }
}

/// A request to check a token.
#[derive(Debug, PartialEq, Eq)]
pub struct VerifyTokenRequest {
    pub token: String,
}

/// The state after a logout with token `t` at `now`: a token that checks out
/// is revoked.
pub open spec fn logout_next(v: AuthView, t: Seq<char>, now: u64) -> AuthView {
    if token_check(v, t, now) is Ok {
        AuthView { banned: v.banned.insert(t), ..v }
    } else {
        v
    }
}

fn check_token<U: UserStore, B: BannedTokenStore, T: TwoFACodeStore>(
    state: &AppState<U, B, T>,
    token: &String,
    now: u64,
) -> (r: Result<Email, AuthAPIError>)
    requires
        state.wf(),
    ensures
        match r {
            Ok(e) => token_check(state@, token@, now) == Ok::<Seq<char>, AuthAPIError>(e@),
            Err(e) => token_check(state@, token@, now) == Err::<Seq<char>, AuthAPIError>(e),
        },
{
    let (email, _) = match state.token_codec.verify(token.as_str(), now) {
        Ok(claims) => claims,
        Err(TokenError::Malformed) => return Err(AuthAPIError::InvalidToken),
        Err(TokenError::Expired) => return Err(AuthAPIError::TokenExpired),
    };
    if state.banned_token_store.get_token(token) {
        return Err(AuthAPIError::TokenRevoked);
    }
    Ok(email)
}

/// Checks a token at `now`: its subject, unless the token is malformed,
/// expired or revoked.
pub fn verify_token<U: UserStore, B: BannedTokenStore, T: TwoFACodeStore>(
    state: &AppState<U, B, T>,
    request: &VerifyTokenRequest,
    now: u64,
) -> (r: Result<Email, AuthAPIError>)
    requires
        state.wf(),
    ensures
        match r {
            Ok(e) => token_check(state@, request.token@, now) == Ok::<Seq<char>, AuthAPIError>(e@),
            Err(e) => token_check(state@, request.token@, now) == Err::<Seq<char>, AuthAPIError>(e),
        },
{
    check_token(state, &request.token, now)
}

/// Logs out: a token that checks out at `now` is revoked, so that it is
/// refused from then on though its signature stays valid.
pub fn logout<U: UserStore, B: BannedTokenStore, T: TwoFACodeStore>(
    state: &mut AppState<U, B, T>,
    token: Option<String>,
    now: u64,
) -> (r: Result<(), AuthAPIError>)
    requires
        old(state).wf(),
    ensures
        final(state).wf(),
        match token {
            None => r == Err::<(), AuthAPIError>(AuthAPIError::MissingToken) && final(state)@ == old(
                state,
            )@,
            Some(t) => final(state)@ == logout_next(old(state)@, t@, now) && match r {
                Ok(_) => token_check(old(state)@, t@, now) is Ok,
                Err(e) => token_check(old(state)@, t@, now) == Err::<Seq<char>, AuthAPIError>(e),
            },
        },
{
    let token = match token {
        Some(t) => t,
        None => return Err(AuthAPIError::MissingToken),
    };
    match check_token(state, &token, now) {
        Ok(_) => {},
        Err(e) => return Err(e),
    }
    let ghost before = state@;
    let _ = state.banned_token_store.add_token(token);
    assert(state@ == AuthView { banned: before.banned.insert(token@), ..before });
    Ok(())
}

/// Registering one address twice: the first registration succeeds, the
/// second is refused as a duplicate, whatever its password and flag.
pub proof fn lemma_signup_twice(
    v: AuthView,
    email: Seq<char>,
    password: Seq<char>,
    requires_2fa: bool,
    second_password: Seq<char>,
)
    requires
        is_email_text(email),
        is_password_text(password),
        is_password_text(second_password),
        !v.users.contains_key(email),
    ensures
        signup_verdict(v, email, password) is Ok,
        signup_verdict(signup_next(v, email, password, requires_2fa), email, second_password)
            == Err::<(), AuthAPIError>(AuthAPIError::UserAlreadyExists),
{
}

/// For an account without a second factor, login with the right password
/// mints a token, and checking that token at once gives the account's
/// address, whatever was logged out before. (The ledger is finite, as every
/// store's is, and holds fewer tokens than serial numbers are left.)
pub proof fn lemma_login_then_verify(
    v: AuthView,
    email: Seq<char>,
    password: Seq<char>,
    now: u64,
    attempt: Seq<char>,
    code: Seq<char>,
)
    requires
        is_email_text(email),
        is_password_text(password),
        v.users.contains_key(email),
        v.users[email] == (password, false),
        v.banned.finite(),
        v.banned.len() < u64::MAX - v.next_serial,
    ensures
        credentials_ok(v, email, password),
        !v.users[email].1,
        fresh_serial(v, email, now) is Some,
        login_next(v, email, password, now, attempt, code) == after_issue(v, email, now),
        token_check(
            login_next(v, email, password, now, attempt, code),
            session_token(v, email, now),
            now,
        ) == Ok::<Seq<char>, AuthAPIError>(email),
{
    lemma_free_serial_exists(v.key, v.banned, email, expiry_of(now), v.next_serial);
    lemma_issued_token_checks(v, email, now);
}

/// For an account with a second factor, login issues a challenge under a
/// canonical attempt id; confirming it with that attempt (in any form that
/// denotes it) and the code mints a token that checks out at once;
/// confirming it again finds no challenge.
pub proof fn lemma_challenge_once(
    v: AuthView,
    email: Seq<char>,
    password: Seq<char>,
    attempt: Seq<char>,
    submitted: Seq<char>,
    code: Seq<char>,
    now: u64,
)
    requires
        is_email_text(email),
        is_password_text(password),
        v.users.contains_key(email),
        v.users[email] == (password, true),
        uuid_text_of(attempt) == Some(attempt),
        uuid_text_of(submitted) == Some(attempt),
        is_code_text(code),
        v.banned.finite(),
        v.banned.len() < u64::MAX - v.next_serial,
    ensures
        credentials_ok(v, email, password),
        v.users[email].1,
        confirm_verdict(login_next(v, email, password, now, attempt, code), email, submitted, code, now)
            == Ok::<Seq<char>, AuthAPIError>(session_token(v, email, now)),
        token_check(
            confirm_next(login_next(v, email, password, now, attempt, code), email, submitted, code, now),
            session_token(v, email, now),
            now,
        ) == Ok::<Seq<char>, AuthAPIError>(email),
        confirm_verdict(
            confirm_next(login_next(v, email, password, now, attempt, code), email, submitted, code, now),
            email,
            submitted,
            code,
            now,
        ) == Err::<Seq<char>, AuthAPIError>(AuthAPIError::ChallengeNotFound),
{
    let v1 = login_next(v, email, password, now, attempt, code);
    let v2 = AuthView { codes: v1.codes.remove(email), ..v1 };
    lemma_free_serial_exists(v.key, v.banned, email, expiry_of(now), v.next_serial);
    assert(fresh_serial(v2, email, now) == fresh_serial(v, email, now));
    lemma_issued_token_checks(v2, email, now);
}

/// A wrong password for a registered address and any password for an
/// unknown address fail alike, with one signal.
pub proof fn lemma_incorrect_credentials_alike(
    v: AuthView,
    email: Seq<char>,
    wrong_password: Seq<char>,
    unknown_email: Seq<char>,
    password: Seq<char>,
)
    requires
        is_email_text(email),
        is_password_text(wrong_password),
        v.users.contains_key(email),
        v.users[email].0 != wrong_password,
        is_email_text(unknown_email),
        is_password_text(password),
        !v.users.contains_key(unknown_email),
    ensures
        !credentials_ok(v, email, wrong_password),
        !credentials_ok(v, unknown_email, password),
        login_error(email, wrong_password) == AuthAPIError::IncorrectCredentials,
        login_error(unknown_email, password) == AuthAPIError::IncorrectCredentials,
{
}

/// After a logout with a token succeeds, the token is refused at every later
/// check, as revoked wherever it would otherwise still check out.
pub proof fn lemma_logout_revokes(v: AuthView, t: Seq<char>, now: u64, later: u64)
    requires
        token_check(v, t, now) is Ok,
    ensures
        token_check(logout_next(v, t, now), t, later) is Err,
        token_check(v, t, later) is Ok ==> token_check(logout_next(v, t, now), t, later)
            == Err::<Seq<char>, AuthAPIError>(AuthAPIError::TokenRevoked),
{
}

/// Text that was never minted under the service's key is refused, at every
/// instant and in every state.
pub proof fn lemma_unminted_token_refused(v: AuthView, t: Seq<char>, now: u64)
    requires
        forall|email: Seq<char>, expiry: u64, serial: u64|
            t != #[trigger] token_text(v.key, email, expiry, serial),
    ensures
        token_check(v, t, now) == Err::<Seq<char>, AuthAPIError>(AuthAPIError::InvalidToken),
{
    lemma_unminted_is_malformed(v.key, t, now);
}

} // verus!
