use vstd::prelude::*;

verus! {

/// The outward errors of the authentication operations. No store error
/// crosses this boundary in any other form.
#[derive(Debug, Clone, Copy, PartialEq, Eq, Structural)]
pub enum AuthAPIError {
    /// Registration of an email address that already has an account.
    UserAlreadyExists,
    /// Input of the wrong shape: an email address without `@`, a short
    /// password, a login attempt id that is no UUID, a code that is no code.
    InvalidCredentials,
    /// Unknown email address or wrong password; which of the two is not said.
    IncorrectCredentials,
    /// A fault outside the caller's control, such as a failed code delivery.
    UnexpectedError,
    /// No token was presented.
    MissingToken,
    /// The text is no token, or its signature is not this service's.
    InvalidToken,
    /// The token's expiry has passed.
    TokenExpired,
    /// The token was revoked by logout.
    TokenRevoked,
    /// No second-factor challenge is outstanding for the address.
    ChallengeNotFound,
    /// The attempt id or code does not match the outstanding challenge.
    ChallengeMismatch,
}

/// The HTTP status that reports `e`: 400 for a bad request, 401 for a
/// refused credential, 409 for a duplicate, 500 for a fault.
pub open spec fn status_of(e: AuthAPIError) -> u16 {
    match e {
        AuthAPIError::UserAlreadyExists => 409,
        AuthAPIError::InvalidCredentials => 400,
        AuthAPIError::IncorrectCredentials => 401,
        AuthAPIError::UnexpectedError => 500,
        AuthAPIError::MissingToken => 400,
        AuthAPIError::InvalidToken => 401,
        AuthAPIError::TokenExpired => 401,
        AuthAPIError::TokenRevoked => 401,
        AuthAPIError::ChallengeNotFound => 400,
        AuthAPIError::ChallengeMismatch => 401,
    }
}

/// The message that reports `e`.
pub open spec fn message_of(e: AuthAPIError) -> Seq<char> {
    match e {
        AuthAPIError::UserAlreadyExists => "User already exists"@,
        AuthAPIError::InvalidCredentials => "Invalid credentials"@,
        AuthAPIError::IncorrectCredentials => "Incorrect credentials"@,
        AuthAPIError::UnexpectedError => "Unexpected error"@,
        AuthAPIError::MissingToken => "Missing auth token"@,
        AuthAPIError::InvalidToken => "Invalid auth token"@,
        AuthAPIError::TokenExpired => "Auth token expired"@,
        AuthAPIError::TokenRevoked => "Auth token revoked"@,
        AuthAPIError::ChallengeNotFound => "No login code is pending"@,
        AuthAPIError::ChallengeMismatch => "Login code does not match"@,
    }
}

impl AuthAPIError {
    /// The HTTP status that reports this error.
    pub fn status_code(&self) -> (r: u16)
        ensures
            r == status_of(*self),
    {
        match self {
            AuthAPIError::UserAlreadyExists => 409,
            AuthAPIError::InvalidCredentials => 400,
            AuthAPIError::IncorrectCredentials => 401,
            AuthAPIError::UnexpectedError => 500,
            AuthAPIError::MissingToken => 400,
            AuthAPIError::InvalidToken => 401,
            AuthAPIError::TokenExpired => 401,
            AuthAPIError::TokenRevoked => 401,
            AuthAPIError::ChallengeNotFound => 400,
            AuthAPIError::ChallengeMismatch => 401,
        }
    }

    /// The message that a response reports this error with.
    pub fn message(&self) -> (r: String)
        ensures
            r@ == message_of(*self),
    {
        match self {
            AuthAPIError::UserAlreadyExists => String::from_str("User already exists"),
            AuthAPIError::InvalidCredentials => String::from_str("Invalid credentials"),
            AuthAPIError::IncorrectCredentials => String::from_str("Incorrect credentials"),
            AuthAPIError::UnexpectedError => String::from_str("Unexpected error"),
            AuthAPIError::MissingToken => String::from_str("Missing auth token"),
            AuthAPIError::InvalidToken => String::from_str("Invalid auth token"),
            AuthAPIError::TokenExpired => String::from_str("Auth token expired"),
            AuthAPIError::TokenRevoked => String::from_str("Auth token revoked"),
            AuthAPIError::ChallengeNotFound => String::from_str("No login code is pending"),
            AuthAPIError::ChallengeMismatch => String::from_str("Login code does not match"),
        }
    }
}

} // verus!
