use vstd::prelude::*;
use crate::email::Email;
use crate::hex::{hex_digits, lemma_digit_round_trip, push_hex_digit};
use crate::password::Password;
use crate::primitives::{fresh_uuid, parse_uuid, random_below, uuid_text_of};
use crate::user::User;

verus! {

/// What a user store knows of an account: its password and its second-factor
/// flag, keyed by email address.
pub type Accounts = Map<Seq<char>, (Seq<char>, bool)>;

/// The outstanding challenges: for each email address, the login attempt and
/// the code awaiting confirmation.
pub type Challenges = Map<Seq<char>, (Seq<char>, Seq<char>)>;

/// What checking `password` against the account of `email` gives.
pub open spec fn validation_of(users: Accounts, email: Seq<char>, password: Seq<char>) -> Result<
    (),
    UserStoreError,
> {
    if !users.contains_key(email) {
        Err(UserStoreError::UserNotFound)
    } else if users[email].0 == password {
        Ok(())
    } else {
        Err(UserStoreError::InvalidCredentials)
    }
}

/// Holds the registered accounts; no two share an email address.
pub trait UserStore {
    /// The store's own consistency.
    spec fn wf(&self) -> bool;

    /// The accounts held.
    spec fn users(&self) -> Accounts;

    /// Adds `user`, unless an account with that email address exists.
    fn add_user(&mut self, user: User) -> (r: Result<(), UserStoreError>)
        requires
            old(self).wf(),
        ensures
            final(self).wf(),
            old(self).users().contains_key(user.email@) ==> r == Err::<(), UserStoreError>(
                UserStoreError::UserAlreadyExists,
            ) && final(self).users() == old(self).users(),
            !old(self).users().contains_key(user.email@) ==> r is Ok && final(self).users()
                == old(self).users().insert(user.email@, (user.password@, user.requires_2fa)),
    ;

    /// The account of `email`.
    fn get_user(&self, email: &Email) -> (r: Result<User, UserStoreError>)
        requires
            self.wf(),
        ensures
            match r {
                Ok(u) => self.users().contains_key(email@) && u.email@ == email@ && (
                u.password@,
                u.requires_2fa,
                ) == self.users()[email@],
                Err(e) => !self.users().contains_key(email@) && e == UserStoreError::UserNotFound,
            },
    ;

    /// Checks `password` against the account of `email`.
    fn validate_user(&self, email: &Email, password: &Password) -> (r: Result<(), UserStoreError>)
        requires
            self.wf(),
        ensures
            r == validation_of(self.users(), email@, password@),
    ;
}

#[derive(Debug, Clone, Copy, PartialEq, Eq, Structural)]
pub enum UserStoreError {
    UserAlreadyExists,
    UserNotFound,
    InvalidCredentials,
    UnexpectedError,
}

/// Holds the tokens revoked by logout; once in, a token stays.
pub trait BannedTokenStore {
    /// The store's own consistency.
    spec fn wf(&self) -> bool;

    /// The revoked tokens.
    spec fn tokens(&self) -> Set<Seq<char>>;

    /// A store holds finitely many tokens.
    proof fn lemma_tokens_finite(&self)
        requires
            self.wf(),
        ensures
            self.tokens().finite(),
    ;

    /// Revokes `token`; revoking it again changes nothing.
    fn add_token(&mut self, token: String) -> (r: Result<(), BannedTokenStoreError>)
        requires
            old(self).wf(),
        ensures
            final(self).wf(),
            r is Ok,
            final(self).tokens() == old(self).tokens().insert(token@),
    ;

    /// Whether `token` was revoked.
    fn get_token(&self, token: &String) -> (r: bool)
        requires
            self.wf(),
        ensures
            r == self.tokens().contains(token@),
    ;
}

#[derive(Debug, Clone, Copy, PartialEq, Eq, Structural)]
pub enum BannedTokenStoreError {
    UnexpectedError,
}

/// Holds at most one outstanding second-factor challenge per email address.
pub trait TwoFACodeStore {
    /// The store's own consistency.
    spec fn wf(&self) -> bool;

    /// The outstanding challenges.
    spec fn codes(&self) -> Challenges;

    /// Sets the challenge of `email`, replacing any earlier one.
    fn add_code(&mut self, email: Email, login_attempt_id: LoginAttemptId, code: TwoFACode) -> (r:
        Result<(), TwoFACodeStoreError>)
        requires
            old(self).wf(),
        ensures
            final(self).wf(),
            r is Ok,
            final(self).codes() == old(self).codes().insert(email@, (login_attempt_id@, code@)),
    ;

    /// Drops the challenge of `email`; `EmailNotFound` where there is none.
    fn remove_code(&mut self, email: &Email) -> (r: Result<(), TwoFACodeStoreError>)
        requires
            old(self).wf(),
        ensures
            final(self).wf(),
            final(self).codes() == old(self).codes().remove(email@),
            old(self).codes().contains_key(email@) ==> r is Ok,
            !old(self).codes().contains_key(email@) ==> r == Err::<(), TwoFACodeStoreError>(
                TwoFACodeStoreError::EmailNotFound,
            ),
    ;

    /// The challenge of `email`; `EmailNotFound` where there is none.
    fn get_code(&self, email: &Email) -> (r: Result<(LoginAttemptId, TwoFACode), TwoFACodeStoreError>)
        requires
            self.wf(),
        ensures
            match r {
                Ok((id, code)) => self.codes().contains_key(email@) && self.codes()[email@] == (
                id@,
                code@,
                ),
                Err(e) => !self.codes().contains_key(email@) && e == TwoFACodeStoreError::EmailNotFound,
            },
    ;
}

#[derive(Debug, Clone, Copy, PartialEq, Eq, Structural)]
pub enum TwoFACodeStoreError {
    LoginAttemptIdNotFound,
    EmailNotFound,
    UnexpectedError,
}

/// The identifier of one login attempt: the canonical text of a UUID.
#[derive(Debug, PartialEq, Eq)]
pub struct LoginAttemptId(String);

impl View for LoginAttemptId {
    type V = Seq<char>;

    closed spec fn view(&self) -> Seq<char> {
        self.0@
    }
}

impl Clone for LoginAttemptId {
    fn clone(&self) -> (r: Self)
        ensures
            r@ == self@,
    {
        LoginAttemptId(self.0.clone())
    }
}

impl LoginAttemptId {
    /// Accepts `id` where it denotes a UUID, and keeps its canonical text.
    pub fn parse(id: String) -> (r: Result<Self, String>)
        ensures
            match r {
                Ok(a) => uuid_text_of(id@) == Some(a@),
                Err(_) => uuid_text_of(id@) is None,
            },
    {
        match parse_uuid(id.as_str()) {
            Ok(text) => Ok(LoginAttemptId(text)),
            Err(e) => Err(e),
        }
    }

    /// The identifier as text.
    pub fn as_str(&self) -> (r: &str)
        ensures
            r@ == self@,
    {
        self.0.as_str()
    }

    /// Whether two identifiers are the same text.
    pub fn same_as(&self, other: &LoginAttemptId) -> (r: bool)
        ensures
            r == (self@ == other@),
    {
        self.0 == other.0
    }
}

impl Default for LoginAttemptId {
    /// A fresh random identifier, in canonical form.
    fn default() -> (r: Self)
        ensures
            r@.len() == 36,
            uuid_text_of(r@) == Some(r@),
    {
        LoginAttemptId(fresh_uuid())
    }
}

impl AsRef<str> for LoginAttemptId {
    fn as_ref(&self) -> &str {
        self.as_str()
    }
}

/// Characters in a second-factor code.
pub const CODE_CHARS: usize = 6;

/// Whether `c` is a decimal digit.
pub open spec fn is_decimal_char(c: char) -> bool {
    '0' <= c && c <= '9'
}

/// Whether every character of `s` is a decimal digit.
pub open spec fn all_decimal(s: Seq<char>) -> bool {
    forall|i: int| 0 <= i < s.len() ==> is_decimal_char(#[trigger] s[i])
}

/// The text of a second-factor code: six characters that read as an integer,
/// that is six digits, or a sign and five digits.
pub open spec fn is_code_text(s: Seq<char>) -> bool {
    &&& s.len() == CODE_CHARS
    &&& (all_decimal(s) || ((s[0] == '+' || s[0] == '-') && all_decimal(s.subrange(1, s.len() as int))))
}

/// `x` modulo `10^n`, written with exactly `n` decimal digits.
pub open spec fn decimal_fixed(x: nat, n: nat) -> Seq<char>
    decreases n,
{
    if n == 0 {
        seq![]
    } else {
        decimal_fixed(x / 10, (n - 1) as nat).push(hex_digits()[(x % 10) as int])
    }
}

/// A one-time second-factor code.
#[derive(Debug, PartialEq, Eq)]
pub struct TwoFACode(String);

impl View for TwoFACode {
    type V = Seq<char>;

    closed spec fn view(&self) -> Seq<char> {
        self.0@
    }
}

impl Clone for TwoFACode {
    fn clone(&self) -> (r: Self)
        ensures
            r@ == self@,
    {
        TwoFACode(self.0.clone())
    }
}

fn all_decimal_from(s: &str, from: usize) -> (r: bool)
    requires
        from <= s@.len(),
    ensures
        r == all_decimal(s@.subrange(from as int, s@.len() as int)),
{
    let n = s.unicode_len();
    let mut i: usize = from;
    while i < n
        invariant
            n == s@.len(),
            from <= i <= n,
            forall|j: int| from <= j < i ==> is_decimal_char(#[trigger] s@[j]),
        decreases n - i,
    {
        let c = s.get_char(i);
        if !('0' <= c && c <= '9') {
            assert(s@.subrange(from as int, n as int)[i - from] == c);
            return false;
        }
        i = i + 1;
    }
    assert forall|j: int| 0 <= j < n - from implies is_decimal_char(
        #[trigger] s@.subrange(from as int, n as int)[j],
    ) by {
        assert(s@.subrange(from as int, n as int)[j] == s@[j + from]);
    }
    true
}

fn push_decimal_fixed(out: &mut String, x: u32, n: usize)
    ensures
        final(out)@ == old(out)@ + decimal_fixed(x as nat, n as nat),
    decreases n,
{
    if n > 0 {
        push_decimal_fixed(out, x / 10, n - 1);
        push_hex_digit(out, (x % 10) as u8);
    }
}

proof fn lemma_decimal_fixed_digits(x: nat, n: nat)
    ensures
        decimal_fixed(x, n).len() == n,
        all_decimal(decimal_fixed(x, n)),
    decreases n,
{
    if n > 0 {
        lemma_decimal_fixed_digits(x / 10, (n - 1) as nat);
        lemma_digit_round_trip(x % 10);
        let s = decimal_fixed(x, n);
        assert forall|i: int| 0 <= i < s.len() implies is_decimal_char(#[trigger] s[i]) by {
            if i < n - 1 {
                assert(s[i] == decimal_fixed(x / 10, (n - 1) as nat)[i]);
            }
        }
    }
}

impl TwoFACode {
    /// Accepts `code` where it has six characters and reads as an integer.
    pub fn parse(code: String) -> (r: Result<Self, String>)
        ensures
            r is Ok <==> is_code_text(code@),
            r matches Ok(c) ==> c@ == code@,
    {
        let n = code.as_str().unicode_len();
        if n != CODE_CHARS {
            return Err(String::from_str("code length not equal to 6"));
        }
        let first = code.as_str().get_char(0);
        let from: usize = if first == '+' || first == '-' {
            1
        } else {
            0
        };
        let digits = all_decimal_from(code.as_str(), from);
        proof {
            assert(code@.subrange(0, code@.len() as int) =~= code@);
            if from == 1 && !digits {
                assert(!is_decimal_char(code@[0]));
                assert(!all_decimal(code@));
            }
        }
        if digits {
            Ok(TwoFACode(code))
        } else {
            Err(String::from_str("code is not an integer"))
        }
    }

    /// The code as text.
    pub fn as_str(&self) -> (r: &str)
        ensures
            r@ == self@,
    {
        self.0.as_str()
    }

    /// Whether two codes are the same text.
    pub fn same_as(&self, other: &TwoFACode) -> (r: bool)
        ensures
            r == (self@ == other@),
    {
        self.0 == other.0
    }
}

impl TwoFACode {
    /// The code that writes `x` with six digits, leading zeros included.
    pub fn from_number(x: u32) -> (r: TwoFACode)
        requires
            x < 1_000_000,
        ensures
            r@ == decimal_fixed(x as nat, CODE_CHARS as nat),
            is_code_text(r@),
            all_decimal(r@),
    {
        let mut text = String::new();
        push_decimal_fixed(&mut text, x, CODE_CHARS);
        proof {
            lemma_decimal_fixed_digits(x as nat, 6);
            assert(text@ =~= decimal_fixed(x as nat, 6));
        }
        TwoFACode(text)
    }
}

impl Default for TwoFACode {
    /// A fresh code: a number drawn below one million, written with six
    /// digits.
    fn default() -> (r: Self)
        ensures
            exists|x: nat| x < 1_000_000 && r@ == #[trigger] decimal_fixed(x, CODE_CHARS as nat),
            is_code_text(r@),
            all_decimal(r@),
    {
        TwoFACode::from_number(random_below(1_000_000))
    }
}

impl AsRef<str> for TwoFACode {
    fn as_ref(&self) -> &str {
        self.as_str()
    }
}

} // verus!
