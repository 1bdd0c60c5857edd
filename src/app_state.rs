use vstd::prelude::*;
use crate::data_stores::{Accounts, BannedTokenStore, Challenges, TwoFACodeStore, UserStore};
use crate::email::{is_email_text, Email};
use crate::error::AuthAPIError;
use crate::token::{
    expiry_of, lemma_claims_of_token, token_text, token_verdict, TokenCodec,
    TokenError,
};

verus! {

/// The whole state of the service, as the contracts see it.
pub struct AuthView {
    /// Registered accounts: email address to password and second-factor flag.
    pub users: Accounts,
    /// Tokens revoked by logout.
    pub banned: Set<Seq<char>>,
    /// Outstanding challenges: email address to attempt id and code.
    pub codes: Challenges,
    /// The key that tokens are signed with.
    pub key: Seq<u8>,
    /// The serial number of the next token to mint; every lower one is spent.
    pub next_serial: u64,
}

/// The first serial number from `s` on whose token for `email` expiring at
/// `expiry` is not in `banned`; `None` where every one up to the last is.
pub open spec fn first_free(
    key: Seq<u8>,
    banned: Set<Seq<char>>,
    email: Seq<char>,
    expiry: u64,
    s: u64,
) -> Option<u64>
    decreases u64::MAX - s,
{
    if s == u64::MAX {
        None
    } else if !banned.contains(token_text(key, email, expiry, s)) {
        Some(s)
    } else {
        first_free(key, banned, email, expiry, (s + 1) as u64)
    }
}

/// The serial number that a token for `email` minted at `now` in state `v`
/// gets: the first one not spent whose token was not revoked.
pub open spec fn fresh_serial(v: AuthView, email: Seq<char>, now: u64) -> Option<u64> {
    first_free(v.key, v.banned, email, expiry_of(now), v.next_serial)
}

/// The session token minted for `email` at `now` in state `v`.
pub open spec fn session_token(v: AuthView, email: Seq<char>, now: u64) -> Seq<char> {
    token_text(v.key, email, expiry_of(now), fresh_serial(v, email, now)->Some_0)
}

/// State `v` after minting a token for `email` at `now`: the serial numbers
/// up to the one used are spent.
pub open spec fn after_issue(v: AuthView, email: Seq<char>, now: u64) -> AuthView {
    match fresh_serial(v, email, now) {
        Some(s) => AuthView { next_serial: (s + 1) as u64, ..v },
        None => v,
    }
}

/// `first_free` gives a serial number from `s` on whose token is not in
/// `banned`.
pub proof fn lemma_first_free_sound(
    key: Seq<u8>,
    banned: Set<Seq<char>>,
    email: Seq<char>,
    expiry: u64,
    s: u64,
)
    ensures
        first_free(key, banned, email, expiry, s) matches Some(n) ==> s <= n < u64::MAX
            && !banned.contains(token_text(key, email, expiry, n)),
    decreases u64::MAX - s,
{
    if s < u64::MAX && banned.contains(token_text(key, email, expiry, s)) {
        lemma_first_free_sound(key, banned, email, expiry, (s + 1) as u64);
    }
}

/// The token minted for a well-formed address checks out at once in the
/// state after minting it.
pub proof fn lemma_issued_token_checks(v: AuthView, email: Seq<char>, now: u64)
    requires
        is_email_text(email),
        fresh_serial(v, email, now) is Some,
    ensures
        token_check(after_issue(v, email, now), session_token(v, email, now), now) == Ok::<
            Seq<char>,
            AuthAPIError,
        >(email),
{
    lemma_first_free_sound(v.key, v.banned, email, expiry_of(now), v.next_serial);
    lemma_claims_of_token(v.key, email, expiry_of(now), fresh_serial(v, email, now)->Some_0);
}

/// Tokens that differ in serial number differ.
pub proof fn lemma_serials_distinct(key: Seq<u8>, email: Seq<char>, expiry: u64, s1: u64, s2: u64)
    requires
        is_email_text(email),
        s1 != s2,
    ensures
        token_text(key, email, expiry, s1) != token_text(key, email, expiry, s2),
{
    lemma_claims_of_token(key, email, expiry, s1);
    lemma_claims_of_token(key, email, expiry, s2);
}

/// `first_free` looks only at the tokens of serial numbers from `s` on.
proof fn lemma_first_free_agrees(
    key: Seq<u8>,
    a: Set<Seq<char>>,
    b: Set<Seq<char>>,
    email: Seq<char>,
    expiry: u64,
    s: u64,
)
    requires
        forall|n: u64| n >= s ==> (a.contains(#[trigger] token_text(key, email, expiry, n)) == b.contains(
            token_text(key, email, expiry, n),
        )),
    ensures
        first_free(key, a, email, expiry, s) == first_free(key, b, email, expiry, s),
    decreases u64::MAX - s,
{
    if s < u64::MAX {
        lemma_first_free_agrees(key, a, b, email, expiry, (s + 1) as u64);
    }
}

/// Where fewer tokens are revoked than serial numbers are left from `s`, a
/// free serial number exists.
pub proof fn lemma_free_serial_exists(
    key: Seq<u8>,
    banned: Set<Seq<char>>,
    email: Seq<char>,
    expiry: u64,
    s: u64,
)
    requires
        is_email_text(email),
        banned.finite(),
        banned.len() < u64::MAX - s,
    ensures
        first_free(key, banned, email, expiry, s) is Some,
    decreases u64::MAX - s,
{
    let t = token_text(key, email, expiry, s);
    if banned.contains(t) {
        let rest = banned.remove(t);
        assert(rest.len() == banned.len() - 1);
        lemma_free_serial_exists(key, rest, email, expiry, (s + 1) as u64);
        assert forall|n: u64| n >= s + 1 implies (banned.contains(
            #[trigger] token_text(key, email, expiry, n),
        ) == rest.contains(token_text(key, email, expiry, n))) by {
            lemma_serials_distinct(key, email, expiry, s, n);
        }
        lemma_first_free_agrees(key, banned, rest, email, expiry, (s + 1) as u64);
    }
}

/// What checking token `t` at `now` in state `v` gives: its subject where its
/// signature and expiry hold and it was not revoked.
pub open spec fn token_check(v: AuthView, t: Seq<char>, now: u64) -> Result<Seq<char>, AuthAPIError> {
    match token_verdict(v.key, t, now) {
        Err(TokenError::Malformed) => Err(AuthAPIError::InvalidToken),
        Err(TokenError::Expired) => Err(AuthAPIError::TokenExpired),
        Ok((email, _)) => if v.banned.contains(t) {
            Err(AuthAPIError::TokenRevoked)
        } else {
            Ok(email)
        },
    }
}

/// The stores, the token codec, and the count of tokens minted, shared by
/// the operations.
pub struct AppState<U: UserStore, B: BannedTokenStore, T: TwoFACodeStore> {
    pub user_store: U,
    pub banned_token_store: B,
    pub two_fa_code_store: T,
    pub token_codec: TokenCodec,
    pub next_serial: u64,
}

impl<U: UserStore, B: BannedTokenStore, T: TwoFACodeStore> View for AppState<U, B, T> {
    type V = AuthView;

    open spec fn view(&self) -> AuthView {
        AuthView {
            users: self.user_store.users(),
            banned: self.banned_token_store.tokens(),
            codes: self.two_fa_code_store.codes(),
            key: self.token_codec@,
            next_serial: self.next_serial,
        }
    }
}

impl<U: UserStore, B: BannedTokenStore, T: TwoFACodeStore> AppState<U, B, T> {
    /// Every store is consistent.
    pub open spec fn wf(&self) -> bool {
        &&& self.user_store.wf()
        &&& self.banned_token_store.wf()
        &&& self.two_fa_code_store.wf()
    }

    /// A state over the given stores.
    pub fn new(user_store: U, banned_token_store: B, two_fa_code_store: T, token_codec: TokenCodec) -> (r:
        Self)
        requires
            user_store.wf(),
            banned_token_store.wf(),
            two_fa_code_store.wf(),
        ensures
            r.wf(),
            r.user_store == user_store,
            r.banned_token_store == banned_token_store,
            r.two_fa_code_store == two_fa_code_store,
            r.token_codec@ == token_codec@,
            r.next_serial == 0,
    {
        AppState { user_store, banned_token_store, two_fa_code_store, token_codec, next_serial: 0 }
    }

    /// Mints a token for `email` at `now` under the first serial number not
    /// spent whose token was not revoked, and spends the serial numbers up to
    /// it; so the token checks out at once. `None` where no such serial number
    /// is left.
    pub fn issue_token(&mut self, email: &Email, now: u64) -> (r: Option<String>)
        requires
            old(self).wf(),
        ensures
            final(self).wf(),
            final(self)@ == after_issue(old(self)@, email@, now),
            match fresh_serial(old(self)@, email@, now) {
                Some(_) => r matches Some(t) && t@ == session_token(old(self)@, email@, now)
                    && token_check(final(self)@, t@, now) == Ok::<Seq<char>, AuthAPIError>(email@),
                None => r is None,
            },
    {
        let ghost start = self@;
        let mut serial = self.next_serial;
        loop
            invariant
                self.wf(),
                start == old(self)@,
                self@ == start,
                start.next_serial <= serial,
                first_free(start.key, start.banned, email@, expiry_of(now), serial) == fresh_serial(
                    start,
                    email@,
                    now,
                ),
            decreases u64::MAX - serial,
        {
            if serial == u64::MAX {
                assert(first_free(start.key, start.banned, email@, expiry_of(now), serial) is None);
                return None;
            }
            let token = self.token_codec.mint(email, now, serial);
            if !self.banned_token_store.get_token(&token) {
                proof {
                    use_type_invariant(email);
                    Email::lemma_well_formed(email);
                    lemma_claims_of_token(start.key, email@, expiry_of(now), serial);
                    assert(first_free(start.key, start.banned, email@, expiry_of(now), serial) == Some(
                        serial,
                    ));
                }
                self.next_serial = serial + 1;
                return Some(token);
            }
            serial = serial + 1;
        }
    }
}

} // verus!
