use vstd::prelude::*;
use crate::email::{is_email_text, Email};
use crate::hex::{
    all_hex, hex_fixed, hex_of_bytes, hex_value, lemma_fixed_of_value, lemma_hex_fixed_shape,
    lemma_hex_of_bytes_len, lemma_pow16_16, lemma_value_of_fixed, parse_hex_u64, pow16,
    push_hex_fixed, push_hex_of_bytes,
};
use crate::primitives::{hmac_sha256, hmac_sha256_of};

verus! {

/// How long a session token stays valid after it is minted, in seconds.
pub const TOKEN_TTL_SECONDS: u64 = 600;

/// Characters of the signature at the head of a token.
pub const SIGNATURE_CHARS: usize = 64;

/// Characters of the expiry that follows the signature.
pub const EXPIRY_CHARS: usize = 16;

/// Characters of the serial number that follows the expiry.
pub const SERIAL_CHARS: usize = 16;

/// Characters ahead of the subject: signature, expiry, serial number.
pub const HEAD_CHARS: usize = 96;

/// Why a token was refused.
#[derive(Debug, Clone, Copy, PartialEq, Eq, Structural)]
pub enum TokenError {
    /// The text is no token signed with this codec's key.
    Malformed,
    /// The token's expiry has passed.
    Expired,
}

/// What a token asserts: whose it is, when it expires, and its serial number.
pub struct Claims {
    pub email: Seq<char>,
    pub expiry: u64,
    pub serial: u64,
}

/// The instant at which a token minted at `now` expires (saturating).
pub open spec fn expiry_of(now: u64) -> u64 {
    if now <= u64::MAX - TOKEN_TTL_SECONDS {
        (now + TOKEN_TTL_SECONDS) as u64
    } else {
        u64::MAX
    }
}

/// The 32 bytes of the signature over `claims`.
pub open spec fn tag_of(key: Seq<u8>, claims: Seq<char>) -> Seq<u8> {
    Seq::new(32, |i: int| hmac_sha256_of(key, claims)[i])
}

/// The signature over `claims`, as 64 hexadecimal digits.
pub open spec fn signature_text(key: Seq<u8>, claims: Seq<char>) -> Seq<char> {
    hex_of_bytes(tag_of(key, claims))
}

/// The signed part of a token: expiry and serial number in sixteen
/// hexadecimal digits each, then the subject's email address.
pub open spec fn claims_text(email: Seq<char>, expiry: u64, serial: u64) -> Seq<char> {
    hex_fixed(expiry as nat, EXPIRY_CHARS as nat) + hex_fixed(serial as nat, SERIAL_CHARS as nat)
        + email
}

/// The token for `email` with `expiry` and `serial` under `key`: the
/// signature over the claims, then the claims.
pub open spec fn token_text(key: Seq<u8>, email: Seq<char>, expiry: u64, serial: u64) -> Seq<char> {
    signature_text(key, claims_text(email, expiry, serial)) + claims_text(email, expiry, serial)
}

/// The claims that `t` carries, where `t` is laid out as a token, its
/// signature is right under `key`, and its subject is an email address.
pub open spec fn token_claims(key: Seq<u8>, t: Seq<char>) -> Option<Claims> {
    let sig = SIGNATURE_CHARS as int;
    let mid = (SIGNATURE_CHARS + EXPIRY_CHARS) as int;
    let head = HEAD_CHARS as int;
    if t.len() >= head && all_hex(t.subrange(sig, mid)) && all_hex(t.subrange(mid, head))
        && t.subrange(0, sig) == signature_text(key, t.subrange(sig, t.len() as int))
        && is_email_text(t.subrange(head, t.len() as int)) {
        Some(
            Claims {
                email: t.subrange(head, t.len() as int),
                expiry: hex_value(t.subrange(sig, mid)) as u64,
                serial: hex_value(t.subrange(mid, head)) as u64,
            },
        )
    } else {
        None
    }
}

/// What checking `t` at instant `now` gives: its subject and serial number,
/// or why not.
pub open spec fn token_verdict(key: Seq<u8>, t: Seq<char>, now: u64) -> Result<
    (Seq<char>, u64),
    TokenError,
> {
    match token_claims(key, t) {
        None => Err(TokenError::Malformed),
        Some(c) => if c.expiry < now {
            Err(TokenError::Expired)
        } else {
            Ok((c.email, c.serial))
        },
    }
}

/// A token reads back as the claims it was made with.
pub proof fn lemma_claims_of_token(key: Seq<u8>, email: Seq<char>, expiry: u64, serial: u64)
    requires
        is_email_text(email),
    ensures
        token_claims(key, token_text(key, email, expiry, serial)) == Some(
            Claims { email, expiry, serial },
        ),
{
    let c = claims_text(email, expiry, serial);
    let sig = signature_text(key, c);
    let t = token_text(key, email, expiry, serial);
    lemma_hex_of_bytes_len(tag_of(key, c));
    lemma_hex_fixed_shape(expiry as nat, 16);
    lemma_hex_fixed_shape(serial as nat, 16);
    lemma_pow16_16();
    lemma_value_of_fixed(expiry as nat, 16);
    lemma_value_of_fixed(serial as nat, 16);
    assert(t.subrange(0, 64) =~= sig);
    assert(t.subrange(64, t.len() as int) =~= c);
    assert(t.subrange(64, 80) =~= hex_fixed(expiry as nat, 16));
    assert(t.subrange(80, 96) =~= hex_fixed(serial as nat, 16));
    assert(t.subrange(96, t.len() as int) =~= email);
}

/// Whatever reads back as claims is the token made with them.
pub proof fn lemma_token_of_claims(key: Seq<u8>, t: Seq<char>)
    ensures
        token_claims(key, t) matches Some(c) ==> t == token_text(key, c.email, c.expiry, c.serial),
{
    if token_claims(key, t) is Some {
        let e_digits = t.subrange(64, 80);
        let s_digits = t.subrange(80, 96);
        let email = t.subrange(96, t.len() as int);
        lemma_fixed_of_value(e_digits);
        lemma_fixed_of_value(s_digits);
        lemma_pow16_16();
        let expiry = hex_value(e_digits) as u64;
        let serial = hex_value(s_digits) as u64;
        assert(hex_fixed(expiry as nat, 16) == e_digits);
        assert(hex_fixed(serial as nat, 16) == s_digits);
        assert(claims_text(email, expiry, serial) =~= t.subrange(64, t.len() as int));
        assert(t =~= t.subrange(0, 64) + t.subrange(64, t.len() as int));
    }
}

/// A token minted at `now` checks out at `now`, as its subject and serial.
pub proof fn lemma_verify_minted(key: Seq<u8>, email: Seq<char>, now: u64, serial: u64)
    requires
        is_email_text(email),
    ensures
        token_verdict(key, token_text(key, email, expiry_of(now), serial), now) == Ok::<
            (Seq<char>, u64),
            TokenError,
        >((email, serial)),
{
    lemma_claims_of_token(key, email, expiry_of(now), serial);
}

/// Text that is no token of `key` for any claims is refused as malformed, at
/// every instant.
pub proof fn lemma_unminted_is_malformed(key: Seq<u8>, t: Seq<char>, now: u64)
    requires
        forall|email: Seq<char>, expiry: u64, serial: u64|
            t != #[trigger] token_text(key, email, expiry, serial),
    ensures
        token_verdict(key, t, now) == Err::<(Seq<char>, u64), TokenError>(TokenError::Malformed),
{
    lemma_token_of_claims(key, t);
}

/// Whether `a` and `b`, of one length, are the same text. Every character is
/// compared, wherever the first difference stands, so the time taken does not
/// tell where it is.
fn same_text(a: &str, b: &str) -> (r: bool)
    requires
        a@.len() == b@.len(),
    ensures
        r == (a@ == b@),
{
    let n = a.unicode_len();
    let mut same = true;
    let mut i: usize = 0;
    while i < n
        invariant
            n == a@.len() == b@.len(),
            i <= n,
            same == (a@.subrange(0, i as int) =~= b@.subrange(0, i as int)),
        decreases n - i,
    {
        let x = a.get_char(i);
        let y = b.get_char(i);
        proof {
            let pa = a@.subrange(0, i as int);
            let pb = b@.subrange(0, i as int);
            assert(a@.subrange(0, i + 1) =~= pa.push(x));
            assert(b@.subrange(0, i + 1) =~= pb.push(y));
            if pa.push(x) =~= pb.push(y) {
                assert(pa.push(x)[i as int] == pb.push(y)[i as int]);
                assert forall|j: int| 0 <= j < i implies pa[j] == pb[j] by {
                    assert(pa.push(x)[j] == pb.push(y)[j]);
                }
            }
        }
        let equal = x == y;
        same = same && equal;
        i = i + 1;
    }
    assert(a@.subrange(0, n as int) =~= a@);
    assert(b@.subrange(0, n as int) =~= b@);
    same
}

/// Mints and checks session tokens under one secret key.
pub struct TokenCodec {
    key: Vec<u8>,
}

impl View for TokenCodec {
    type V = Seq<u8>;

    closed spec fn view(&self) -> Seq<u8> {
        self.key@
    }
}

impl Clone for TokenCodec {
    fn clone(&self) -> (r: Self)
        ensures
            r@ == self@,
    {
        TokenCodec { key: self.key.clone() }
    }
}

impl TokenCodec {
    /// A codec that signs with `key`.
    pub fn new(key: Vec<u8>) -> (r: TokenCodec)
        ensures
            r@ == key@,
    {
        TokenCodec { key }
    }

    fn signature(&self, claims: &str) -> (r: String)
        ensures
            r@ == signature_text(self@, claims@),
    {
        let tag = hmac_sha256(self.key.as_slice(), claims);
        assert(tag@ =~= tag_of(self@, claims@));
        let mut out = String::new();
        push_hex_of_bytes(&mut out, tag.as_slice());
        out
    }

    /// The token for `email` with serial number `serial`, minted at instant
    /// `now`: it expires `TOKEN_TTL_SECONDS` later.
    pub fn mint(&self, email: &Email, now: u64, serial: u64) -> (r: String)
        ensures
            r@ == token_text(self@, email@, expiry_of(now), serial),
    {
        let expiry = if now <= u64::MAX - TOKEN_TTL_SECONDS {
            now + TOKEN_TTL_SECONDS
        } else {
            u64::MAX
        };
        let mut claims = String::new();
        push_hex_fixed(&mut claims, expiry, EXPIRY_CHARS);
        push_hex_fixed(&mut claims, serial, SERIAL_CHARS);
        claims.append(email.as_str());
        let mut out = self.signature(claims.as_str());
        out.append(claims.as_str());
        assert(claims@ =~= claims_text(email@, expiry, serial));
        out
    }

    /// Checks `token` at instant `now`: its subject and serial number where
    /// it is a token of this key that has not expired.
    pub fn verify(&self, token: &str, now: u64) -> (r: Result<(Email, u64), TokenError>)
        ensures
            match r {
                Ok((e, serial)) => token_verdict(self@, token@, now) == Ok::<
                    (Seq<char>, u64),
                    TokenError,
                >((e@, serial)),
                Err(err) => token_verdict(self@, token@, now) == Err::<(Seq<char>, u64), TokenError>(
                    err,
                ),
            },
    {
        let n = token.unicode_len();
        if n < HEAD_CHARS {
            return Err(TokenError::Malformed);
        }
        let mid = SIGNATURE_CHARS + EXPIRY_CHARS;
        let e_digits = token.substring_char(SIGNATURE_CHARS, mid);
        let expiry = match parse_hex_u64(e_digits) {
            Some(v) => v,
            None => return Err(TokenError::Malformed),
        };
        let s_digits = token.substring_char(mid, HEAD_CHARS);
        let serial = match parse_hex_u64(s_digits) {
            Some(v) => v,
            None => return Err(TokenError::Malformed),
        };
        let claims = token.substring_char(SIGNATURE_CHARS, n);
        let given = token.substring_char(0, SIGNATURE_CHARS);
        let expected = self.signature(claims);
        proof {
            lemma_hex_of_bytes_len(tag_of(self@, claims@));
        }
        if !same_text(expected.as_str(), given) {
            return Err(TokenError::Malformed);
        }
        let subject = token.substring_char(HEAD_CHARS, n).to_owned();
        let email = match Email::parse(subject) {
            Ok(e) => e,
            Err(_) => return Err(TokenError::Malformed),
        };
        proof {
            lemma_fixed_of_value(e_digits@);
            lemma_fixed_of_value(s_digits@);
            lemma_pow16_16();
        }
        if expiry < now {
            Err(TokenError::Expired)
        } else {
            Ok((email, serial))
        }
    }
}

} // verus!
