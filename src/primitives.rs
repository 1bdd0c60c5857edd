use hmac::Mac;
use rand::Rng;
use vstd::prelude::*;

verus! {

/// The canonical (lower-case, hyphenated) text of the UUID that `s` denotes,
/// or `None` where `s` is no UUID.
pub uninterp spec fn uuid_text_of(s: Seq<char>) -> Option<Seq<char>>;

/// The HMAC-SHA256 tag of the UTF-8 encoding of `msg` under `key`.
pub uninterp spec fn hmac_sha256_of(key: Seq<u8>, msg: Seq<char>) -> Seq<u8>;

/// Relies on `uuid::Uuid::parse_str` to read a UUID in any of its accepted
/// forms, and on `Uuid`'s `Display` to write it back in hyphenated form.
#[verifier::external_body]
pub(crate) fn parse_uuid(s: &str) -> (r: Result<String, String>)
    ensures
        match r {
            Ok(t) => uuid_text_of(s@) == Some(t@),
            Err(_) => uuid_text_of(s@) is None,
        },
{
    match uuid::Uuid::parse_str(s) {
        Ok(u) => Ok(u.to_string()),
        Err(e) => Err(e.to_string()),
    }
}

/// Relies on `uuid::Uuid::new_v4` for a fresh random UUID, written by its
/// `Display` in lower-case hyphenated form (36 characters), which
/// `Uuid::parse_str` reads back as the same UUID.
#[verifier::external_body]
pub(crate) fn fresh_uuid() -> (r: String)
    ensures
        r@.len() == 36,
        uuid_text_of(r@) == Some(r@),
{
    uuid::Uuid::new_v4().to_string()
}

/// Relies on `rand::Rng::gen_range` over `thread_rng` for a number drawn
/// from `0..bound`; it panics on an empty range, which `requires` excludes.
#[verifier::external_body]
pub(crate) fn random_below(bound: u32) -> (r: u32)
    requires
        bound > 0,
    ensures
        r < bound,
{
    rand::thread_rng().gen_range(0..bound)
}

/// Relies on `hmac::Hmac<sha2::Sha256>`: its key may have any length, and
/// the tag it gives is 32 bytes.
#[verifier::external_body]
pub(crate) fn hmac_sha256(key: &[u8], msg: &str) -> (r: Vec<u8>)
    ensures
        r@ == hmac_sha256_of(key@, msg@),
        r@.len() == 32,
{
    let mut mac = <hmac::Hmac<sha2::Sha256> as Mac>::new_from_slice(key)
        .expect("HMAC takes a key of any length");
    mac.update(msg.as_bytes());
    mac.finalize().into_bytes().to_vec()
}

} // verus!
