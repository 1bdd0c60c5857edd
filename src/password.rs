use vstd::prelude::*;

verus! {

/// Fewest bytes that a password may have.
pub const MIN_PASSWORD_BYTES: usize = 8;

/// The text of an acceptable password: at least eight bytes once encoded.
pub open spec fn is_password_text(s: Seq<char>) -> bool {
    vstd::utf8::encode_utf8(s).len() >= MIN_PASSWORD_BYTES
}

/// A password that has passed the length rule. `parse` is the only way to
/// build one.
#[derive(Debug, PartialEq, Eq)]
pub struct Password(String);

impl View for Password {
    type V = Seq<char>;

    closed spec fn view(&self) -> Seq<char> {
        self.0@
    }
}

impl Clone for Password {
    fn clone(&self) -> (r: Self)
        ensures
            r@ == self@,
    {
        Password(self.0.clone())
    }
}

impl Password {
    /// Accepts `s` exactly when it is at least eight bytes long.
    pub fn parse(s: String) -> (r: Result<Password, String>)
        ensures
            r is Ok <==> is_password_text(s@),
            r matches Ok(p) ==> p@ == s@,
    {
        let bytes = s.as_str().as_bytes();
        if bytes.len() >= MIN_PASSWORD_BYTES {
            Ok(Password(s))
        } else {
            Err(String::from_str("length must be greater than or equal to 8"))
        }
    }

    /// The password as text.
    pub fn as_str(&self) -> (r: &str)
        ensures
            r@ == self@,
    {
        self.0.as_str()
    }

    /// Whether two passwords are the same text.
    pub fn same_as(&self, other: &Password) -> (r: bool)
        ensures
            r == (self@ == other@),
    {
        self.0 == other.0
    }
}

impl AsRef<str> for Password {
    fn as_ref(&self) -> &str {
        self.as_str()
    }
}

} // verus!
