use vstd::prelude::*;

verus! {

/// The text of a well-formed email address: it holds an `@`.
pub open spec fn is_email_text(s: Seq<char>) -> bool {
    s.contains('@')
}

/// An email address. `parse` is the only way to build one, so every value
/// holds an `@`.
#[derive(Debug, PartialEq, Eq, Hash)]
pub struct Email(String);

impl View for Email {
    type V = Seq<char>;

    closed spec fn view(&self) -> Seq<char> {
        self.0@
    }
}

impl Clone for Email {
    fn clone(&self) -> (r: Self)
        ensures
            r@ == self@,
    {
        proof {
            use_type_invariant(self);
        }
        Email(self.0.clone())
    }
}

impl Email {
    /// Every address holds an `@`.
    #[verifier::type_invariant]
    pub closed spec fn inv(&self) -> bool {
        is_email_text(self.0@)
    }

    /// The invariant of an address: its text holds an `@`.
    pub proof fn lemma_well_formed(e: &Email)
        requires
            e.inv(),
        ensures
            is_email_text(e@),
    {
    }

    /// Accepts `s` exactly when it holds an `@`.
    pub fn parse(s: String) -> (r: Result<Email, String>)
        ensures
            r is Ok <==> is_email_text(s@),
            r matches Ok(e) ==> e@ == s@,
    {
        let n = s.as_str().unicode_len();
        let mut i: usize = 0;
        while i < n
            invariant
                n == s@.len(),
                i <= n,
                forall|j: int| 0 <= j < i ==> s@[j] != '@',
            decreases n - i,
        {
            if s.as_str().get_char(i) == '@' {
                return Ok(Email(s));
            }
            i = i + 1;
        }
        Err(String::from_str("missing '@' sign in email address"))
    }

    /// The address as text.
    pub fn as_str(&self) -> (r: &str)
        ensures
            r@ == self@,
    {
        self.0.as_str()
    }

    /// Whether two addresses are the same text.
    pub fn same_as(&self, other: &Email) -> (r: bool)
        ensures
            r == (self@ == other@),
    {
        self.0 == other.0
    }
}

impl AsRef<str> for Email {
    fn as_ref(&self) -> &str {
        self.as_str()
    }
}

} // verus!
