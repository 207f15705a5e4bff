use vstd::prelude::*;

verus! {

/// Whether `s` is a well-formed email address.
pub uninterp spec fn email_is_valid(s: Seq<char>) -> bool;

/// Relies on validator's `validate_email`: whether the text is an email address
/// with a valid local part and domain. It refuses the empty string and any text
/// without an `@`.
#[verifier::external_body]
fn validate_email(s: &str) -> (r: bool)
    ensures
        r == email_is_valid(s@),
        s@.len() == 0 ==> !r,
        !s@.contains('@') ==> !r,
{
    validator::validate_email(s)
}

/// An email address that has passed validation.
#[derive(Debug)]
pub struct SubscriberEmail(String);

impl View for SubscriberEmail {
    type V = Seq<char>;

    closed spec fn view(&self) -> Seq<char> {
        self.0@
    }
}

impl SubscriberEmail {
    /// Accepts `s` verbatim if it is a valid email address; otherwise hands
    /// it back unchanged as the error.
    pub fn parse(s: String) -> (r: Result<SubscriberEmail, String>)
        ensures
            match r {
                Ok(e) => email_is_valid(s@) && e@ == s@,
                Err(raw) => !email_is_valid(s@) && raw@ == s@,
            },
    {
        if validate_email(s.as_str()) {
            Ok(SubscriberEmail(s))
        } else {
            Err(s)
        }
    }

    /// The address as text.
    pub fn as_str(&self) -> (r: &str)
        ensures
            r@ == self@,
    {
        self.0.as_str()
    }
}

} // verus!
