//! The email address of a subscriber.

use crate::domain::error::ValidationError;
use vstd::prelude::*;

verus! {

/// Whether `s` follows the grammar of email addresses.
pub uninterp spec fn is_email_address(s: Seq<char>) -> bool;

/// Asks `validator::validate_email` whether `s` follows the grammar of email
/// addresses. The answer depends on the characters of `s` alone, and no text
/// without an `@` is accepted, the empty text included.
#[verifier::external_body]
fn validate_email(s: &str) -> (ok: bool)
    ensures
        ok == is_email_address(s@),
        ok ==> s@.contains('@'),
{
    validator::validate_email(s)
}

/// A subscriber's email address, syntactically valid.
#[derive(Debug)]
pub struct SubscriberEmail(String);

impl View for SubscriberEmail {
    type V = Seq<char>;

    closed spec fn view(&self) -> Seq<char> {
        self.0@
    }
}

impl SubscriberEmail {
    #[verifier::type_invariant]
    spec fn valid(self) -> bool {
        is_email_address(self.0@) && self.0@.contains('@')
    }

    /// Makes an address of `s` where it follows the grammar of email
    /// addresses, unchanged. Nothing but the syntax is looked at.
    pub fn parse(s: String) -> (r: Result<SubscriberEmail, ValidationError>)
        ensures
            match r {
                Ok(email) => is_email_address(s@) && email@ == s@,
                Err(e) => !is_email_address(s@) && e == ValidationError::InvalidEmail,
            },
            !s@.contains('@') ==> r is Err,
    {
        if validate_email(s.as_str()) {
            Ok(SubscriberEmail(s))
        } else {
            Err(ValidationError::InvalidEmail)
        }
    }

    /// The text of the address.
    pub fn as_ref(&self) -> (s: &str)
        ensures
            s@ == self@,
            is_email_address(s@),
            s@.contains('@'),
    {
        proof {
            use_type_invariant(self);
        }
        self.0.as_str()
    }
}

impl PartialEq for SubscriberEmail {
    /// Two addresses are equal where their texts are.
    fn eq(&self, other: &Self) -> (same: bool) {
        self.0 == other.0
    }
}

impl Eq for SubscriberEmail {

}

impl vstd::std_specs::cmp::PartialEqSpecImpl for SubscriberEmail {
    open spec fn obeys_eq_spec() -> bool {
        true
    }

    open spec fn eq_spec(&self, other: &Self) -> bool {
        self@ == other@
    }
}

impl Clone for SubscriberEmail {
    fn clone(&self) -> (c: Self)
        ensures
            c@ == self@,
    {
        proof {
            use_type_invariant(self);
        }
        SubscriberEmail(self.0.clone())
    }
}

} // verus!
