//! A subscriber that asks to be registered.

use crate::domain::error::ValidationError;
use crate::domain::subscriber_email::{is_email_address, SubscriberEmail};
use crate::domain::subscriber_name::{is_valid_name, name_verdict, SubscriberName};
use crate::domain::text::trimmed;
use crate::routes::subscriptions::FormData;
use vstd::prelude::*;

verus! {

/// Why a form with the raw fields `name` and `email` is refused, if it is.
/// A fault of the name is reported before one of the address.
pub open spec fn form_verdict(name: Seq<char>, email: Seq<char>) -> Option<ValidationError> {
    match name_verdict(name) {
        Some(e) => Some(e),
        None => if is_email_address(email) {
            None
        } else {
            Some(ValidationError::InvalidEmail)
        },
    }
}

/// A validated name together with a validated address.
#[derive(Debug)]
pub struct NewSubscriber {
    pub email: SubscriberEmail,
    pub name: SubscriberName,
}

impl NewSubscriber {
    /// Validates the name of `form`, then its address, and keeps both where
    /// both are valid.
    pub fn try_from(form: FormData) -> (r: Result<NewSubscriber, ValidationError>)
        ensures
            match r {
                Ok(subscriber) => {
                    &&& form_verdict(form.name@, form.email@) is None
                    &&& subscriber.name@ == trimmed(form.name@)
                    &&& subscriber.email@ == form.email@
                    &&& is_valid_name(subscriber.name@)
                    &&& is_email_address(subscriber.email@)
                },
                Err(e) => form_verdict(form.name@, form.email@) == Some(e),
            },
    {
        let name = match SubscriberName::parse(form.name) {
            Ok(name) => name,
            Err(e) => { return Err(e); },
        };
        let email = match SubscriberEmail::parse(form.email) {
            Ok(email) => email,
            Err(e) => { return Err(e); },
        };
        Ok(NewSubscriber { name, email })
    }
}

} // verus!
