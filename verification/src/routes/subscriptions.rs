//! Registration of a subscriber.

use crate::domain::confirmation_token::{is_token, ConfirmationToken};
use crate::domain::error::ValidationError;
use crate::domain::new_subscriber::{form_verdict, NewSubscriber};
use crate::domain::subscriber_email::SubscriberEmail;
use crate::domain::subscriber_id::SubscriberId;
use crate::domain::subscriber_name::lemma_verdict_valid;
use crate::domain::text::trimmed;
use crate::startup::ApplicationBaseUrl;
use crate::store::{
    lemma_register_adds_one, StoreError, StoreState, SubscriptionRow, SubscriptionStatus,
    SubscriptionStore,
};
use vstd::prelude::*;
use vstd::string::StringExecFns;

verus! {

/// The fields of a registration form, as the client sent them.
#[derive(Debug)]
pub struct FormData {
    pub email: String,
    pub name: String,
}

/// Why a registration fails.
#[derive(Clone, Copy, Debug, PartialEq, Eq, Structural)]
pub enum SubscribeError {
    /// A field of the form is not valid.
    ValidationError(ValidationError),
    /// The store refused the rows.
    UnexpectedError(StoreError),
}

impl SubscribeError {
    /// The status code of the response that reports this error.
    pub open spec fn status(self) -> u16 {
        match self {
            SubscribeError::ValidationError(_) => 400,
            SubscribeError::UnexpectedError(_) => 500,
        }
    }

    /// The status code of the response that reports this error: 400 for a
    /// form that is not valid, 500 for a refusal of the store.
    pub fn status_code(&self) -> (code: u16)
        ensures
            code == self.status(),
    {
        match self {
            SubscribeError::ValidationError(_) => 400,
            SubscribeError::UnexpectedError(_) => 500,
        }
    }
}

/// A registration that was written: the subscription, the address that the
/// confirmation goes to, and the token that confirms it.
#[derive(Debug)]
pub struct Registration {
    pub subscriber_id: SubscriberId,
    pub email: SubscriberEmail,
    pub token: ConfirmationToken,
}

/// Why the registration of the form with the raw fields `name` and `email`
/// fails in the store `s`, under the identifier `id` and with the token
/// `token`, if it does. The form is looked at before the store.
pub open spec fn subscribe_fault(
    s: StoreState,
    name: Seq<char>,
    email: Seq<char>,
    id: SubscriberId,
    token: Seq<char>,
) -> Option<SubscribeError> {
    match form_verdict(name, email) {
        Some(e) => Some(SubscribeError::ValidationError(e)),
        None => if s.has_subscriber(id) {
            Some(SubscribeError::UnexpectedError(StoreError::DuplicateSubscriber))
        } else if s.has_token(token) {
            Some(SubscribeError::UnexpectedError(StoreError::DuplicateToken))
        } else {
            None
        },
    }
}

/// The store after the form with the raw fields `name` and `email` was
/// registered in the store `s`, under the identifier `id` and with the
/// token `token`: one pending subscription and one token more where the
/// registration succeeds, and `s` itself where it fails.
pub open spec fn subscribe_spec(
    s: StoreState,
    name: Seq<char>,
    email: Seq<char>,
    id: SubscriberId,
    token: Seq<char>,
    subscribed_at: u64,
) -> StoreState {
    if subscribe_fault(s, name, email, id, token) is None {
        s.register(SubscriptionRow::pending(id, trimmed(name), email, subscribed_at), token)
    } else {
        s
    }
}

/// A registration with valid fields, under a fresh identifier and with a
/// fresh token, adds exactly one pending subscription and exactly one token
/// bound to it. Any other registration adds nothing. Either way the rows
/// that were there stay as they were.
pub proof fn lemma_subscribe_persists(
    s: StoreState,
    name: Seq<char>,
    email: Seq<char>,
    id: SubscriberId,
    token: Seq<char>,
    subscribed_at: u64,
)
    requires
        s.wf(),
        is_token(token),
    ensures
        subscribe_spec(s, name, email, id, token, subscribed_at).wf(),
        subscribe_fault(s, name, email, id, token) is None ==> ({
            let after = subscribe_spec(s, name, email, id, token, subscribed_at);
            &&& after.subscriptions.len() == s.subscriptions.len() + 1
            &&& after.tokens.len() == s.tokens.len() + 1
            &&& after.subscriptions.take(s.subscriptions.len() as int) == s.subscriptions
            &&& after.tokens.take(s.tokens.len() as int) == s.tokens
            &&& after.subscriptions.last() == SubscriptionRow::pending(
                id,
                trimmed(name),
                email,
                subscribed_at,
            )
            &&& after.status_of(id) == Some(SubscriptionStatus::PendingConfirmation)
            &&& after.subscriber_of(token) == Some(id)
        }),
        subscribe_fault(s, name, email, id, token) is Some ==> subscribe_spec(
            s,
            name,
            email,
            id,
            token,
            subscribed_at,
        ) == s,
{
    if subscribe_fault(s, name, email, id, token) is None {
        let row = SubscriptionRow::pending(id, trimmed(name), email, subscribed_at);
        lemma_verdict_valid(name);
        lemma_register_adds_one(s, row, token);
    }
}

/// Registers the subscriber of `form` under the identifier `id`, with the
/// token `token`: validates the form, then writes the pending subscription
/// and the token together.
pub fn subscribe_with(
    form: FormData,
    store: &mut SubscriptionStore,
    id: SubscriberId,
    token: ConfirmationToken,
    subscribed_at: u64,
) -> (r: Result<Registration, SubscribeError>)
    ensures
        final(store)@.wf(),
        final(store)@ == subscribe_spec(
            old(store)@,
            form.name@,
            form.email@,
            id,
            token@,
            subscribed_at,
        ),
        match r {
            Ok(registration) => {
                &&& subscribe_fault(old(store)@, form.name@, form.email@, id, token@) is None
                &&& registration.subscriber_id == id
                &&& registration.email@ == form.email@
                &&& registration.token@ == token@
            },
            Err(e) => subscribe_fault(old(store)@, form.name@, form.email@, id, token@) == Some(e),
        },
{
    store.show_wf();
    let subscriber = match NewSubscriber::try_from(form) {
        Ok(subscriber) => subscriber,
        Err(e) => { return Err(SubscribeError::ValidationError(e)); },
    };
    let email = subscriber.email.clone();
    let issued = token.clone();
    match store.register(subscriber, id, token, subscribed_at) {
        Ok(()) => Ok(Registration { subscriber_id: id, email, token: issued }),
        Err(e) => Err(SubscribeError::UnexpectedError(e)),
    }
}

/// Registers the subscriber of `form` under a fresh random identifier, with
/// a fresh random token. An invalid form is refused and nothing is written.
/// A valid form is written as one pending subscription with its token,
/// unless the identifier or the token that were drawn are taken already:
/// then nothing is written either. In a store without subscriptions nothing
/// is taken, and a valid form is always written.
pub fn subscribe(form: FormData, store: &mut SubscriptionStore, subscribed_at: u64) -> (r: Result<
    Registration,
    SubscribeError,
>)
    ensures
        final(store)@.wf(),
        match r {
            Ok(registration) => {
                &&& form_verdict(form.name@, form.email@) is None
                &&& !old(store)@.has_subscriber(registration.subscriber_id)
                &&& !old(store)@.has_token(registration.token@)
                &&& is_token(registration.token@)
                &&& registration.email@ == form.email@
                &&& final(store)@ == old(store)@.register(
                    SubscriptionRow::pending(
                        registration.subscriber_id,
                        trimmed(form.name@),
                        form.email@,
                        subscribed_at,
                    ),
                    registration.token@,
                )
            },
            Err(SubscribeError::ValidationError(e)) => {
                &&& form_verdict(form.name@, form.email@) == Some(e)
                &&& final(store)@ == old(store)@
            },
            Err(SubscribeError::UnexpectedError(_)) => {
                &&& form_verdict(form.name@, form.email@) is None
                &&& old(store)@.subscriptions.len() > 0
                &&& final(store)@ == old(store)@
            },
        },
{
    let id = SubscriberId::generate();
    let token = ConfirmationToken::generate();
    subscribe_with(form, store, id, token, subscribed_at)
}

/// The text of the link that confirms with `token`, under `base_url`.
pub open spec fn confirmation_link_text(base_url: Seq<char>, token: Seq<char>) -> Seq<char> {
    base_url + "/subscriptions/confirm?token="@ + token
}

/// The link that the subscriber follows to confirm with `token`.
pub fn confirmation_link(base_url: &ApplicationBaseUrl, token: &ConfirmationToken) -> (link: String)
    ensures
        link@ == confirmation_link_text(base_url.0@, token@),
{
    base_url.0.clone().concat("/subscriptions/confirm?token=").concat(token.as_ref())
}

} // verus!
