//! Confirmation of a subscription by its token.

use crate::domain::subscriber_id::SubscriberId;
use crate::domain::confirmation_token::is_token;
use crate::routes::subscriptions::{lemma_subscribe_persists, subscribe_fault, subscribe_spec};
use crate::store::{
    lemma_confirmed_emails_complete, lemma_mark_confirmed_commutes, lemma_mark_confirmed_effect,
    lemma_mark_confirmed_idempotent, lemma_no_orphans, StoreState, SubscriptionStatus,
    SubscriptionStore,
};
use vstd::prelude::*;
use vstd::string::StringExecFns;

verus! {

/// The parameters of a confirmation request.
#[derive(Debug)]
pub struct Params {
    pub token: String,
}

/// What was being done when the store failed.
#[derive(Clone, Copy, Debug, PartialEq, Eq, Structural)]
pub enum ConfirmStage {
    /// Looking up the subscription that the token is bound to.
    Lookup,
    /// Setting the subscription to confirmed.
    Update,
}

/// Why a confirmation fails.
#[derive(Debug, PartialEq, Eq)]
pub enum ConfirmError {
    /// The token is bound to no subscription.
    InvalidTokenError,
    /// The store failed at `stage`; `cause` is what it reported.
    UnexpectedError { stage: ConfirmStage, cause: String },
}

/// What the handler does once the store has answered the lookup.
#[derive(Debug, PartialEq, Eq)]
pub enum ConfirmStep {
    /// Set this subscription to confirmed.
    MarkConfirmed(SubscriberId),
    /// Answer with this error.
    Reject(ConfirmError),
}

impl ConfirmStage {
    /// The text that says what was being done at this stage.
    pub open spec fn context_text(self) -> Seq<char> {
        match self {
            ConfirmStage::Lookup => "Failed to retrieve subscriber id from token"@,
            ConfirmStage::Update => "Failed to confirm subscriber"@,
        }
    }

    /// What was being done at this stage, in words.
    pub fn context(&self) -> (text: String)
        ensures
            text@ == self.context_text(),
    {
        match self {
            ConfirmStage::Lookup => String::from_str("Failed to retrieve subscriber id from token"),
            ConfirmStage::Update => String::from_str("Failed to confirm subscriber"),
        }
    }
}

impl ConfirmError {
    /// The status code of the response that reports this error.
    pub open spec fn status(self) -> u16 {
        match self {
            ConfirmError::InvalidTokenError => 401,
            ConfirmError::UnexpectedError { .. } => 500,
        }
    }

    /// The text of the message of this error.
    pub open spec fn message_text(self) -> Seq<char> {
        match self {
            ConfirmError::InvalidTokenError => "invalid token provided"@,
            ConfirmError::UnexpectedError { stage, .. } => stage.context_text(),
        }
    }

    /// The status code of the response that reports this error: 401 for a
    /// token that is not known, 500 for a failure of the store.
    pub fn status_code(&self) -> (code: u16)
        ensures
            code == self.status(),
    {
        match self {
            ConfirmError::InvalidTokenError => 401,
            ConfirmError::UnexpectedError { .. } => 500,
        }
    }

    /// The message of this error.
    pub fn message(&self) -> (text: String)
        ensures
            text@ == self.message_text(),
    {
        match self {
            ConfirmError::InvalidTokenError => String::from_str("invalid token provided"),
            ConfirmError::UnexpectedError { stage, .. } => stage.context(),
        }
    }
}

/// What follows the lookup of a token: a subscription that was found is to
/// be confirmed, a token that is not known is rejected as invalid, and a
/// failure of the store is reported as such, with its cause.
pub fn after_lookup(lookup: Result<Option<SubscriberId>, String>) -> (step: ConfirmStep)
    ensures
        step == match lookup {
            Ok(Some(id)) => ConfirmStep::MarkConfirmed(id),
            Ok(None) => ConfirmStep::Reject(ConfirmError::InvalidTokenError),
            Err(cause) => ConfirmStep::Reject(
                ConfirmError::UnexpectedError { stage: ConfirmStage::Lookup, cause },
            ),
        },
{
    match lookup {
        Ok(Some(id)) => ConfirmStep::MarkConfirmed(id),
        Ok(None) => ConfirmStep::Reject(ConfirmError::InvalidTokenError),
        Err(cause) => ConfirmStep::Reject(
            ConfirmError::UnexpectedError { stage: ConfirmStage::Lookup, cause },
        ),
    }
}

/// What follows the update of a subscription: success, or the failure of
/// the store with its cause.
pub fn after_update(update: Result<(), String>) -> (r: Result<(), ConfirmError>)
    ensures
        r == match update {
            Ok(()) => Ok::<(), ConfirmError>(()),
            Err(cause) => Err(ConfirmError::UnexpectedError { stage: ConfirmStage::Update, cause }),
        },
{
    match update {
        Ok(()) => Ok(()),
        Err(cause) => Err(ConfirmError::UnexpectedError { stage: ConfirmStage::Update, cause }),
    }
}

/// The store and the answer after the token `token` was redeemed in the
/// store `s`.
pub open spec fn confirm_spec(s: StoreState, token: Seq<char>) -> (StoreState, Result<
    (),
    ConfirmError,
>) {
    match s.subscriber_of(token) {
        Some(id) => (s.mark_confirmed(id), Ok(())),
        None => (s, Err(ConfirmError::InvalidTokenError)),
    }
}

/// Redeeming a token that was issued succeeds and sets the subscription that
/// it is bound to to confirmed, whatever it was before. No other
/// subscription and no token changes.
pub proof fn lemma_confirm_issued_token(s: StoreState, token: Seq<char>)
    requires
        s.wf(),
        s.has_token(token),
    ensures
        confirm_spec(s, token).1 is Ok,
        confirm_spec(s, token).0.wf(),
        confirm_spec(s, token).0.status_of(s.subscriber_of(token).unwrap()) == Some(
            SubscriptionStatus::Confirmed,
        ),
        confirm_spec(s, token).0.tokens == s.tokens,
        forall|other: SubscriberId|
            other != s.subscriber_of(token).unwrap() ==> #[trigger] confirm_spec(
                s,
                token,
            ).0.status_of(other) == s.status_of(other),
{
    let id = s.subscriber_of(token).unwrap();
    lemma_no_orphans(s);
    lemma_mark_confirmed_effect(s, id);
}

/// Redeeming a token a second time succeeds again and changes nothing.
pub proof fn lemma_confirm_twice(s: StoreState, token: Seq<char>)
    requires
        s.wf(),
        s.has_token(token),
    ensures
        confirm_spec(confirm_spec(s, token).0, token) == confirm_spec(s, token),
{
    let id = s.subscriber_of(token).unwrap();
    let once = confirm_spec(s, token).0;
    assert(once.tokens == s.tokens);
    assert(once.has_token(token));
    assert(once.subscriber_of(token) == Some(id));
    lemma_mark_confirmed_idempotent(s, id);
}

/// Two redemptions may come in any order, and the steps of one may fall
/// between the steps of the other: a confirmation in between changes no
/// lookup, and the store that is left is the same whichever comes first.
pub proof fn lemma_confirm_any_order(s: StoreState, first: Seq<char>, second: Seq<char>)
    requires
        s.wf(),
    ensures
        confirm_spec(s, first).0.subscriber_of(second) == s.subscriber_of(second),
        confirm_spec(confirm_spec(s, first).0, second).0 == confirm_spec(
            confirm_spec(s, second).0,
            first,
        ).0,
        confirm_spec(confirm_spec(s, first).0, second).1 == confirm_spec(s, second).1,
{
    assert(confirm_spec(s, first).0.tokens == s.tokens);
    assert(confirm_spec(s, second).0.tokens == s.tokens);
    assert(confirm_spec(s, first).0.subscriber_of(second) == s.subscriber_of(second));
    assert(confirm_spec(s, second).0.subscriber_of(first) == s.subscriber_of(first));
    if s.subscriber_of(first) is Some && s.subscriber_of(second) is Some {
        lemma_mark_confirmed_commutes(
            s,
            s.subscriber_of(first).unwrap(),
            s.subscriber_of(second).unwrap(),
        );
    }
}

/// Redeeming a token that was never issued is answered with
/// `InvalidTokenError` and leaves the store as it was.
pub proof fn lemma_confirm_unknown_token(s: StoreState, token: Seq<char>)
    requires
        !s.has_token(token),
    ensures
        confirm_spec(s, token) == (s, Err::<(), ConfirmError>(ConfirmError::InvalidTokenError)),
{
}

/// From registration to dispatch: a subscriber that has registered and then
/// redeemed the token issued at registration is confirmed, and its address
/// is among the recipients of a dispatch. Before the token is redeemed, the
/// subscription is pending.
pub proof fn lemma_registered_then_confirmed(
    s: StoreState,
    name: Seq<char>,
    email: Seq<char>,
    id: SubscriberId,
    token: Seq<char>,
    subscribed_at: u64,
)
    requires
        s.wf(),
        is_token(token),
        subscribe_fault(s, name, email, id, token) is None,
    ensures
        ({
            let registered = subscribe_spec(s, name, email, id, token, subscribed_at);
            let confirmed = confirm_spec(registered, token);
            &&& registered.status_of(id) == Some(SubscriptionStatus::PendingConfirmation)
            &&& confirmed.1 is Ok
            &&& confirmed.0.wf()
            &&& confirmed.0.status_of(id) == Some(SubscriptionStatus::Confirmed)
            &&& confirmed.0.confirmed_emails().contains(email)
        }),
{
    let registered = subscribe_spec(s, name, email, id, token, subscribed_at);
    lemma_subscribe_persists(s, name, email, id, token, subscribed_at);
    lemma_confirm_issued_token(registered, token);
    let confirmed = confirm_spec(registered, token).0;
    let last = registered.subscriptions.len() - 1;
    assert(registered.subscriptions[last].id == id);
    assert(confirmed.subscriptions[last] == registered.subscriptions[last].confirmed());
    lemma_confirmed_emails_complete(confirmed.subscriptions, last);
}

/// Redeems the token of `params`: the subscription that it is bound to is
/// set to confirmed, whether it was pending or confirmed already. A token
/// that is bound to none is rejected, and the store stays as it was.
pub fn confirm(params: Params, store: &mut SubscriptionStore) -> (r: Result<(), ConfirmError>)
    ensures
        final(store)@.wf(),
        (final(store)@, r) == confirm_spec(old(store)@, params.token@),
{
    let found = get_subscriber_id_from_token(store, params.token.as_str());
    match after_lookup(Ok(found)) {
        ConfirmStep::Reject(e) => Err(e),
        ConfirmStep::MarkConfirmed(subscriber_id) => {
            confirm_subscriber(store, subscriber_id);
            after_update(Ok(()))
        },
    }
}

/// Sets the subscription `subscriber_id` to confirmed. Where it is
/// confirmed already, or where there is none, nothing changes.
pub fn confirm_subscriber(store: &mut SubscriptionStore, subscriber_id: SubscriberId)
    ensures
        final(store)@.wf(),
        final(store)@ == old(store)@.mark_confirmed(subscriber_id),
{
    store.mark_confirmed(subscriber_id)
}

/// The subscription that `subscription_token` is bound to, if it is bound.
pub fn get_subscriber_id_from_token(store: &SubscriptionStore, subscription_token: &str) -> (found:
    Option<SubscriberId>)
    ensures
        store@.wf(),
        found == store@.subscriber_of(subscription_token@),
{
    store.find_subscriber_id_by_token(subscription_token)
}

} // verus!
