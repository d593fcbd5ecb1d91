//! The subscription store: the table of subscriptions and the table of
//! tokens, kept together.

pub mod laws;
pub mod memory;
pub mod state;

pub use laws::{
    lemma_binding_is_permanent, lemma_commit_registration, lemma_commit_wf,
    lemma_confirmed_emails_complete, lemma_confirmed_emails_len, lemma_confirmed_emails_sound,
    lemma_confirmed_emails_valid, lemma_confirmed_is_final, lemma_mark_confirmed_commutes,
    lemma_mark_confirmed_effect, lemma_mark_confirmed_idempotent, lemma_mark_confirmed_wf,
    lemma_no_orphans, lemma_no_partial_commit, lemma_register_adds_one, lemma_register_wf,
    lemma_subscriber_index, lemma_token_index,
};
pub use memory::{Subscription, SubscriptionStore, UnitOfWork};
pub use state::{
    confirmed_emails_of, StoreError, StoreState, SubscriptionRow, SubscriptionStatus, TokenRow,
};
