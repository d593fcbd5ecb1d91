//! The store, kept in memory.

use crate::domain::confirmation_token::{is_token, ConfirmationToken};
use crate::domain::new_subscriber::NewSubscriber;
use crate::domain::subscriber_email::{is_email_address, SubscriberEmail};
use crate::domain::subscriber_id::SubscriberId;
use crate::domain::subscriber_name::{is_valid_name, SubscriberName};
use crate::store::laws::{
    lemma_commit_registration, lemma_commit_wf, lemma_mark_confirmed_wf, lemma_subscriber_index,
};
use crate::store::state::{
    confirmed_emails_of, StoreError, StoreState, SubscriptionRow, SubscriptionStatus, TokenRow,
};
use vstd::prelude::*;

verus! {

/// A subscription as the store keeps it.
#[derive(Debug)]
pub struct Subscription {
    pub id: SubscriberId,
    pub email: SubscriberEmail,
    pub name: SubscriberName,
    pub subscribed_at: u64,
    pub status: SubscriptionStatus,
}

impl View for Subscription {
    type V = SubscriptionRow;

    open spec fn view(&self) -> SubscriptionRow {
        SubscriptionRow {
            id: self.id,
            email: self.email@,
            name: self.name@,
            subscribed_at: self.subscribed_at,
            status: self.status,
        }
    }
}

/// A token with the subscription that it is bound to.
#[derive(Debug)]
struct TokenBinding {
    token: ConfirmationToken,
    subscriber_id: SubscriberId,
}

impl View for TokenBinding {
    type V = TokenRow;

    closed spec fn view(&self) -> TokenRow {
        TokenRow { token: self.token@, subscriber_id: self.subscriber_id }
    }
}

/// Rows that wait to be written together: a unit of work. Dropping it
/// writes nothing.
#[derive(Debug)]
pub struct UnitOfWork {
    subscriptions: Vec<Subscription>,
    tokens: Vec<TokenBinding>,
}

impl View for UnitOfWork {
    type V = StoreState;

    closed spec fn view(&self) -> StoreState {
        StoreState {
            subscriptions: self.subscriptions@.map_values(|s: Subscription| s@),
            tokens: self.tokens@.map_values(|t: TokenBinding| t@),
        }
    }
}

impl UnitOfWork {
    #[verifier::type_invariant]
    spec fn valid(self) -> bool {
        self@.rows_valid()
    }

    /// Stages a pending subscription for `subscriber` under the identifier
    /// `id`.
    pub fn insert_pending_subscriber(
        self,
        subscriber: NewSubscriber,
        id: SubscriberId,
        subscribed_at: u64,
    ) -> (work: UnitOfWork)
        ensures
            work@.subscriptions == self@.subscriptions.push(
                SubscriptionRow::pending(id, subscriber.name@, subscriber.email@, subscribed_at),
            ),
            work@.tokens == self@.tokens,
            work@.rows_valid(),
    {
        proof {
            use_type_invariant(&self);
        }
        let name_text = subscriber.name.as_ref();
        let email_text = subscriber.email.as_ref();
        assert(is_valid_name(name_text@) && is_email_address(email_text@));
        let row = Subscription {
            id,
            email: subscriber.email,
            name: subscriber.name,
            subscribed_at,
            status: SubscriptionStatus::PendingConfirmation,
        };
        let UnitOfWork { mut subscriptions, tokens } = self;
        subscriptions.push(row);
        proof {
            let staged = self@.subscriptions.push(row@);
            assert(subscriptions@.map_values(|s: Subscription| s@) =~= staged);
            assert forall|i: int| 0 <= i < staged.len() implies (#[trigger] staged[i]).valid() by {
                if i < self@.subscriptions.len() {
                    assert(self@.subscriptions[i].valid());
                }
            }
            assert(tokens@.map_values(|t: TokenBinding| t@) == self@.tokens);
        }
        UnitOfWork { subscriptions, tokens }
    }

    /// Stages `token`, bound to the subscription `subscriber_id`.
    pub fn insert_confirmation_token(
        self,
        token: ConfirmationToken,
        subscriber_id: SubscriberId,
    ) -> (work: UnitOfWork)
        ensures
            work@.subscriptions == self@.subscriptions,
            work@.tokens == self@.tokens.push(TokenRow { token: token@, subscriber_id }),
            work@.rows_valid(),
    {
        proof {
            use_type_invariant(&self);
        }
        let token_text = token.as_ref();
        assert(is_token(token_text@));
        let binding = TokenBinding { token, subscriber_id };
        let UnitOfWork { subscriptions, mut tokens } = self;
        tokens.push(binding);
        proof {
            let staged = self@.tokens.push(binding@);
            assert(tokens@.map_values(|t: TokenBinding| t@) =~= staged);
            assert forall|i: int| 0 <= i < staged.len() implies is_token(
                (#[trigger] staged[i]).token,
            ) by {
                if i < self@.tokens.len() {
                    assert(is_token(self@.tokens[i].token));
                }
            }
            assert(subscriptions@.map_values(|s: Subscription| s@) == self@.subscriptions);
        }
        UnitOfWork { subscriptions, tokens }
    }
}

/// The subscriptions and their tokens.
#[derive(Debug)]
pub struct SubscriptionStore {
    subscriptions: Vec<Subscription>,
    tokens: Vec<TokenBinding>,
}

impl View for SubscriptionStore {
    type V = StoreState;

    closed spec fn view(&self) -> StoreState {
        StoreState {
            subscriptions: self.subscriptions@.map_values(|s: Subscription| s@),
            tokens: self.tokens@.map_values(|t: TokenBinding| t@),
        }
    }
}

impl SubscriptionStore {
    #[verifier::type_invariant]
    spec fn valid(self) -> bool {
        self@.wf()
    }

    /// A store without subscriptions.
    pub fn new() -> (store: SubscriptionStore)
        ensures
            store@ == StoreState::empty(),
            store@.wf(),
    {
        let store = SubscriptionStore { subscriptions: Vec::new(), tokens: Vec::new() };
        assert(store@.subscriptions =~= Seq::empty());
        assert(store@.tokens =~= Seq::empty());
        store
    }

    /// Shows that this store meets the invariant, as every store does.
    pub fn show_wf(&self)
        ensures
            self@.wf(),
    {
        proof {
            use_type_invariant(self);
        }
    }

    /// The subscription that `token` is bound to, if it is bound.
    pub fn find_subscriber_id_by_token(&self, token: &str) -> (found: Option<SubscriberId>)
        ensures
            found == self@.subscriber_of(token@),
            self@.wf(),
    {
        proof {
            use_type_invariant(self);
        }
        let mut i: usize = 0;
        while i < self.tokens.len()
            invariant
                i <= self.tokens@.len(),
                self@.wf(),
                forall|j: int| 0 <= j < i ==> (#[trigger] self@.tokens[j]).token != token@,
            decreases self.tokens@.len() - i,
        {
            if self.tokens[i].token.has_text(token) {
                assert(self@.tokens[i as int].token == token@);
                return Some(self.tokens[i].subscriber_id);
            }
            i += 1;
        }
        None
    }
    /// Whether a subscription has the identifier `id`.
    pub fn contains_subscriber(&self, id: SubscriberId) -> (found: bool)
        ensures
            found == self@.has_subscriber(id),
    {
        self.status_of(id).is_some()
    }

    /// Where the subscription `id` stands, if there is one.
    pub fn status_of(&self, id: SubscriberId) -> (status: Option<SubscriptionStatus>)
        ensures
            status == self@.status_of(id),
    {
        proof {
            use_type_invariant(self);
        }
        let mut i: usize = 0;
        while i < self.subscriptions.len()
            invariant
                i <= self.subscriptions@.len(),
                self@.wf(),
                forall|j: int| 0 <= j < i ==> (#[trigger] self@.subscriptions[j]).id != id,
            decreases self.subscriptions@.len() - i,
        {
            if self.subscriptions[i].id == id {
                assert(self@.subscriptions[i as int].id == id);
                return Some(self.subscriptions[i].status);
            }
            i += 1;
        }
        None
    }

    /// The subscription `id` as it stands, if there is one.
    pub fn find_subscription(&self, id: SubscriberId) -> (found: Option<Subscription>)
        ensures
            match found {
                Some(subscription) => self@.has_subscriber(id) && subscription@
                    == self@.subscriptions[self@.subscriber_index(id)],
                None => !self@.has_subscriber(id),
            },
    {
        proof {
            use_type_invariant(self);
        }
        let mut i: usize = 0;
        while i < self.subscriptions.len()
            invariant
                i <= self.subscriptions@.len(),
                self@.wf(),
                forall|j: int| 0 <= j < i ==> (#[trigger] self@.subscriptions[j]).id != id,
            decreases self.subscriptions@.len() - i,
        {
            if self.subscriptions[i].id == id {
                proof {
                    lemma_subscriber_index(self@, id, i as int);
                }
                let row = &self.subscriptions[i];
                return Some(
                    Subscription {
                        id: row.id,
                        email: row.email.clone(),
                        name: row.name.clone(),
                        subscribed_at: row.subscribed_at,
                        status: row.status,
                    },
                );
            }
            i += 1;
        }
        None
    }

    /// The number of subscriptions.
    pub fn subscription_count(&self) -> (n: usize)
        ensures
            n == self@.subscriptions.len(),
    {
        self.subscriptions.len()
    }

    /// The number of tokens.
    pub fn token_count(&self) -> (n: usize)
        ensures
            n == self@.tokens.len(),
    {
        self.tokens.len()
    }

    /// A unit of work without rows.
    pub fn begin(&self) -> (work: UnitOfWork)
        ensures
            work@ == StoreState::empty(),
    {
        let work = UnitOfWork { subscriptions: Vec::new(), tokens: Vec::new() };
        assert(work@.subscriptions =~= Seq::empty());
        assert(work@.tokens =~= Seq::empty());
        work
    }

    /// Writes the rows of `work`, all of them or none. They are refused
    /// where they do not go in pairs, each subscription with its token at
    /// the same place; then where an identifier would occur twice; then
    /// where a token would.
    #[verifier::loop_isolation(false)]
    pub fn commit(&mut self, work: UnitOfWork) -> (r: Result<(), StoreError>)
        ensures
            final(self)@.wf(),
            final(self)@ == old(self)@.commit(work@),
            match r {
                Ok(()) => old(self)@.commit_fault(work@) is None,
                Err(e) => old(self)@.commit_fault(work@) == Some(e),
            },
    {
        proof {
            use_type_invariant(&*self);
            use_type_invariant(&work);
            lemma_commit_wf(self@, work@);
        }
        let ghost before = self@;
        let ghost staged = work@;
        let ghost merged = before.append(staged);
        let UnitOfWork { subscriptions: mut new_subscriptions, tokens: mut new_tokens } = work;
        let n = new_subscriptions.len();
        if new_tokens.len() != n {
            return Err(StoreError::Orphan);
        }
        let mut k: usize = 0;
        while k < n
            invariant
                k <= n,
                n == new_subscriptions@.len(),
                n == new_tokens@.len(),
                staged.subscriptions == new_subscriptions@.map_values(|s: Subscription| s@),
                staged.tokens == new_tokens@.map_values(|t: TokenBinding| t@),
                forall|j: int|
                    0 <= j < k ==> (#[trigger] staged.tokens[j]).subscriber_id
                        == staged.subscriptions[j].id,
            decreases n - k,
        {
            if new_tokens[k].subscriber_id != new_subscriptions[k].id {
                assert(staged.tokens[k as int].subscriber_id != staged.subscriptions[k as int].id);
                return Err(StoreError::Orphan);
            }
            k += 1;
        }
        assert(staged.paired());
        let offset = self.subscriptions.len();
        assert(offset == before.subscriptions.len() && offset == before.tokens.len());
        k = 0;
        while k < n
            invariant
                k <= n,
                n == new_subscriptions@.len(),
                self@ == before,
                before.wf(),
                offset == before.subscriptions.len(),
                merged == before.append(staged),
                staged.subscriptions == new_subscriptions@.map_values(|s: Subscription| s@),
                forall|i: int, j: int|
                    0 <= i < j < offset + k ==> (#[trigger] merged.subscriptions[i]).id != (
                    #[trigger] merged.subscriptions[j]).id,
            decreases n - k,
        {
            let id = new_subscriptions[k].id;
            assert(merged.subscriptions[offset + k].id == id);
            if self.contains_subscriber(id) {
                proof {
                    let i = before.subscriber_index(id);
                    assert(merged.subscriptions[i].id == merged.subscriptions[offset + k].id);
                }
                return Err(StoreError::DuplicateSubscriber);
            }
            let mut i: usize = 0;
            while i < k
                invariant
                    i <= k,
                    k < n,
                    n == new_subscriptions@.len(),
                    offset == before.subscriptions.len(),
                    merged == before.append(staged),
                    staged.subscriptions == new_subscriptions@.map_values(|s: Subscription| s@),
                    id == new_subscriptions@[k as int].id,
                    forall|j: int|
                        0 <= j < i ==> (#[trigger] merged.subscriptions[offset + j]).id != id,
                decreases k - i,
            {
                assert(merged.subscriptions[offset + i].id == new_subscriptions@[i as int].id);
                if new_subscriptions[i].id == id {
                    assert(merged.subscriptions[offset + i].id == merged.subscriptions[offset
                        + k].id);
                    return Err(StoreError::DuplicateSubscriber);
                }
                i += 1;
            }
            assert forall|a: int, b: int| 0 <= a < b < offset + k + 1 implies (
            #[trigger] merged.subscriptions[a]).id != (#[trigger] merged.subscriptions[b]).id by {
                if b == offset + k {
                    if a < offset {
                        assert(before.subscriptions[a].id != id);
                    } else {
                        assert(merged.subscriptions[offset + (a - offset)].id != id);
                    }
                }
            }
            k += 1;
        }
        assert(merged.distinct_ids());
        k = 0;
        while k < n
            invariant
                k <= n,
                n == new_tokens@.len(),
                self@ == before,
                before.wf(),
                offset == before.tokens.len(),
                merged == before.append(staged),
                staged.tokens == new_tokens@.map_values(|t: TokenBinding| t@),
                forall|i: int, j: int|
                    0 <= i < j < offset + k ==> (#[trigger] merged.tokens[i]).token != (
                    #[trigger] merged.tokens[j]).token,
            decreases n - k,
        {
            let token = &new_tokens[k].token;
            assert(merged.tokens[offset + k].token == token@);
            if self.find_subscriber_id_by_token(token.as_ref()).is_some() {
                proof {
                    let i = before.token_index(token@);
                    assert(merged.tokens[i].token == merged.tokens[offset + k].token);
                }
                return Err(StoreError::DuplicateToken);
            }
            let mut i: usize = 0;
            while i < k
                invariant
                    i <= k,
                    k < n,
                    n == new_tokens@.len(),
                    offset == before.tokens.len(),
                    merged == before.append(staged),
                    staged.tokens == new_tokens@.map_values(|t: TokenBinding| t@),
                    token@ == new_tokens@[k as int]@.token,
                    forall|j: int|
                        0 <= j < i ==> (#[trigger] merged.tokens[offset + j]).token != token@,
                decreases k - i,
            {
                assert(merged.tokens[offset + i].token == new_tokens@[i as int]@.token);
                if new_tokens[i].token.has_text(token.as_ref()) {
                    assert(merged.tokens[offset + i].token == merged.tokens[offset + k].token);
                    return Err(StoreError::DuplicateToken);
                }
                i += 1;
            }
            assert forall|a: int, b: int| 0 <= a < b < offset + k + 1 implies (
            #[trigger] merged.tokens[a]).token != (#[trigger] merged.tokens[b]).token by {
                if b == offset + k {
                    if a < offset {
                        assert(before.tokens[a].token != token@);
                    } else {
                        assert(merged.tokens[offset + (a - offset)].token != token@);
                    }
                }
            }
            k += 1;
        }
        assert(merged.distinct_tokens());
        let mut taken = SubscriptionStore::new();
        std::mem::swap(self, &mut taken);
        let SubscriptionStore { mut subscriptions, mut tokens } = taken;
        subscriptions.append(&mut new_subscriptions);
        tokens.append(&mut new_tokens);
        proof {
            assert(subscriptions@.map_values(|s: Subscription| s@) =~= merged.subscriptions);
            assert(tokens@.map_values(|t: TokenBinding| t@) =~= merged.tokens);
        }
        *self = SubscriptionStore { subscriptions, tokens };
        Ok(())
    }

    /// Writes a pending subscription for `subscriber` under the identifier
    /// `id`, together with `token` bound to it, as one unit of work: both
    /// rows, or neither. It is refused where the identifier is taken, then
    /// where the token is. The address is not looked at: an address that is
    /// registered again gets a subscription of its own.
    pub fn register(
        &mut self,
        subscriber: NewSubscriber,
        id: SubscriberId,
        token: ConfirmationToken,
        subscribed_at: u64,
    ) -> (r: Result<(), StoreError>)
        ensures
            final(self)@.wf(),
            match r {
                Ok(()) => {
                    &&& !old(self)@.has_subscriber(id)
                    &&& !old(self)@.has_token(token@)
                    &&& final(self)@ == old(self)@.register(
                        SubscriptionRow::pending(
                            id,
                            subscriber.name@,
                            subscriber.email@,
                            subscribed_at,
                        ),
                        token@,
                    )
                },
                Err(StoreError::DuplicateSubscriber) => {
                    &&& old(self)@.has_subscriber(id)
                    &&& final(self)@ == old(self)@
                },
                Err(StoreError::DuplicateToken) => {
                    &&& !old(self)@.has_subscriber(id)
                    &&& old(self)@.has_token(token@)
                    &&& final(self)@ == old(self)@
                },
                Err(StoreError::Orphan) => false,
            },
    {
        proof {
            use_type_invariant(&*self);
        }
        let ghost row = SubscriptionRow::pending(
            id,
            subscriber.name@,
            subscriber.email@,
            subscribed_at,
        );
        let work = self.begin();
        let work = work.insert_pending_subscriber(subscriber, id, subscribed_at);
        let work = work.insert_confirmation_token(token, id);
        proof {
            assert(work@.subscriptions =~= seq![row]);
            assert(work@.tokens =~= seq![TokenRow { token: token@, subscriber_id: id }]);
            assert(work@ == StoreState::registration(row, token@));
            lemma_commit_registration(self@, row, token@);
        }
        self.commit(work)
    }

    /// Sets the subscription `id` to confirmed. Where it is confirmed
    /// already, or where there is none, nothing changes.
    pub fn mark_confirmed(&mut self, id: SubscriberId)
        ensures
            final(self)@.wf(),
            final(self)@ == old(self)@.mark_confirmed(id),
    {
        proof {
            use_type_invariant(&*self);
        }
        let mut taken = SubscriptionStore::new();
        std::mem::swap(self, &mut taken);
        let SubscriptionStore { mut subscriptions, tokens } = taken;
        let ghost before = old(self)@;
        let mut i: usize = 0;
        while i < subscriptions.len()
            invariant
                i <= subscriptions@.len(),
                subscriptions@.len() == before.subscriptions.len(),
                forall|k: int|
                    0 <= k < subscriptions@.len() ==> (#[trigger] subscriptions@[k])@ == if k < i
                        && before.subscriptions[k].id == id {
                        before.subscriptions[k].confirmed()
                    } else {
                        before.subscriptions[k]
                    },
            decreases subscriptions@.len() - i,
        {
            if subscriptions[i].id == id {
                subscriptions[i].status = SubscriptionStatus::Confirmed;
            }
            i += 1;
        }
        proof {
            let after = before.mark_confirmed(id);
            lemma_mark_confirmed_wf(before, id);
            assert(subscriptions@.map_values(|s: Subscription| s@) =~= after.subscriptions);
            assert(tokens@.map_values(|t: TokenBinding| t@) =~= after.tokens);
        }
        *self = SubscriptionStore { subscriptions, tokens };
    }

    /// The addresses of the confirmed subscriptions, in the order of
    /// registration.
    pub fn list_confirmed_emails(&self) -> (emails: Vec<SubscriberEmail>)
        ensures
            emails@.map_values(|e: SubscriberEmail| e@) == self@.confirmed_emails(),
    {
        let mut emails: Vec<SubscriberEmail> = Vec::new();
        let mut i: usize = 0;
        while i < self.subscriptions.len()
            invariant
                i <= self.subscriptions@.len(),
                emails@.map_values(|e: SubscriberEmail| e@) == confirmed_emails_of(
                    self@.subscriptions.take(i as int),
                ),
            decreases self.subscriptions@.len() - i,
        {
            let ghost prefix = self@.subscriptions.take(i as int);
            let ghost longer = self@.subscriptions.take(i + 1);
            assert(longer.drop_last() =~= prefix);
            assert(longer.last() == self.subscriptions@[i as int]@);
            if self.subscriptions[i].status == SubscriptionStatus::Confirmed {
                let email = self.subscriptions[i].email.clone();
                let ghost shown = emails@.map_values(|e: SubscriberEmail| e@);
                emails.push(email);
                assert(emails@.map_values(|e: SubscriberEmail| e@) =~= shown.push(email@));
            }
            i += 1;
        }
        assert(self@.subscriptions.take(i as int) =~= self@.subscriptions);
        emails
    }
}

} // verus!
