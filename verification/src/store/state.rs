//! The two tables as contracts see them, and what each operation makes of
//! them.

use crate::domain::confirmation_token::is_token;
use crate::domain::subscriber_email::is_email_address;
use crate::domain::subscriber_id::SubscriberId;
use crate::domain::subscriber_name::is_valid_name;
use vstd::prelude::*;

verus! {

/// Where a subscription stands.
#[derive(Clone, Copy, Debug, PartialEq, Eq, Structural)]
pub enum SubscriptionStatus {
    /// Registered, the address not yet confirmed.
    PendingConfirmation,
    /// The address confirmed by its owner.
    Confirmed,
}

impl SubscriptionStatus {
    /// The text under which the status is kept in the table of
    /// subscriptions.
    pub open spec fn text(self) -> Seq<char> {
        match self {
            SubscriptionStatus::PendingConfirmation => "pending_confirmation"@,
            SubscriptionStatus::Confirmed => "confirmed"@,
        }
    }

    /// The text under which the status is kept in the table of
    /// subscriptions.
    pub fn as_str(&self) -> (text: &'static str)
        ensures
            text@ == self.text(),
    {
        match self {
            SubscriptionStatus::PendingConfirmation => "pending_confirmation",
            SubscriptionStatus::Confirmed => "confirmed",
        }
    }
}

/// Why a registration is not written.
#[derive(Clone, Copy, Debug, PartialEq, Eq, Structural)]
pub enum StoreError {
    /// The identifier already names a subscription.
    DuplicateSubscriber,
    /// The token is already bound to a subscription.
    DuplicateToken,
    /// A subscription would be left without its token, or a token without
    /// its subscription.
    Orphan,
}

/// A row of the table of subscriptions, as contracts see it.
pub struct SubscriptionRow {
    pub id: SubscriberId,
    pub email: Seq<char>,
    pub name: Seq<char>,
    pub subscribed_at: u64,
    pub status: SubscriptionStatus,
}

/// A row of the table of tokens, as contracts see it.
pub struct TokenRow {
    pub token: Seq<char>,
    pub subscriber_id: SubscriberId,
}

/// The two tables, each in the order in which its rows were written.
pub struct StoreState {
    pub subscriptions: Seq<SubscriptionRow>,
    pub tokens: Seq<TokenRow>,
}

impl SubscriptionRow {
    /// The row of a subscriber that has just registered.
    pub open spec fn pending(
        id: SubscriberId,
        name: Seq<char>,
        email: Seq<char>,
        subscribed_at: u64,
    ) -> SubscriptionRow {
        SubscriptionRow {
            id,
            email,
            name,
            subscribed_at,
            status: SubscriptionStatus::PendingConfirmation,
        }
    }

    /// This row, confirmed.
    pub open spec fn confirmed(self) -> SubscriptionRow {
        SubscriptionRow { status: SubscriptionStatus::Confirmed, ..self }
    }

    /// Whether the name and the address of the row are valid.
    pub open spec fn valid(self) -> bool {
        is_valid_name(self.name) && is_email_address(self.email)
    }
}

/// The addresses of the confirmed rows among `rows`, in the order of the
/// rows.
pub open spec fn confirmed_emails_of(rows: Seq<SubscriptionRow>) -> Seq<Seq<char>>
    decreases rows.len(),
{
    if rows.len() == 0 {
        Seq::empty()
    } else if rows.last().status == SubscriptionStatus::Confirmed {
        confirmed_emails_of(rows.drop_last()).push(rows.last().email)
    } else {
        confirmed_emails_of(rows.drop_last())
    }
}

impl StoreState {
    /// The store before any registration.
    pub open spec fn empty() -> StoreState {
        StoreState { subscriptions: Seq::empty(), tokens: Seq::empty() }
    }

    /// Whether a subscription has the identifier `id`.
    pub open spec fn has_subscriber(self, id: SubscriberId) -> bool {
        exists|i: int|
            0 <= i < self.subscriptions.len() && (#[trigger] self.subscriptions[i]).id == id
    }

    /// Whether `token` is bound to a subscription.
    pub open spec fn has_token(self, token: Seq<char>) -> bool {
        exists|i: int| 0 <= i < self.tokens.len() && (#[trigger] self.tokens[i]).token == token
    }

    /// The place of a subscription with the identifier `id`.
    pub open spec fn subscriber_index(self, id: SubscriberId) -> int {
        choose|i: int|
            0 <= i < self.subscriptions.len() && (#[trigger] self.subscriptions[i]).id == id
    }

    /// The place of the row that binds `token`.
    pub open spec fn token_index(self, token: Seq<char>) -> int {
        choose|i: int| 0 <= i < self.tokens.len() && (#[trigger] self.tokens[i]).token == token
    }

    /// The subscription that `token` is bound to, if it is bound.
    pub open spec fn subscriber_of(self, token: Seq<char>) -> Option<SubscriberId> {
        if self.has_token(token) {
            Some(self.tokens[self.token_index(token)].subscriber_id)
        } else {
            None
        }
    }

    /// Where the subscription `id` stands, if there is one.
    pub open spec fn status_of(self, id: SubscriberId) -> Option<SubscriptionStatus> {
        if self.has_subscriber(id) {
            Some(self.subscriptions[self.subscriber_index(id)].status)
        } else {
            None
        }
    }

    /// Whether the two tables go in pairs: the row of tokens at a place
    /// binds its token to the subscription at the same place, so that every
    /// subscription has one token and every token one subscription.
    pub open spec fn paired(self) -> bool {
        &&& self.tokens.len() == self.subscriptions.len()
        &&& forall|i: int|
            0 <= i < self.tokens.len() ==> (#[trigger] self.tokens[i]).subscriber_id
                == self.subscriptions[i].id
    }

    /// Whether no identifier occurs twice.
    pub open spec fn distinct_ids(self) -> bool {
        forall|i: int, j: int|
            0 <= i < j < self.subscriptions.len() ==> (#[trigger] self.subscriptions[i]).id != (
            #[trigger] self.subscriptions[j]).id
    }

    /// Whether no token occurs twice.
    pub open spec fn distinct_tokens(self) -> bool {
        forall|i: int, j: int|
            0 <= i < j < self.tokens.len() ==> (#[trigger] self.tokens[i]).token != (
            #[trigger] self.tokens[j]).token
    }

    /// Whether names, addresses and tokens are valid.
    pub open spec fn rows_valid(self) -> bool {
        &&& forall|i: int|
            0 <= i < self.subscriptions.len() ==> (#[trigger] self.subscriptions[i]).valid()
        &&& forall|i: int| 0 <= i < self.tokens.len() ==> is_token((#[trigger] self.tokens[i]).token)
    }

    /// The invariant of the store. The two tables go in pairs, no
    /// identifier and no token occurs twice, and names, addresses and
    /// tokens are valid.
    pub open spec fn wf(self) -> bool {
        &&& self.paired()
        &&& self.distinct_ids()
        &&& self.distinct_tokens()
        &&& self.rows_valid()
    }

    /// The rows of this store followed by the rows of `staged`.
    pub open spec fn append(self, staged: StoreState) -> StoreState {
        StoreState {
            subscriptions: self.subscriptions + staged.subscriptions,
            tokens: self.tokens + staged.tokens,
        }
    }

    /// Why the rows of `staged` are not written to this store, if they are
    /// not. Rows that do not go in pairs are refused first, then an
    /// identifier that would occur twice, then a token that would.
    pub open spec fn commit_fault(self, staged: StoreState) -> Option<StoreError> {
        if !staged.paired() {
            Some(StoreError::Orphan)
        } else if !self.append(staged).distinct_ids() {
            Some(StoreError::DuplicateSubscriber)
        } else if !self.append(staged).distinct_tokens() {
            Some(StoreError::DuplicateToken)
        } else {
            None
        }
    }

    /// The store after a unit of work with the rows of `staged` was
    /// committed: all of its rows are written, or none.
    pub open spec fn commit(self, staged: StoreState) -> StoreState {
        if self.commit_fault(staged) is None {
            self.append(staged)
        } else {
            self
        }
    }

    /// The rows of one registration: `row`, and `token` bound to it.
    pub open spec fn registration(row: SubscriptionRow, token: Seq<char>) -> StoreState {
        StoreState {
            subscriptions: seq![row],
            tokens: seq![TokenRow { token, subscriber_id: row.id }],
        }
    }

    /// The store after `row` was written together with `token`, bound to it.
    pub open spec fn register(self, row: SubscriptionRow, token: Seq<char>) -> StoreState {
        StoreState {
            subscriptions: self.subscriptions.push(row),
            tokens: self.tokens.push(TokenRow { token, subscriber_id: row.id }),
        }
    }

    /// The store after every subscription with the identifier `id` was set
    /// to confirmed.
    pub open spec fn mark_confirmed(self, id: SubscriberId) -> StoreState {
        StoreState {
            subscriptions: Seq::new(
                self.subscriptions.len(),
                |i: int|
                    if self.subscriptions[i].id == id {
                        self.subscriptions[i].confirmed()
                    } else {
                        self.subscriptions[i]
                    },
            ),
            tokens: self.tokens,
        }
    }

    /// The addresses of the confirmed subscriptions, in the order of
    /// registration.
    pub open spec fn confirmed_emails(self) -> Seq<Seq<char>> {
        confirmed_emails_of(self.subscriptions)
    }
}

} // verus!
