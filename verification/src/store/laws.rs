//! What holds of every store that meets the invariant.

use crate::domain::confirmation_token::is_token;
use crate::domain::subscriber_email::is_email_address;
use crate::domain::subscriber_id::SubscriberId;
use crate::store::state::{
    confirmed_emails_of, StoreError, StoreState, SubscriptionRow, SubscriptionStatus, TokenRow,
};
use vstd::prelude::*;

verus! {

/// Writing a valid row under a fresh identifier, with a fresh token, keeps
/// the invariant of the store.
pub proof fn lemma_register_wf(s: StoreState, row: SubscriptionRow, token: Seq<char>)
    requires
        s.wf(),
        !s.has_subscriber(row.id),
        !s.has_token(token),
        row.valid(),
        is_token(token),
    ensures
        s.register(row, token).wf(),
{
    let after = s.register(row, token);
    let n = s.subscriptions.len() as int;
    assert forall|i: int, j: int| 0 <= i < j < after.subscriptions.len() implies (
    #[trigger] after.subscriptions[i]).id != (#[trigger] after.subscriptions[j]).id by {
        if j == n {
            assert(s.subscriptions[i].id != row.id);
        } else {
            assert(s.subscriptions[i].id != s.subscriptions[j].id);
        }
    }
    assert forall|i: int, j: int| 0 <= i < j < after.tokens.len() implies (
    #[trigger] after.tokens[i]).token != (#[trigger] after.tokens[j]).token by {
        if j == n {
            assert(s.tokens[i].token != token);
        } else {
            assert(s.tokens[i].token != s.tokens[j].token);
        }
    }
    assert forall|i: int| 0 <= i < after.tokens.len() implies (
    #[trigger] after.tokens[i]).subscriber_id == after.subscriptions[i].id by {
        if i < n {
            assert(s.tokens[i].subscriber_id == s.subscriptions[i].id);
        }
    }
    assert forall|i: int| 0 <= i < after.subscriptions.len() implies (
    #[trigger] after.subscriptions[i]).valid() by {
        if i < n {
            assert(s.subscriptions[i].valid());
        }
    }
    assert forall|i: int| 0 <= i < after.tokens.len() implies is_token(
        (#[trigger] after.tokens[i]).token,
    ) by {
        if i < n {
            assert(is_token(s.tokens[i].token));
        }
    }
}

/// Committing keeps the invariant of the store, whether the rows are
/// written or not.
pub proof fn lemma_commit_wf(s: StoreState, staged: StoreState)
    requires
        s.wf(),
        staged.rows_valid(),
    ensures
        s.commit(staged).wf(),
{
    if s.commit_fault(staged) is None {
        let after = s.append(staged);
        let n = s.subscriptions.len() as int;
        assert forall|i: int| 0 <= i < after.tokens.len() implies (
        #[trigger] after.tokens[i]).subscriber_id == after.subscriptions[i].id by {
            if i < n {
                assert(s.tokens[i].subscriber_id == s.subscriptions[i].id);
            } else {
                assert(staged.tokens[i - n].subscriber_id == staged.subscriptions[i - n].id);
            }
        }
        assert forall|i: int| 0 <= i < after.subscriptions.len() implies (
        #[trigger] after.subscriptions[i]).valid() by {
            if i < n {
                assert(s.subscriptions[i].valid());
            } else {
                assert(staged.subscriptions[i - n].valid());
            }
        }
        assert forall|i: int| 0 <= i < after.tokens.len() implies is_token(
            (#[trigger] after.tokens[i]).token,
        ) by {
            if i < n {
                assert(is_token(s.tokens[i].token));
            } else {
                assert(is_token(staged.tokens[i - n].token));
            }
        }
    }
}

/// A unit of work that leaves a subscription without its token, or a token
/// without its subscription, is never written.
pub proof fn lemma_no_partial_commit(s: StoreState, staged: StoreState)
    requires
        staged.subscriptions.len() != staged.tokens.len(),
    ensures
        s.commit_fault(staged) == Some(StoreError::Orphan),
        s.commit(staged) == s,
{
}

/// The unit of work of one registration is written exactly if its
/// identifier and its token are fresh, and writing it is the registration.
pub proof fn lemma_commit_registration(s: StoreState, row: SubscriptionRow, token: Seq<char>)
    requires
        s.wf(),
    ensures
        s.commit_fault(StoreState::registration(row, token)) == if s.has_subscriber(row.id) {
            Some(StoreError::DuplicateSubscriber)
        } else if s.has_token(token) {
            Some(StoreError::DuplicateToken)
        } else {
            None
        },
        s.append(StoreState::registration(row, token)) == s.register(row, token),
{
    let staged = StoreState::registration(row, token);
    let after = s.append(staged);
    let n = s.subscriptions.len() as int;
    assert(after.subscriptions =~= s.subscriptions.push(row));
    assert(after.tokens =~= s.tokens.push(TokenRow { token, subscriber_id: row.id }));
    assert(staged.paired());
    if s.has_subscriber(row.id) {
        let i = s.subscriber_index(row.id);
        assert(after.subscriptions[i].id == after.subscriptions[n].id);
    } else {
        assert forall|i: int, j: int| 0 <= i < j < after.subscriptions.len() implies (
        #[trigger] after.subscriptions[i]).id != (#[trigger] after.subscriptions[j]).id by {
            if j == n {
                assert(s.subscriptions[i].id != row.id);
            } else {
                assert(s.subscriptions[i].id != s.subscriptions[j].id);
            }
        }
        if s.has_token(token) {
            let i = s.token_index(token);
            assert(after.tokens[i].token == after.tokens[n].token);
        } else {
            assert forall|i: int, j: int| 0 <= i < j < after.tokens.len() implies (
            #[trigger] after.tokens[i]).token != (#[trigger] after.tokens[j]).token by {
                if j == n {
                    assert(s.tokens[i].token != token);
                } else {
                    assert(s.tokens[i].token != s.tokens[j].token);
                }
            }
        }
    }
}

/// Confirming a subscription keeps the invariant of the store.
pub proof fn lemma_mark_confirmed_wf(s: StoreState, id: SubscriberId)
    requires
        s.wf(),
    ensures
        s.mark_confirmed(id).wf(),
{
    let after = s.mark_confirmed(id);
    assert forall|i: int| 0 <= i < after.subscriptions.len() implies (
    #[trigger] after.subscriptions[i]).valid() by {
        assert(s.subscriptions[i].valid());
    }
    assert forall|i: int, j: int| 0 <= i < j < after.subscriptions.len() implies (
    #[trigger] after.subscriptions[i]).id != (#[trigger] after.subscriptions[j]).id by {
        assert(s.subscriptions[i].id != s.subscriptions[j].id);
    }
    assert forall|i: int| 0 <= i < after.tokens.len() implies (
    #[trigger] after.tokens[i]).subscriber_id == after.subscriptions[i].id by {
        assert(s.tokens[i].subscriber_id == s.subscriptions[i].id);
    }
}

/// In a store that meets the invariant, the subscription `id` is found at
/// one place only: at `i`, if the row there has that identifier.
pub proof fn lemma_subscriber_index(s: StoreState, id: SubscriberId, i: int)
    requires
        s.wf(),
        0 <= i < s.subscriptions.len(),
        s.subscriptions[i].id == id,
    ensures
        s.has_subscriber(id),
        s.subscriber_index(id) == i,
        s.status_of(id) == Some(s.subscriptions[i].status),
{
    let j = s.subscriber_index(id);
    if i < j {
        assert(s.subscriptions[i].id != s.subscriptions[j].id);
    } else if j < i {
        assert(s.subscriptions[j].id != s.subscriptions[i].id);
    }
}

/// In a store that meets the invariant, `token` is found at one place only:
/// at `i`, if the row there binds that token. The subscription that it is
/// bound to is the one at the same place.
pub proof fn lemma_token_index(s: StoreState, token: Seq<char>, i: int)
    requires
        s.wf(),
        0 <= i < s.tokens.len(),
        s.tokens[i].token == token,
    ensures
        s.has_token(token),
        s.token_index(token) == i,
        s.subscriber_of(token) == Some(s.subscriptions[i].id),
{
    let j = s.token_index(token);
    if i < j {
        assert(s.tokens[i].token != s.tokens[j].token);
    } else if j < i {
        assert(s.tokens[j].token != s.tokens[i].token);
    }
    assert(s.tokens[i].subscriber_id == s.subscriptions[i].id);
}

/// No orphans: in a store that meets the invariant, every token is bound to
/// a subscription of the store, and every subscription has a token bound to
/// it.
pub proof fn lemma_no_orphans(s: StoreState)
    requires
        s.wf(),
    ensures
        forall|t: Seq<char>| #[trigger]
            s.has_token(t) ==> s.has_subscriber(s.subscriber_of(t).unwrap()),
        forall|id: SubscriberId| #[trigger]
            s.has_subscriber(id) ==> exists|t: Seq<char>| #[trigger]
                s.subscriber_of(t) == Some(id),
{
    assert forall|t: Seq<char>| #[trigger] s.has_token(t) implies s.has_subscriber(
        s.subscriber_of(t).unwrap(),
    ) by {
        let i = s.token_index(t);
        lemma_token_index(s, t, i);
        lemma_subscriber_index(s, s.subscriptions[i].id, i);
    }
    assert forall|id: SubscriberId| #[trigger] s.has_subscriber(id) implies exists|t: Seq<char>|
     #[trigger] s.subscriber_of(t) == Some(id) by {
        let i = s.subscriber_index(id);
        lemma_token_index(s, s.tokens[i].token, i);
    }
}

/// A registration adds exactly one pending subscription and exactly one
/// token, bound to it, and leaves the rows that were there as they were.
pub proof fn lemma_register_adds_one(s: StoreState, row: SubscriptionRow, token: Seq<char>)
    requires
        s.wf(),
        !s.has_subscriber(row.id),
        !s.has_token(token),
        row.valid(),
        is_token(token),
        row.status == SubscriptionStatus::PendingConfirmation,
    ensures
        s.register(row, token).wf(),
        s.register(row, token).subscriptions.len() == s.subscriptions.len() + 1,
        s.register(row, token).tokens.len() == s.tokens.len() + 1,
        s.register(row, token).subscriptions.take(s.subscriptions.len() as int) == s.subscriptions,
        s.register(row, token).tokens.take(s.tokens.len() as int) == s.tokens,
        s.register(row, token).status_of(row.id) == Some(SubscriptionStatus::PendingConfirmation),
        s.register(row, token).subscriber_of(token) == Some(row.id),
        s.register(row, token).confirmed_emails() == s.confirmed_emails(),
{
    let after = s.register(row, token);
    let n = s.subscriptions.len() as int;
    lemma_register_wf(s, row, token);
    assert(after.subscriptions.take(n) =~= s.subscriptions);
    assert(after.tokens.take(n) =~= s.tokens);
    lemma_subscriber_index(after, row.id, n);
    lemma_token_index(after, token, n);
    assert(after.subscriptions.drop_last() =~= s.subscriptions);
}

/// Confirming sets the subscription `id` to confirmed and changes nothing
/// else: no other subscription, no token, and no field of the row but its
/// status.
pub proof fn lemma_mark_confirmed_effect(s: StoreState, id: SubscriberId)
    requires
        s.wf(),
    ensures
        s.mark_confirmed(id).wf(),
        s.mark_confirmed(id).tokens == s.tokens,
        s.mark_confirmed(id).subscriptions.len() == s.subscriptions.len(),
        s.has_subscriber(id) ==> s.mark_confirmed(id).status_of(id) == Some(
            SubscriptionStatus::Confirmed,
        ),
        !s.has_subscriber(id) ==> s.mark_confirmed(id) == s,
        forall|other: SubscriberId|
            other != id ==> #[trigger] s.mark_confirmed(id).status_of(other) == s.status_of(other),
        forall|i: int|
            0 <= i < s.subscriptions.len() ==> (#[trigger] s.mark_confirmed(id).subscriptions[i])
                == if s.subscriptions[i].id == id {
                s.subscriptions[i].confirmed()
            } else {
                s.subscriptions[i]
            },
{
    let after = s.mark_confirmed(id);
    lemma_mark_confirmed_wf(s, id);
    if s.has_subscriber(id) {
        let i = s.subscriber_index(id);
        assert(after.subscriptions[i].id == id);
        lemma_subscriber_index(after, id, i);
    } else {
        assert(after.subscriptions =~= s.subscriptions);
    }
    assert forall|other: SubscriberId| other != id implies #[trigger] after.status_of(other)
        == s.status_of(other) by {
        if s.has_subscriber(other) {
            let i = s.subscriber_index(other);
            assert(after.subscriptions[i].id == other);
            lemma_subscriber_index(after, other, i);
        } else if after.has_subscriber(other) {
            let i = after.subscriber_index(other);
            assert(s.subscriptions[i].id == other);
        }
    }
}

/// Confirming a subscription that is confirmed already changes nothing.
pub proof fn lemma_mark_confirmed_idempotent(s: StoreState, id: SubscriberId)
    ensures
        s.mark_confirmed(id).mark_confirmed(id) == s.mark_confirmed(id),
{
    assert(s.mark_confirmed(id).mark_confirmed(id).subscriptions =~= s.mark_confirmed(
        id,
    ).subscriptions);
}

/// A token, once bound, stays bound to the same subscription: neither a
/// commit nor a confirmation rebinds or unbinds it.
pub proof fn lemma_binding_is_permanent(
    s: StoreState,
    staged: StoreState,
    id: SubscriberId,
    token: Seq<char>,
)
    requires
        s.wf(),
        staged.rows_valid(),
        s.has_token(token),
    ensures
        s.commit(staged).subscriber_of(token) == s.subscriber_of(token),
        s.mark_confirmed(id).subscriber_of(token) == s.subscriber_of(token),
{
    let i = s.token_index(token);
    lemma_token_index(s, token, i);
    lemma_commit_wf(s, staged);
    let committed = s.commit(staged);
    assert(committed.tokens[i] == s.tokens[i]);
    assert(committed.subscriptions[i] == s.subscriptions[i]);
    lemma_token_index(committed, token, i);
    let marked = s.mark_confirmed(id);
    lemma_mark_confirmed_wf(s, id);
    assert(marked.subscriptions[i].id == s.subscriptions[i].id);
    lemma_token_index(marked, token, i);
}

/// A subscription is never deleted, and once it is confirmed it stays
/// confirmed: a commit leaves it as it stands, and a confirmation, of this
/// subscription or of another, leaves it confirmed.
pub proof fn lemma_confirmed_is_final(
    s: StoreState,
    staged: StoreState,
    other: SubscriberId,
    id: SubscriberId,
)
    requires
        s.wf(),
        staged.rows_valid(),
        s.has_subscriber(id),
    ensures
        s.commit(staged).status_of(id) == s.status_of(id),
        s.mark_confirmed(other).has_subscriber(id),
        s.status_of(id) == Some(SubscriptionStatus::Confirmed) ==> s.mark_confirmed(
            other,
        ).status_of(id) == Some(SubscriptionStatus::Confirmed),
{
    let i = s.subscriber_index(id);
    lemma_subscriber_index(s, id, i);
    lemma_commit_wf(s, staged);
    let committed = s.commit(staged);
    assert(committed.subscriptions[i] == s.subscriptions[i]);
    lemma_subscriber_index(committed, id, i);
    let marked = s.mark_confirmed(other);
    lemma_mark_confirmed_wf(s, other);
    assert(marked.subscriptions[i].id == id);
    lemma_subscriber_index(marked, id, i);
}

/// Confirmations may come in any order: two of them leave the same store
/// whichever comes first.
pub proof fn lemma_mark_confirmed_commutes(s: StoreState, a: SubscriberId, b: SubscriberId)
    ensures
        s.mark_confirmed(a).mark_confirmed(b) == s.mark_confirmed(b).mark_confirmed(a),
{
    assert(s.mark_confirmed(a).mark_confirmed(b).subscriptions =~= s.mark_confirmed(
        b,
    ).mark_confirmed(a).subscriptions);
}

/// Every address among the confirmed ones is the address of a confirmed
/// row: a pending subscription is never among the recipients.
pub proof fn lemma_confirmed_emails_sound(rows: Seq<SubscriptionRow>, k: int)
    requires
        0 <= k < confirmed_emails_of(rows).len(),
    ensures
        exists|i: int|
            0 <= i < rows.len() && (#[trigger] rows[i]).status == SubscriptionStatus::Confirmed
                && rows[i].email == confirmed_emails_of(rows)[k],
    decreases rows.len(),
{
    let init = rows.drop_last();
    let last = rows.len() - 1;
    if rows.last().status == SubscriptionStatus::Confirmed && k == confirmed_emails_of(init).len() {
        assert(rows[last].status == SubscriptionStatus::Confirmed);
    } else {
        lemma_confirmed_emails_sound(init, k);
        let i = choose|i: int|
            0 <= i < init.len() && (#[trigger] init[i]).status == SubscriptionStatus::Confirmed
                && init[i].email == confirmed_emails_of(init)[k];
        assert(rows[i] == init[i]);
    }
}

/// The address of every confirmed row is among the confirmed ones.
pub proof fn lemma_confirmed_emails_complete(rows: Seq<SubscriptionRow>, i: int)
    requires
        0 <= i < rows.len(),
        rows[i].status == SubscriptionStatus::Confirmed,
    ensures
        confirmed_emails_of(rows).contains(rows[i].email),
        confirmed_emails_of(rows).len() <= rows.len(),
    decreases rows.len(),
{
    let init = rows.drop_last();
    lemma_confirmed_emails_len(rows);
    if i == rows.len() - 1 {
        let all = confirmed_emails_of(rows);
        assert(all[all.len() - 1] == rows[i].email);
    } else {
        lemma_confirmed_emails_complete(init, i);
        let k = choose|k: int|
            0 <= k < confirmed_emails_of(init).len() && confirmed_emails_of(init)[k]
                == init[i].email;
        assert(confirmed_emails_of(rows)[k] == rows[i].email);
    }
}

/// There are no more confirmed addresses than rows.
pub proof fn lemma_confirmed_emails_len(rows: Seq<SubscriptionRow>)
    ensures
        confirmed_emails_of(rows).len() <= rows.len(),
    decreases rows.len(),
{
    if rows.len() > 0 {
        lemma_confirmed_emails_len(rows.drop_last());
    }
}

/// In a store that meets the invariant, every confirmed address follows the
/// grammar of email addresses.
pub proof fn lemma_confirmed_emails_valid(s: StoreState)
    requires
        s.wf(),
    ensures
        forall|k: int|
            0 <= k < s.confirmed_emails().len() ==> is_email_address(
                #[trigger] s.confirmed_emails()[k],
            ),
{
    assert forall|k: int| 0 <= k < s.confirmed_emails().len() implies is_email_address(
        #[trigger] s.confirmed_emails()[k],
    ) by {
        lemma_confirmed_emails_sound(s.subscriptions, k);
        let i = choose|i: int|
            0 <= i < s.subscriptions.len() && (#[trigger] s.subscriptions[i]).status
                == SubscriptionStatus::Confirmed && s.subscriptions[i].email
                == s.confirmed_emails()[k];
        assert(s.subscriptions[i].valid());
    }
}

} // verus!
