use zero2prod::domain::{ConfirmationToken, NewSubscriber, SubscriberId};
use zero2prod::routes::FormData;
use zero2prod::store::{StoreError, SubscriptionStatus, SubscriptionStore};

fn subscriber_of(name: &str, email: &str) -> NewSubscriber {
    NewSubscriber::try_from(FormData { name: name.to_string(), email: email.to_string() }).unwrap()
}

fn token_of(last: char) -> ConfirmationToken {
    ConfirmationToken::parse(format!("abcdefghijklmnopqrstuvwx{}", last)).unwrap()
}

fn texts_of(store: &SubscriptionStore) -> Vec<String> {
    store.list_confirmed_emails().iter().map(|e| e.as_ref().to_string()).collect()
}

#[test]
fn a_new_store_is_empty() {
    let store = SubscriptionStore::new();
    store.show_wf();
    assert_eq!(store.subscription_count(), 0);
    assert_eq!(store.token_count(), 0);
    assert!(store.list_confirmed_emails().is_empty());
    assert_eq!(store.status_of(SubscriberId(1)), None);
    assert!(!store.contains_subscriber(SubscriberId(1)));
    assert_eq!(store.find_subscriber_id_by_token("abcdefghijklmnopqrstuvwxa"), None);
    assert!(store.find_subscription(SubscriberId(1)).is_none());
}

#[test]
fn a_registration_writes_one_pending_subscription_and_one_token() {
    let mut store = SubscriptionStore::new();
    let r = store.register(subscriber_of("le guin", "ursula@example.com"), SubscriberId(1), token_of('a'), 1700000000);
    assert_eq!(r, Ok(()));
    assert_eq!(store.subscription_count(), 1);
    assert_eq!(store.token_count(), 1);
    assert_eq!(store.status_of(SubscriberId(1)), Some(SubscriptionStatus::PendingConfirmation));
    assert!(store.contains_subscriber(SubscriberId(1)));
    assert_eq!(
        store.find_subscriber_id_by_token("abcdefghijklmnopqrstuvwxa"),
        Some(SubscriberId(1))
    );
    let row = store.find_subscription(SubscriberId(1)).unwrap();
    assert_eq!(row.id, SubscriberId(1));
    assert_eq!(row.name.as_ref(), "le guin");
    assert_eq!(row.email.as_ref(), "ursula@example.com");
    assert_eq!(row.subscribed_at, 1700000000);
    assert_eq!(row.status, SubscriptionStatus::PendingConfirmation);
}

#[test]
fn a_taken_identifier_is_refused_and_nothing_is_written() {
    let mut store = SubscriptionStore::new();
    store.register(subscriber_of("a", "a@example.com"), SubscriberId(1), token_of('a'), 1).unwrap();
    let r = store.register(subscriber_of("b", "b@example.com"), SubscriberId(1), token_of('b'), 2);
    assert_eq!(r, Err(StoreError::DuplicateSubscriber));
    assert_eq!(store.subscription_count(), 1);
    assert_eq!(store.token_count(), 1);
    assert_eq!(store.find_subscriber_id_by_token("abcdefghijklmnopqrstuvwxb"), None);
    assert_eq!(store.find_subscription(SubscriberId(1)).unwrap().name.as_ref(), "a");
}

#[test]
fn a_taken_token_is_refused_and_nothing_is_written() {
    let mut store = SubscriptionStore::new();
    store.register(subscriber_of("a", "a@example.com"), SubscriberId(1), token_of('a'), 1).unwrap();
    let r = store.register(subscriber_of("b", "b@example.com"), SubscriberId(2), token_of('a'), 2);
    assert_eq!(r, Err(StoreError::DuplicateToken));
    assert_eq!(store.subscription_count(), 1);
    assert_eq!(store.token_count(), 1);
    assert_eq!(store.status_of(SubscriberId(2)), None);
    assert_eq!(
        store.find_subscriber_id_by_token("abcdefghijklmnopqrstuvwxa"),
        Some(SubscriberId(1))
    );
}

#[test]
fn the_identifier_is_looked_at_before_the_token() {
    let mut store = SubscriptionStore::new();
    store.register(subscriber_of("a", "a@example.com"), SubscriberId(1), token_of('a'), 1).unwrap();
    let r = store.register(subscriber_of("b", "b@example.com"), SubscriberId(1), token_of('a'), 2);
    assert_eq!(r, Err(StoreError::DuplicateSubscriber));
}

#[test]
fn the_same_email_may_register_twice() {
    let mut store = SubscriptionStore::new();
    store.register(subscriber_of("a", "a@example.com"), SubscriberId(1), token_of('a'), 1).unwrap();
    let r = store.register(subscriber_of("a", "a@example.com"), SubscriberId(2), token_of('b'), 2);
    assert_eq!(r, Ok(()));
    assert_eq!(store.subscription_count(), 2);
    assert_eq!(store.token_count(), 2);
}

#[test]
fn marking_confirmed_changes_the_status_of_that_subscription_only() {
    let mut store = SubscriptionStore::new();
    store.register(subscriber_of("a", "a@example.com"), SubscriberId(1), token_of('a'), 1).unwrap();
    store.register(subscriber_of("b", "b@example.com"), SubscriberId(2), token_of('b'), 2).unwrap();
    store.register(subscriber_of("c", "c@example.com"), SubscriberId(3), token_of('c'), 3).unwrap();
    store.mark_confirmed(SubscriberId(2));
    assert_eq!(store.status_of(SubscriberId(1)), Some(SubscriptionStatus::PendingConfirmation));
    assert_eq!(store.status_of(SubscriberId(2)), Some(SubscriptionStatus::Confirmed));
    assert_eq!(store.status_of(SubscriberId(3)), Some(SubscriptionStatus::PendingConfirmation));
    let row = store.find_subscription(SubscriberId(2)).unwrap();
    assert_eq!(row.name.as_ref(), "b");
    assert_eq!(row.email.as_ref(), "b@example.com");
    assert_eq!(row.subscribed_at, 2);
    assert_eq!(store.subscription_count(), 3);
    assert_eq!(store.token_count(), 3);
    assert_eq!(
        store.find_subscriber_id_by_token("abcdefghijklmnopqrstuvwxb"),
        Some(SubscriberId(2))
    );
}

#[test]
fn marking_confirmed_twice_is_the_same_as_once() {
    let mut store = SubscriptionStore::new();
    store.register(subscriber_of("a", "a@example.com"), SubscriberId(1), token_of('a'), 1).unwrap();
    store.mark_confirmed(SubscriberId(1));
    store.mark_confirmed(SubscriberId(1));
    assert_eq!(store.status_of(SubscriberId(1)), Some(SubscriptionStatus::Confirmed));
    assert_eq!(texts_of(&store), vec!["a@example.com".to_string()]);
}

#[test]
fn marking_an_unknown_subscription_changes_nothing() {
    let mut store = SubscriptionStore::new();
    store.register(subscriber_of("a", "a@example.com"), SubscriberId(1), token_of('a'), 1).unwrap();
    store.mark_confirmed(SubscriberId(9));
    assert_eq!(store.status_of(SubscriberId(1)), Some(SubscriptionStatus::PendingConfirmation));
    assert_eq!(store.status_of(SubscriberId(9)), None);
    assert_eq!(store.subscription_count(), 1);
}

#[test]
fn only_confirmed_emails_are_listed_in_order_of_registration() {
    let mut store = SubscriptionStore::new();
    store.register(subscriber_of("a", "a@example.com"), SubscriberId(1), token_of('a'), 1).unwrap();
    store.register(subscriber_of("b", "b@example.com"), SubscriberId(2), token_of('b'), 2).unwrap();
    store.register(subscriber_of("c", "c@example.com"), SubscriberId(3), token_of('c'), 3).unwrap();
    assert!(texts_of(&store).is_empty());
    store.mark_confirmed(SubscriberId(3));
    assert_eq!(texts_of(&store), vec!["c@example.com".to_string()]);
    store.mark_confirmed(SubscriberId(1));
    assert_eq!(texts_of(&store), vec!["a@example.com".to_string(), "c@example.com".to_string()]);
}

#[test]
fn each_status_is_kept_under_its_text() {
    assert_eq!(SubscriptionStatus::PendingConfirmation.as_str(), "pending_confirmation");
    assert_eq!(SubscriptionStatus::Confirmed.as_str(), "confirmed");
}

#[test]
fn a_unit_of_work_writes_all_its_rows_together() {
    let mut store = SubscriptionStore::new();
    let work = store.begin();
    let work = work.insert_pending_subscriber(subscriber_of("a", "a@example.com"), SubscriberId(1), 1);
    let work = work.insert_confirmation_token(token_of('a'), SubscriberId(1));
    let work = work.insert_pending_subscriber(subscriber_of("b", "b@example.com"), SubscriberId(2), 2);
    let work = work.insert_confirmation_token(token_of('b'), SubscriberId(2));
    assert_eq!(store.subscription_count(), 0);
    assert_eq!(store.commit(work), Ok(()));
    assert_eq!(store.subscription_count(), 2);
    assert_eq!(store.token_count(), 2);
    assert_eq!(store.find_subscriber_id_by_token("abcdefghijklmnopqrstuvwxb"), Some(SubscriberId(2)));
    assert_eq!(store.status_of(SubscriberId(1)), Some(SubscriptionStatus::PendingConfirmation));
}

#[test]
fn an_empty_unit_of_work_changes_nothing() {
    let mut store = SubscriptionStore::new();
    store.register(subscriber_of("a", "a@example.com"), SubscriberId(1), token_of('a'), 1).unwrap();
    let work = store.begin();
    assert_eq!(store.commit(work), Ok(()));
    assert_eq!(store.subscription_count(), 1);
    assert_eq!(store.token_count(), 1);
}

#[test]
fn a_unit_of_work_that_is_dropped_writes_nothing() {
    let store = SubscriptionStore::new();
    let work = store.begin();
    let work = work.insert_pending_subscriber(subscriber_of("a", "a@example.com"), SubscriberId(1), 1);
    let work = work.insert_confirmation_token(token_of('a'), SubscriberId(1));
    drop(work);
    assert_eq!(store.subscription_count(), 0);
    assert_eq!(store.token_count(), 0);
}

#[test]
fn a_subscriber_without_a_token_is_never_written() {
    let mut store = SubscriptionStore::new();
    let work = store.begin();
    let work = work.insert_pending_subscriber(subscriber_of("a", "a@example.com"), SubscriberId(1), 1);
    assert_eq!(store.commit(work), Err(StoreError::Orphan));
    assert_eq!(store.subscription_count(), 0);
    assert_eq!(store.token_count(), 0);
}

#[test]
fn a_token_without_a_subscriber_is_never_written() {
    let mut store = SubscriptionStore::new();
    store.register(subscriber_of("a", "a@example.com"), SubscriberId(1), token_of('a'), 1).unwrap();
    let work = store.begin();
    let work = work.insert_confirmation_token(token_of('b'), SubscriberId(1));
    assert_eq!(store.commit(work), Err(StoreError::Orphan));
    assert_eq!(store.subscription_count(), 1);
    assert_eq!(store.token_count(), 1);
    assert_eq!(store.find_subscriber_id_by_token("abcdefghijklmnopqrstuvwxb"), None);
}

#[test]
fn a_token_bound_to_another_subscriber_is_never_written() {
    let mut store = SubscriptionStore::new();
    let work = store.begin();
    let work = work.insert_pending_subscriber(subscriber_of("a", "a@example.com"), SubscriberId(1), 1);
    let work = work.insert_confirmation_token(token_of('a'), SubscriberId(2));
    assert_eq!(store.commit(work), Err(StoreError::Orphan));
    assert_eq!(store.subscription_count(), 0);
    assert_eq!(store.token_count(), 0);
}

#[test]
fn a_unit_of_work_with_a_repeated_identifier_or_token_is_refused_whole() {
    let mut store = SubscriptionStore::new();
    let work = store.begin();
    let work = work.insert_pending_subscriber(subscriber_of("a", "a@example.com"), SubscriberId(1), 1);
    let work = work.insert_confirmation_token(token_of('a'), SubscriberId(1));
    let work = work.insert_pending_subscriber(subscriber_of("b", "b@example.com"), SubscriberId(1), 2);
    let work = work.insert_confirmation_token(token_of('b'), SubscriberId(1));
    assert_eq!(store.commit(work), Err(StoreError::DuplicateSubscriber));
    assert_eq!(store.subscription_count(), 0);

    let work = store.begin();
    let work = work.insert_pending_subscriber(subscriber_of("a", "a@example.com"), SubscriberId(1), 1);
    let work = work.insert_confirmation_token(token_of('a'), SubscriberId(1));
    let work = work.insert_pending_subscriber(subscriber_of("b", "b@example.com"), SubscriberId(2), 2);
    let work = work.insert_confirmation_token(token_of('a'), SubscriberId(2));
    assert_eq!(store.commit(work), Err(StoreError::DuplicateToken));
    assert_eq!(store.subscription_count(), 0);
    assert_eq!(store.token_count(), 0);
}

#[test]
fn a_unit_of_work_is_held_against_the_rows_of_the_store() {
    let mut store = SubscriptionStore::new();
    store.register(subscriber_of("a", "a@example.com"), SubscriberId(1), token_of('a'), 1).unwrap();
    let work = store.begin();
    let work = work.insert_pending_subscriber(subscriber_of("b", "b@example.com"), SubscriberId(2), 2);
    let work = work.insert_confirmation_token(token_of('b'), SubscriberId(2));
    let work = work.insert_pending_subscriber(subscriber_of("c", "c@example.com"), SubscriberId(1), 3);
    let work = work.insert_confirmation_token(token_of('c'), SubscriberId(1));
    assert_eq!(store.commit(work), Err(StoreError::DuplicateSubscriber));
    assert_eq!(store.subscription_count(), 1);
    assert_eq!(store.status_of(SubscriberId(2)), None);

    let work = store.begin();
    let work = work.insert_pending_subscriber(subscriber_of("b", "b@example.com"), SubscriberId(2), 2);
    let work = work.insert_confirmation_token(token_of('a'), SubscriberId(2));
    assert_eq!(store.commit(work), Err(StoreError::DuplicateToken));
    assert_eq!(store.subscription_count(), 1);
    assert_eq!(store.token_count(), 1);
}
