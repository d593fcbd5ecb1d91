use zero2prod::domain::{ConfirmationToken, NewSubscriber, SubscriberId};
use zero2prod::routes::newsletters::{
    DeliveryFailure, Dispatch, DispatchReport, FailureReason, NewsletterIssue,
};
use zero2prod::routes::FormData;
use zero2prod::store::SubscriptionStore;

fn issue() -> NewsletterIssue {
    NewsletterIssue {
        subject: "Newsletter title".to_string(),
        html_content: "<p>Newsletter body as HTML</p>".to_string(),
        text_content: "Newsletter body as plain text".to_string(),
    }
}

fn addresses(n: usize) -> Vec<String> {
    (0..n).map(|i| format!("reader{}@example.com", i)).collect()
}

/// Runs the dispatch to its end; the delivery to a recipient fails where `fails` says so.
fn run_all(mut dispatch: Dispatch, fails: &dyn Fn(&str) -> bool) -> (Vec<String>, DispatchReport) {
    let mut sent = Vec::new();
    loop {
        let (next, delivery) = dispatch.advance();
        dispatch = next;
        match delivery {
            None => return (sent, dispatch.report()),
            Some(delivery) => {
                let to = delivery.recipient.as_ref().to_string();
                assert_eq!(delivery.subject, "Newsletter title");
                assert_eq!(delivery.html_content, "<p>Newsletter body as HTML</p>");
                assert_eq!(delivery.text_content, "Newsletter body as plain text");
                let outcome = if fails(&to) { Err(format!("no route to {}", to)) } else { Ok(()) };
                sent.push(to);
                dispatch = dispatch.record(outcome);
            }
        }
    }
}

#[test]
fn a_dispatch_without_recipients_finishes_at_once() {
    let (sent, report) = run_all(Dispatch::new(issue(), Vec::new()), &|_| false);
    assert!(sent.is_empty());
    assert_eq!(report, DispatchReport { attempted: 0, succeeded: 0, failures: vec![] });
}

#[test]
fn every_recipient_gets_the_issue_when_nothing_fails() {
    let (sent, report) = run_all(Dispatch::new(issue(), addresses(5)), &|_| false);
    assert_eq!(sent, addresses(5));
    assert_eq!(report, DispatchReport { attempted: 5, succeeded: 5, failures: vec![] });
}

#[test]
fn failed_deliveries_are_reported_and_do_not_stop_the_dispatch() {
    let fails = |to: &str| to == "reader1@example.com" || to == "reader4@example.com";
    let (sent, report) = run_all(Dispatch::new(issue(), addresses(7)), &fails);
    assert_eq!(sent, addresses(7));
    assert_eq!(report.attempted, 7);
    assert_eq!(report.succeeded, 5);
    assert_eq!(
        report.failures,
        vec![
            DeliveryFailure {
                recipient: "reader1@example.com".to_string(),
                reason: FailureReason::SendFailed("no route to reader1@example.com".to_string()),
            },
            DeliveryFailure {
                recipient: "reader4@example.com".to_string(),
                reason: FailureReason::SendFailed("no route to reader4@example.com".to_string()),
            },
        ]
    );
}

#[test]
fn a_dispatch_in_which_every_delivery_fails_still_goes_through_all() {
    let (sent, report) = run_all(Dispatch::new(issue(), addresses(3)), &|_| true);
    assert_eq!(sent.len(), 3);
    assert_eq!(report.attempted, 3);
    assert_eq!(report.succeeded, 0);
    assert_eq!(report.failures.len(), 3);
}

#[test]
fn a_malformed_stored_address_is_reported_and_passed_over() {
    let recipients = vec![
        "not-an-address".to_string(),
        "a@example.com".to_string(),
        String::new(),
        "b@".to_string(),
        "b@example.com".to_string(),
        "@example.com".to_string(),
    ];
    let (sent, report) = run_all(Dispatch::new(issue(), recipients), &|to| to == "b@example.com");
    assert_eq!(sent, vec!["a@example.com".to_string(), "b@example.com".to_string()]);
    assert_eq!(report.attempted, 6);
    assert_eq!(report.succeeded, 1);
    assert_eq!(
        report.failures,
        vec![
            DeliveryFailure {
                recipient: "not-an-address".to_string(),
                reason: FailureReason::MalformedAddress,
            },
            DeliveryFailure { recipient: String::new(), reason: FailureReason::MalformedAddress },
            DeliveryFailure { recipient: "b@".to_string(), reason: FailureReason::MalformedAddress },
            DeliveryFailure {
                recipient: "b@example.com".to_string(),
                reason: FailureReason::SendFailed("no route to b@example.com".to_string()),
            },
            DeliveryFailure {
                recipient: "@example.com".to_string(),
                reason: FailureReason::MalformedAddress,
            },
        ]
    );
}

#[test]
fn a_waiting_dispatch_hands_out_the_same_delivery_again() {
    let dispatch = Dispatch::new(issue(), addresses(2));
    let (dispatch, first) = dispatch.advance();
    let (dispatch, again) = dispatch.advance();
    assert_eq!(first.unwrap().recipient.as_ref(), "reader0@example.com");
    assert_eq!(again.unwrap().recipient.as_ref(), "reader0@example.com");
    let dispatch = dispatch.record(Ok(()));
    let (dispatch, second) = dispatch.advance();
    assert_eq!(second.unwrap().recipient.as_ref(), "reader1@example.com");
    let report = dispatch.report();
    assert_eq!(report, DispatchReport { attempted: 1, succeeded: 1, failures: vec![] });
}

#[test]
fn an_outcome_that_nothing_waits_for_is_ignored() {
    let dispatch = Dispatch::new(issue(), addresses(1));
    let dispatch = dispatch.record(Ok(()));
    let dispatch = dispatch.record(Err("late".to_string()));
    let (dispatch, delivery) = dispatch.advance();
    assert!(delivery.is_some());
    let dispatch = dispatch.record(Ok(()));
    let dispatch = dispatch.record(Err("late".to_string()));
    let (dispatch, delivery) = dispatch.advance();
    assert!(delivery.is_none());
    assert_eq!(dispatch.report(), DispatchReport { attempted: 1, succeeded: 1, failures: vec![] });
}

#[test]
fn pending_subscribers_never_get_the_issue() {
    let mut store = SubscriptionStore::new();
    for (i, name) in ["a", "b", "c", "d"].iter().enumerate() {
        let subscriber = NewSubscriber::try_from(FormData {
            name: name.to_string(),
            email: format!("{}@example.com", name),
        })
        .unwrap();
        let token = ConfirmationToken::parse(format!("abcdefghijklmnopqrstuvwx{}", name)).unwrap();
        store.register(subscriber, SubscriberId(i as u128), token, 0).unwrap();
    }
    store.mark_confirmed(SubscriberId(1));
    store.mark_confirmed(SubscriberId(3));
    let (sent, report) = run_all(Dispatch::for_store(issue(), &store), &|to| to == "d@example.com");
    assert_eq!(sent, vec!["b@example.com".to_string(), "d@example.com".to_string()]);
    assert_eq!(report.attempted, 2);
    assert_eq!(report.succeeded, 1);
    assert_eq!(report.failures.len(), 1);
    assert_eq!(report.failures[0].recipient, "d@example.com");
}

#[test]
fn a_dispatch_to_a_store_without_confirmed_subscribers_sends_nothing() {
    let mut store = SubscriptionStore::new();
    let subscriber = NewSubscriber::try_from(FormData {
        name: "a".to_string(),
        email: "a@example.com".to_string(),
    })
    .unwrap();
    let token = ConfirmationToken::parse("abcdefghijklmnopqrstuvwxa".to_string()).unwrap();
    store.register(subscriber, SubscriberId(1), token, 0).unwrap();
    let (sent, report) = run_all(Dispatch::for_store(issue(), &store), &|_| false);
    assert!(sent.is_empty());
    assert_eq!(report, DispatchReport { attempted: 0, succeeded: 0, failures: vec![] });
}
