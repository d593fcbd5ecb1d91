//! Dispatch of a newsletter issue to the confirmed subscribers.
//!
//! The dispatch is a state machine. It hands out one delivery at a time and
//! is told how each went; the sending itself is left to the caller. A
//! recipient that fails, because its stored address is malformed or because
//! the delivery failed, is recorded, and the dispatch goes on with the next.

use crate::domain::subscriber_email::{is_email_address, SubscriberEmail};
use crate::store::{
    lemma_confirmed_emails_sound, lemma_confirmed_emails_valid, StoreState, SubscriptionStatus,
    SubscriptionStore,
};
use vstd::prelude::*;
use vstd::string::StringExecFns;

verus! {

/// One issue of the newsletter.
#[derive(Debug)]
pub struct NewsletterIssue {
    pub subject: String,
    pub html_content: String,
    pub text_content: String,
}

/// Why a recipient did not get the issue.
#[derive(Debug, PartialEq, Eq)]
pub enum FailureReason {
    /// The stored address does not follow the grammar of email addresses.
    MalformedAddress,
    /// The delivery was tried and failed, for the cause given.
    SendFailed(String),
}

/// Why a recipient did not get the issue, as contracts see it.
pub enum FailureCause {
    MalformedAddress,
    SendFailed(Seq<char>),
}

impl View for FailureReason {
    type V = FailureCause;

    open spec fn view(&self) -> FailureCause {
        match self {
            FailureReason::MalformedAddress => FailureCause::MalformedAddress,
            FailureReason::SendFailed(cause) => FailureCause::SendFailed(cause@),
        }
    }
}

/// A recipient that did not get the issue, and why.
#[derive(Debug, PartialEq, Eq)]
pub struct DeliveryFailure {
    pub recipient: String,
    pub reason: FailureReason,
}

/// A recipient that did not get the issue, and why, as contracts see it.
pub struct FailureRow {
    pub recipient: Seq<char>,
    pub cause: FailureCause,
}

impl View for DeliveryFailure {
    type V = FailureRow;

    open spec fn view(&self) -> FailureRow {
        FailureRow { recipient: self.recipient@, cause: self.reason@ }
    }
}

/// How a dispatch went: how many recipients were gone through, how many of
/// them got the issue, and which did not.
#[derive(Debug, PartialEq, Eq)]
pub struct DispatchReport {
    pub attempted: usize,
    pub succeeded: usize,
    pub failures: Vec<DeliveryFailure>,
}

/// How a dispatch went, as contracts see it.
pub struct ReportView {
    pub attempted: nat,
    pub succeeded: nat,
    pub failures: Seq<FailureRow>,
}

impl View for DispatchReport {
    type V = ReportView;

    open spec fn view(&self) -> ReportView {
        ReportView {
            attempted: self.attempted as nat,
            succeeded: self.succeeded as nat,
            failures: self.failures@.map_values(|f: DeliveryFailure| f@),
        }
    }
}

/// One email to send: the issue, addressed to one recipient.
#[derive(Debug)]
pub struct Delivery {
    pub recipient: SubscriberEmail,
    pub subject: String,
    pub html_content: String,
    pub text_content: String,
}

/// How a delivery went, as contracts see it: `None` where the email was
/// sent, the cause where it was not.
pub open spec fn outcome_view(outcome: Result<(), String>) -> Option<Seq<char>> {
    match outcome {
        Ok(()) => None,
        Err(cause) => Some(cause@),
    }
}

/// A dispatch under way, as contracts see it. The recipients before
/// `cursor` are done. Where `awaiting` holds, the recipient at `cursor` was
/// handed out and its outcome is not known yet.
pub struct DispatchState {
    pub recipients: Seq<Seq<char>>,
    pub cursor: nat,
    pub awaiting: bool,
    pub succeeded: nat,
    pub failures: Seq<FailureRow>,
}

impl DispatchState {
    /// A dispatch to `recipients` before its first step.
    pub open spec fn start(recipients: Seq<Seq<char>>) -> DispatchState {
        DispatchState {
            recipients,
            cursor: 0,
            awaiting: false,
            succeeded: 0,
            failures: Seq::empty(),
        }
    }

    /// The invariant of a dispatch: every recipient that is done either got
    /// the issue or is among the failures, and a recipient that was handed
    /// out has a well-formed address.
    pub open spec fn wf(self) -> bool {
        &&& self.cursor <= self.recipients.len()
        &&& self.succeeded + self.failures.len() == self.cursor
        &&& self.awaiting ==> self.cursor < self.recipients.len() && is_email_address(
            self.recipients[self.cursor as int],
        )
    }

    /// Whether every recipient is done.
    pub open spec fn finished(self) -> bool {
        !self.awaiting && self.cursor == self.recipients.len()
    }

    /// The recipient that was handed out and whose outcome is not known
    /// yet, if there is one.
    pub open spec fn current(self) -> Option<Seq<char>> {
        if self.awaiting {
            Some(self.recipients[self.cursor as int])
        } else {
            None
        }
    }

    /// The dispatch after the recipient at the cursor was passed over for
    /// its malformed address.
    pub open spec fn skip_malformed(self) -> DispatchState {
        DispatchState {
            cursor: self.cursor + 1,
            failures: self.failures.push(
                FailureRow {
                    recipient: self.recipients[self.cursor as int],
                    cause: FailureCause::MalformedAddress,
                },
            ),
            ..self
        }
    }

    /// The dispatch after it has moved on to the next recipient with a
    /// well-formed address, recording those with a malformed address on its
    /// way. A dispatch that is waiting for an outcome stays where it is.
    pub open spec fn advance(self) -> DispatchState
        decreases self.recipients.len() - self.cursor,
    {
        if self.awaiting || self.cursor >= self.recipients.len() {
            self
        } else if is_email_address(self.recipients[self.cursor as int]) {
            DispatchState { awaiting: true, ..self }
        } else {
            self.skip_malformed().advance()
        }
    }

    /// The dispatch after it was told how the delivery to the current
    /// recipient went. A dispatch that is not waiting for an outcome stays
    /// as it is.
    pub open spec fn record(self, outcome: Option<Seq<char>>) -> DispatchState {
        if !self.awaiting {
            self
        } else {
            match outcome {
                None => DispatchState {
                    cursor: self.cursor + 1,
                    awaiting: false,
                    succeeded: self.succeeded + 1,
                    ..self
                },
                Some(cause) => DispatchState {
                    cursor: self.cursor + 1,
                    awaiting: false,
                    failures: self.failures.push(
                        FailureRow {
                            recipient: self.recipients[self.cursor as int],
                            cause: FailureCause::SendFailed(cause),
                        },
                    ),
                    ..self
                },
            }
        }
    }

    /// How the dispatch went so far.
    pub open spec fn report(self) -> ReportView {
        ReportView { attempted: self.cursor, succeeded: self.succeeded, failures: self.failures }
    }

    /// The dispatch after a run in which the deliveries went as `outcomes`
    /// says, one outcome for each recipient handed out, in order.
    pub open spec fn run(self, outcomes: Seq<Option<Seq<char>>>) -> DispatchState
        decreases outcomes.len(),
    {
        if outcomes.len() == 0 {
            self.advance()
        } else {
            self.advance().record(outcomes.first()).run(outcomes.drop_first())
        }
    }
}

/// How many of the deliveries failed.
pub open spec fn failed_count(outcomes: Seq<Option<Seq<char>>>) -> nat
    decreases outcomes.len(),
{
    if outcomes.len() == 0 {
        0
    } else if outcomes.first() is Some {
        1 + failed_count(outcomes.drop_first())
    } else {
        failed_count(outcomes.drop_first())
    }
}

/// The failures of a run in which the delivery to each of `recipients`
/// went as `outcomes` says: each failed delivery with its recipient and its
/// cause, in the order of the recipients.
pub open spec fn failed_rows(
    recipients: Seq<Seq<char>>,
    outcomes: Seq<Option<Seq<char>>>,
) -> Seq<FailureRow>
    decreases outcomes.len(),
{
    if outcomes.len() == 0 || recipients.len() == 0 {
        Seq::empty()
    } else {
        let rest = failed_rows(recipients.drop_first(), outcomes.drop_first());
        match outcomes.first() {
            Some(cause) => seq![
                FailureRow { recipient: recipients.first(), cause: FailureCause::SendFailed(cause) },
            ] + rest,
            None => rest,
        }
    }
}

/// Moving on keeps the invariant of a dispatch, goes through recipients in
/// order, and leaves the dispatch either waiting for the outcome of a
/// delivery or finished.
pub proof fn lemma_advance(s: DispatchState)
    requires
        s.wf(),
    ensures
        s.advance().wf(),
        s.advance().recipients == s.recipients,
        s.advance().cursor >= s.cursor,
        s.advance().succeeded == s.succeeded,
        s.advance().awaiting || s.advance().finished(),
    decreases s.recipients.len() - s.cursor,
{
    if !s.awaiting && s.cursor < s.recipients.len() && !is_email_address(
        s.recipients[s.cursor as int],
    ) {
        lemma_advance(s.skip_malformed());
    }
}

/// Recording an outcome keeps the invariant of a dispatch and is done with
/// exactly one recipient: one more success, or one more failure that names
/// that recipient.
pub proof fn lemma_record(s: DispatchState, outcome: Option<Seq<char>>)
    requires
        s.wf(),
        s.awaiting,
    ensures
        s.record(outcome).wf(),
        !s.record(outcome).awaiting,
        s.record(outcome).recipients == s.recipients,
        s.record(outcome).cursor == s.cursor + 1,
        outcome is None ==> s.record(outcome).succeeded == s.succeeded + 1 && s.record(
            outcome,
        ).failures == s.failures,
        outcome is Some ==> s.record(outcome).succeeded == s.succeeded && s.record(
            outcome,
        ).failures == s.failures.push(
            FailureRow {
                recipient: s.recipients[s.cursor as int],
                cause: FailureCause::SendFailed(outcome.unwrap()),
            },
        ),
{
}

/// There are as many failures as failed deliveries.
pub proof fn lemma_failed_rows_len(recipients: Seq<Seq<char>>, outcomes: Seq<Option<Seq<char>>>)
    requires
        outcomes.len() == recipients.len(),
    ensures
        failed_rows(recipients, outcomes).len() == failed_count(outcomes),
        failed_count(outcomes) <= outcomes.len(),
    decreases outcomes.len(),
{
    if outcomes.len() > 0 {
        lemma_failed_rows_len(recipients.drop_first(), outcomes.drop_first());
    }
}

/// Every failure names a recipient whose delivery failed, with the cause of
/// that delivery.
pub proof fn lemma_failed_rows_named(
    recipients: Seq<Seq<char>>,
    outcomes: Seq<Option<Seq<char>>>,
    k: int,
)
    requires
        outcomes.len() == recipients.len(),
        0 <= k < failed_rows(recipients, outcomes).len(),
    ensures
        exists|i: int|
            0 <= i < recipients.len() && (#[trigger] outcomes[i]) is Some && failed_rows(
                recipients,
                outcomes,
            )[k] == (FailureRow {
                recipient: recipients[i],
                cause: FailureCause::SendFailed(outcomes[i].unwrap()),
            }),
    decreases outcomes.len(),
{
    let rest_recipients = recipients.drop_first();
    let rest_outcomes = outcomes.drop_first();
    if outcomes.first() is Some && k == 0 {
        assert(outcomes[0] is Some);
    } else {
        let shift: int = if outcomes.first() is Some {
            1
        } else {
            0
        };
        lemma_failed_rows_named(rest_recipients, rest_outcomes, k - shift);
        let i = choose|i: int|
            0 <= i < rest_recipients.len() && (#[trigger] rest_outcomes[i]) is Some && failed_rows(
                rest_recipients,
                rest_outcomes,
            )[k - shift] == (FailureRow {
                recipient: rest_recipients[i],
                cause: FailureCause::SendFailed(rest_outcomes[i].unwrap()),
            });
        assert(outcomes[i + 1] == rest_outcomes[i]);
        assert(recipients[i + 1] == rest_recipients[i]);
    }
}

/// A run from a dispatch that is not waiting, over recipients whose
/// addresses are all well formed, with one outcome for each recipient that
/// is left: it finishes, each delivery that went through counts as a
/// success, and each that failed is recorded, in order.
pub proof fn lemma_run_from(s: DispatchState, outcomes: Seq<Option<Seq<char>>>)
    requires
        s.wf(),
        !s.awaiting,
        forall|i: int|
            s.cursor <= i < s.recipients.len() ==> is_email_address(#[trigger] s.recipients[i]),
        outcomes.len() == s.recipients.len() - s.cursor,
    ensures
        s.run(outcomes).wf(),
        s.run(outcomes).finished(),
        s.run(outcomes).recipients == s.recipients,
        s.run(outcomes).succeeded == s.succeeded + outcomes.len() - failed_count(outcomes),
        s.run(outcomes).failures == s.failures + failed_rows(
            s.recipients.skip(s.cursor as int),
            outcomes,
        ),
    decreases outcomes.len(),
{
    let left = s.recipients.skip(s.cursor as int);
    if outcomes.len() == 0 {
        assert(s.failures + failed_rows(left, outcomes) =~= s.failures);
    } else {
        assert(is_email_address(s.recipients[s.cursor as int]));
        let sent = s.advance();
        assert(sent == DispatchState { awaiting: true, ..s });
        let next = sent.record(outcomes.first());
        lemma_record(sent, outcomes.first());
        lemma_run_from(next, outcomes.drop_first());
        assert(left.drop_first() =~= s.recipients.skip(next.cursor as int));
        assert(left.first() == s.recipients[s.cursor as int]);
        assert(next.failures + failed_rows(left.drop_first(), outcomes.drop_first())
            =~= s.failures + failed_rows(left, outcomes));
    }
}

/// A dispatch to `n` recipients with well-formed addresses, of which
/// exactly `k` deliveries fail, finishes with a report of `n` recipients
/// gone through, `n - k` successes and `k` failures, each of which names
/// the recipient and the cause of a failed delivery.
pub proof fn lemma_dispatch_report(recipients: Seq<Seq<char>>, outcomes: Seq<Option<Seq<char>>>)
    requires
        forall|i: int| 0 <= i < recipients.len() ==> is_email_address(#[trigger] recipients[i]),
        outcomes.len() == recipients.len(),
    ensures
        DispatchState::start(recipients).run(outcomes).finished(),
        DispatchState::start(recipients).run(outcomes).report() == (ReportView {
            attempted: recipients.len(),
            succeeded: (recipients.len() - failed_count(outcomes)) as nat,
            failures: failed_rows(recipients, outcomes),
        }),
        failed_rows(recipients, outcomes).len() == failed_count(outcomes),
        failed_count(outcomes) <= recipients.len(),
{
    let s = DispatchState::start(recipients);
    lemma_run_from(s, outcomes);
    lemma_failed_rows_len(recipients, outcomes);
    assert(recipients.skip(0) =~= recipients);
    assert(s.failures + failed_rows(recipients, outcomes) =~= failed_rows(recipients, outcomes));
}

/// A dispatch to the confirmed subscribers of a store goes to well-formed
/// addresses only, so that it is reported as `lemma_dispatch_report` says;
/// and every recipient is the address of a confirmed subscription, so that
/// a pending subscriber never gets the issue.
pub proof fn lemma_dispatch_to_confirmed(store: StoreState, outcomes: Seq<Option<Seq<char>>>)
    requires
        store.wf(),
        outcomes.len() == store.confirmed_emails().len(),
    ensures
        DispatchState::start(store.confirmed_emails()).run(outcomes).finished(),
        DispatchState::start(store.confirmed_emails()).run(outcomes).report() == (ReportView {
            attempted: store.confirmed_emails().len(),
            succeeded: (store.confirmed_emails().len() - failed_count(outcomes)) as nat,
            failures: failed_rows(store.confirmed_emails(), outcomes),
        }),
        failed_rows(store.confirmed_emails(), outcomes).len() == failed_count(outcomes),
        forall|k: int|
            0 <= k < store.confirmed_emails().len() ==> exists|i: int|
                0 <= i < store.subscriptions.len() && (#[trigger] store.subscriptions[i]).status
                    == SubscriptionStatus::Confirmed && store.subscriptions[i].email
                    == #[trigger] store.confirmed_emails()[k],
{
    lemma_confirmed_emails_valid(store);
    lemma_dispatch_report(store.confirmed_emails(), outcomes);
    assert forall|k: int| 0 <= k < store.confirmed_emails().len() implies exists|i: int|
        0 <= i < store.subscriptions.len() && (#[trigger] store.subscriptions[i]).status
            == SubscriptionStatus::Confirmed && store.subscriptions[i].email
            == #[trigger] store.confirmed_emails()[k] by {
        lemma_confirmed_emails_sound(store.subscriptions, k);
    }
}

/// A dispatch under way.
#[derive(Debug)]
pub struct Dispatch {
    issue: NewsletterIssue,
    recipients: Vec<String>,
    cursor: usize,
    current: Option<SubscriberEmail>,
    succeeded: usize,
    failures: Vec<DeliveryFailure>,
}

impl View for Dispatch {
    type V = DispatchState;

    closed spec fn view(&self) -> DispatchState {
        DispatchState {
            recipients: self.recipients@.map_values(|r: String| r@),
            cursor: self.cursor as nat,
            awaiting: self.current is Some,
            succeeded: self.succeeded as nat,
            failures: self.failures@.map_values(|f: DeliveryFailure| f@),
        }
    }
}

impl Dispatch {
    #[verifier::type_invariant]
    spec fn valid(self) -> bool {
        &&& self@.wf()
        &&& self.current matches Some(email) ==> email@ == self.recipients@[self.cursor as int]@
    }

    /// The issue that is dispatched.
    pub closed spec fn issue(&self) -> NewsletterIssue {
        self.issue
    }

    /// A dispatch of `issue` to the stored addresses `recipients`, before
    /// its first step.
    pub fn new(issue: NewsletterIssue, recipients: Vec<String>) -> (dispatch: Dispatch)
        ensures
            dispatch@ == DispatchState::start(recipients@.map_values(|r: String| r@)),
            dispatch@.wf(),
            dispatch.issue() == issue,
    {
        let dispatch = Dispatch {
            issue,
            recipients,
            cursor: 0,
            current: None,
            succeeded: 0,
            failures: Vec::new(),
        };
        assert(dispatch@.failures =~= Seq::empty());
        dispatch
    }

    /// A dispatch of `issue` to the confirmed subscribers of `store`, before
    /// its first step.
    pub fn for_store(issue: NewsletterIssue, store: &SubscriptionStore) -> (dispatch: Dispatch)
        ensures
            dispatch@ == DispatchState::start(store@.confirmed_emails()),
            dispatch@.wf(),
            dispatch.issue() == issue,
    {
        let emails = store.list_confirmed_emails();
        let mut recipients: Vec<String> = Vec::new();
        let mut i: usize = 0;
        while i < emails.len()
            invariant
                i <= emails@.len(),
                recipients@.map_values(|r: String| r@) == emails@.map_values(
                    |e: SubscriberEmail| e@,
                ).take(i as int),
            decreases emails@.len() - i,
        {
            let ghost shown = recipients@.map_values(|r: String| r@);
            let text = String::from_str(emails[i].as_ref());
            recipients.push(text);
            assert(recipients@.map_values(|r: String| r@) =~= shown.push(text@));
            assert(emails@.map_values(|e: SubscriberEmail| e@).take(i + 1) =~= shown.push(text@));
            i += 1;
        }
        assert(emails@.map_values(|e: SubscriberEmail| e@).take(i as int)
            =~= emails@.map_values(|e: SubscriberEmail| e@));
        Dispatch::new(issue, recipients)
    }

    /// Moves on to the next recipient with a well-formed address, recording
    /// those with a malformed address on the way, and hands out the
    /// delivery to make. A dispatch that is waiting for an outcome hands out
    /// the same delivery again. No delivery is handed out once every
    /// recipient is done.
    pub fn advance(self) -> (r: (Dispatch, Option<Delivery>))
        ensures
            r.0@ == self@.advance(),
            r.0@.wf(),
            r.0.issue() == self.issue(),
            match r.1 {
                Some(delivery) => {
                    &&& r.0@.current() == Some(delivery.recipient@)
                    &&& delivery.subject@ == self.issue().subject@
                    &&& delivery.html_content@ == self.issue().html_content@
                    &&& delivery.text_content@ == self.issue().text_content@
                },
                None => r.0@.finished(),
            },
    {
        proof {
            use_type_invariant(&self);
        }
        let ghost target = self@.advance();
        let Dispatch { issue, recipients, mut cursor, mut current, succeeded, mut failures } = self;
        while cursor < recipients.len() && current.is_none()
            invariant
                cursor <= recipients@.len(),
                succeeded + failures@.len() == cursor,
                current matches Some(email) ==> cursor < recipients@.len() && email@
                    == recipients@[cursor as int]@ && is_email_address(email@),
                target == (DispatchState {
                    recipients: recipients@.map_values(|r: String| r@),
                    cursor: cursor as nat,
                    awaiting: current is Some,
                    succeeded: succeeded as nat,
                    failures: failures@.map_values(|f: DeliveryFailure| f@),
                }).advance(),
            decreases 2 * (recipients@.len() - cursor) + if current is None {
                1int
            } else {
                0int
            },
        {
            let ghost before = DispatchState {
                recipients: recipients@.map_values(|r: String| r@),
                cursor: cursor as nat,
                awaiting: false,
                succeeded: succeeded as nat,
                failures: failures@.map_values(|f: DeliveryFailure| f@),
            };
            match SubscriberEmail::parse(recipients[cursor].clone()) {
                Ok(email) => {
                    current = Some(email);
                },
                Err(_) => {
                    let failure = DeliveryFailure {
                        recipient: recipients[cursor].clone(),
                        reason: FailureReason::MalformedAddress,
                    };
                    failures.push(failure);
                    cursor += 1;
                    assert(failures@.map_values(|f: DeliveryFailure| f@)
                        =~= before.skip_malformed().failures);
                },
            }
        }
        let delivery = match &current {
            Some(email) => Some(
                Delivery {
                    recipient: email.clone(),
                    subject: issue.subject.clone(),
                    html_content: issue.html_content.clone(),
                    text_content: issue.text_content.clone(),
                },
            ),
            None => None,
        };
        (Dispatch { issue, recipients, cursor, current, succeeded, failures }, delivery)
    }

    /// Records how the delivery to the current recipient went, and is done
    /// with that recipient. A dispatch that is not waiting for an outcome
    /// stays as it is.
    pub fn record(self, outcome: Result<(), String>) -> (dispatch: Dispatch)
        ensures
            dispatch@ == self@.record(outcome_view(outcome)),
            dispatch@.wf(),
            dispatch.issue() == self.issue(),
    {
        proof {
            use_type_invariant(&self);
            assert(self@.awaiting ==> self.cursor < self.recipients@.len());
        }
        let Dispatch { issue, recipients, cursor, current, succeeded, mut failures } = self;
        if current.is_none() {
            return Dispatch { issue, recipients, cursor, current, succeeded, failures };
        }
        assert(cursor < recipients.len());
        match outcome {
            Ok(()) => Dispatch {
                issue,
                recipients,
                cursor: cursor + 1,
                current: None,
                succeeded: succeeded + 1,
                failures,
            },
            Err(cause) => {
                let ghost shown = failures@.map_values(|f: DeliveryFailure| f@);
                let failure = DeliveryFailure {
                    recipient: recipients[cursor].clone(),
                    reason: FailureReason::SendFailed(cause),
                };
                failures.push(failure);
                assert(failures@.map_values(|f: DeliveryFailure| f@) =~= shown.push(failure@));
                Dispatch { issue, recipients, cursor: cursor + 1, current: None, succeeded, failures }
            },
        }
    }

    /// How the dispatch went so far. Once every recipient is done, this is
    /// how the dispatch went.
    pub fn report(self) -> (report: DispatchReport)
        ensures
            report@ == self@.report(),
            report@.attempted == report@.succeeded + report@.failures.len(),
    {
        proof {
            use_type_invariant(&self);
        }
        let Dispatch { issue, recipients, cursor, current, succeeded, failures } = self;
        DispatchReport { attempted: cursor, succeeded, failures }
    }
}

} // verus!
