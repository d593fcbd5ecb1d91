//! The request that asks the email provider for one delivery.

use crate::domain::subscriber_email::{is_email_address, SubscriberEmail};
use vstd::prelude::*;
use vstd::string::StringExecFns;

verus! {

/// The body of the request that asks the provider to deliver one email.
#[derive(Debug, PartialEq, Eq)]
pub struct SendEmailRequest {
    pub from: String,
    pub to: String,
    pub subject: String,
    pub html_body: String,
    pub text_body: String,
}

/// The provider's address and the address that emails are sent from.
#[derive(Debug)]
pub struct EmailService {
    base_url: String,
    sender: SubscriberEmail,
}

impl EmailService {
    /// The address of the provider.
    pub closed spec fn base_url_text(&self) -> Seq<char> {
        self.base_url@
    }

    /// The address that emails are sent from.
    pub closed spec fn sender_text(&self) -> Seq<char> {
        self.sender@
    }

    /// A service that asks the provider at `base_url` and sends from
    /// `sender`.
    pub fn new(base_url: String, sender: SubscriberEmail) -> (service: EmailService)
        ensures
            service.base_url_text() == base_url@,
            service.sender_text() == sender@,
    {
        EmailService { base_url, sender }
    }

    /// Where a delivery is asked for: the path `/email` under the address
    /// of the provider.
    pub fn endpoint(&self) -> (url: String)
        ensures
            url@ == self.base_url_text() + "/email"@,
    {
        self.base_url.clone().concat("/email")
    }

    /// The request that asks for the delivery of one email to `recipient`,
    /// from the sender of this service.
    pub fn send_email_request(
        &self,
        recipient: SubscriberEmail,
        subject: &str,
        html_content: &str,
        text_content: &str,
    ) -> (request: SendEmailRequest)
        ensures
            request.from@ == self.sender_text(),
            request.to@ == recipient@,
            request.subject@ == subject@,
            request.html_body@ == html_content@,
            request.text_body@ == text_content@,
            is_email_address(request.from@),
            is_email_address(request.to@),
    {
        SendEmailRequest {
            from: String::from_str(self.sender.as_ref()),
            to: String::from_str(recipient.as_ref()),
            subject: String::from_str(subject),
            html_body: String::from_str(html_content),
            text_body: String::from_str(text_content),
        }
    }
}

} // verus!
