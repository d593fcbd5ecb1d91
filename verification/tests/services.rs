use zero2prod::domain::SubscriberEmail;
use zero2prod::services::email::{EmailService, SendEmailRequest};
use zero2prod::startup::listen_address;

fn address(s: &str) -> SubscriberEmail {
    SubscriberEmail::parse(s.to_string()).unwrap()
}

#[test]
fn a_delivery_is_asked_for_at_the_email_path() {
    let service = EmailService::new("http://127.0.0.1:9000".to_string(), address("news@example.com"));
    assert_eq!(service.endpoint(), "http://127.0.0.1:9000/email");
}

#[test]
fn the_request_names_sender_recipient_subject_and_both_bodies() {
    let service = EmailService::new("http://127.0.0.1:9000".to_string(), address("news@example.com"));
    let request =
        service.send_email_request(address("reader@example.com"), "Welcome!", "<p>Hello</p>", "Hello");
    assert_eq!(
        request,
        SendEmailRequest {
            from: "news@example.com".to_string(),
            to: "reader@example.com".to_string(),
            subject: "Welcome!".to_string(),
            html_body: "<p>Hello</p>".to_string(),
            text_body: "Hello".to_string(),
        }
    );
}

#[test]
fn the_service_listens_on_host_and_port() {
    assert_eq!(listen_address("127.0.0.1", None, "8000"), "127.0.0.1:8000");
    assert_eq!(listen_address("0.0.0.0", Some("9090".to_string()), "8000"), "0.0.0.0:9090");
    assert_eq!(listen_address("localhost", None, "0"), "localhost:0");
}
