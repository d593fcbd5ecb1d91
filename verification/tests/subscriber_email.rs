use zero2prod::domain::{SubscriberEmail, ValidationError};

#[test]
fn valid_emails_are_parsed_successfully() {
    for s in [
        "ursula_le_guin@gmail.com",
        "email@here.com",
        "weirder-email@here.and.there.com",
        "a.b+c@example.co.uk",
        "email@[127.0.0.1]",
    ] {
        let email = SubscriberEmail::parse(s.to_string()).unwrap();
        assert_eq!(email.as_ref(), s);
    }
}

#[test]
fn empty_string_is_rejected() {
    assert_eq!(SubscriberEmail::parse(String::new()), Err(ValidationError::InvalidEmail));
}

#[test]
fn email_missing_at_symbol_is_rejected() {
    assert_eq!(
        SubscriberEmail::parse("ursuladomain.com".to_string()),
        Err(ValidationError::InvalidEmail)
    );
}

#[test]
fn email_missing_subject_is_rejected() {
    assert_eq!(
        SubscriberEmail::parse("@domain.com".to_string()),
        Err(ValidationError::InvalidEmail)
    );
}

#[test]
fn email_with_a_malformed_domain_is_rejected() {
    for s in ["abc@", "abc@.com", "abc@bar..com", "a b@example.com", "abc@-bar.com"] {
        assert_eq!(SubscriberEmail::parse(s.to_string()), Err(ValidationError::InvalidEmail));
    }
}

#[test]
fn an_email_is_kept_as_it_was_given() {
    let email = SubscriberEmail::parse("Ursula@Example.COM".to_string()).unwrap();
    assert_eq!(email.as_ref(), "Ursula@Example.COM");
}

#[test]
fn emails_are_equal_by_their_text() {
    let a = SubscriberEmail::parse("a@example.com".to_string()).unwrap();
    let b = SubscriberEmail::parse("a@example.com".to_string()).unwrap();
    let c = SubscriberEmail::parse("b@example.com".to_string()).unwrap();
    assert!(a == b);
    assert!(a != c);
    assert_eq!(a.clone(), a);
}
