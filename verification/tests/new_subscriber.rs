use zero2prod::domain::{NewSubscriber, ValidationError};
use zero2prod::routes::FormData;

fn form_of(name: &str, email: &str) -> FormData {
    FormData { name: name.to_string(), email: email.to_string() }
}

#[test]
fn a_valid_form_gives_a_subscriber() {
    let subscriber =
        NewSubscriber::try_from(form_of(" le guin ", "ursula_le_guin@gmail.com")).unwrap();
    assert_eq!(subscriber.name.as_ref(), "le guin");
    assert_eq!(subscriber.email.as_ref(), "ursula_le_guin@gmail.com");
}

#[test]
fn an_invalid_name_is_reported() {
    let r = NewSubscriber::try_from(form_of("", "ursula_le_guin@gmail.com"));
    assert_eq!(r.unwrap_err(), ValidationError::EmptyName);
    let r = NewSubscriber::try_from(form_of("le (guin)", "ursula_le_guin@gmail.com"));
    assert_eq!(r.unwrap_err(), ValidationError::ForbiddenCharacter);
}

#[test]
fn an_invalid_email_is_reported() {
    let r = NewSubscriber::try_from(form_of("le guin", "definitely-not-an-email"));
    assert_eq!(r.unwrap_err(), ValidationError::InvalidEmail);
}

#[test]
fn the_name_is_reported_before_the_email() {
    let r = NewSubscriber::try_from(form_of("  ", "definitely-not-an-email"));
    assert_eq!(r.unwrap_err(), ValidationError::EmptyName);
    let r = NewSubscriber::try_from(form_of(&"a".repeat(300), ""));
    assert_eq!(r.unwrap_err(), ValidationError::NameTooLong);
}
