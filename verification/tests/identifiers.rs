use zero2prod::domain::confirmation_token::{char_is_token_char, TOKEN_LENGTH};
use zero2prod::domain::{ConfirmationToken, SubscriberId};

#[test]
fn a_generated_token_is_25_letters_and_digits() {
    for _ in 0..50 {
        let token = ConfirmationToken::generate();
        assert_eq!(token.as_ref().len(), 25);
        assert_eq!(TOKEN_LENGTH, 25);
        assert!(token.as_ref().chars().all(|c| c.is_ascii_alphanumeric()));
    }
}

#[test]
fn generated_tokens_differ() {
    let a = ConfirmationToken::generate();
    let b = ConfirmationToken::generate();
    assert_ne!(a.as_ref(), b.as_ref());
}

#[test]
fn a_generated_token_parses_to_itself() {
    let token = ConfirmationToken::generate();
    let again = ConfirmationToken::parse(token.as_ref().to_string()).unwrap();
    assert_eq!(again.as_ref(), token.as_ref());
    assert!(again.has_text(token.as_ref()));
    assert_eq!(token.clone().as_ref(), token.as_ref());
}

#[test]
fn a_token_has_the_shape_of_one() {
    assert!(ConfirmationToken::parse("abcdefghijklmnopqrstuvwxy".to_string()).is_some());
    assert!(ConfirmationToken::parse("ABCDEFGHIJ0123456789abcde".to_string()).is_some());
    assert!(ConfirmationToken::parse("abcdefghijklmnopqrstuvwx".to_string()).is_none());
    assert!(ConfirmationToken::parse("abcdefghijklmnopqrstuvwxyz".to_string()).is_none());
    assert!(ConfirmationToken::parse("abcdefghijklmnopqrstuvw-y".to_string()).is_none());
    assert!(ConfirmationToken::parse("abcdefghijklmnopqrstuvwxé".to_string()).is_none());
    assert!(ConfirmationToken::parse(String::new()).is_none());
}

#[test]
fn token_characters_are_the_ascii_letters_and_digits() {
    let mut c = '\u{0}';
    loop {
        assert_eq!(char_is_token_char(c), c.is_ascii_alphanumeric());
        if c as u32 >= 0x200 {
            break;
        }
        c = char::from_u32(c as u32 + 1).unwrap();
    }
}

#[test]
fn has_text_compares_the_whole_text() {
    let token = ConfirmationToken::parse("abcdefghijklmnopqrstuvwxy".to_string()).unwrap();
    assert!(token.has_text("abcdefghijklmnopqrstuvwxy"));
    assert!(!token.has_text("abcdefghijklmnopqrstuvwxz"));
    assert!(!token.has_text("abcdefghijklmnopqrstuvwx"));
    assert!(!token.has_text(""));
}

#[test]
fn a_generated_identifier_is_a_random_uuid() {
    for _ in 0..50 {
        let id = SubscriberId::generate();
        // the version is 4, the variant is the one of RFC 4122
        assert_eq!((id.0 >> 76) & 0xf, 4);
        assert_eq!((id.0 >> 62) & 0x3, 2);
    }
}

#[test]
fn generated_identifiers_differ() {
    assert_ne!(SubscriberId::generate(), SubscriberId::generate());
}
