use zero2prod::domain::NewSubscriber;
use zero2prod::forms::{parse_form_body, FormError};
use zero2prod::routes::SubscribeError;

/// The status the subscribe pipeline answers a body with, short of the store:
/// decode the form, convert it, and map a conversion failure to its status.
fn subscribe_status(body: &[u8]) -> u16 {
    match parse_form_body(body) {
        Err(_) => 400,
        Ok(form) => match NewSubscriber::try_from(form) {
            Err(reason) => SubscribeError::from(reason).status_code(),
            Ok(_) => 200,
        },
    }
}

#[test]
fn a_valid_body_decodes_both_fields() {
    let form = parse_form_body(b"name=John%20Woo&email=ursula_le_guin%40ya.ru").unwrap();
    assert_eq!(form.name, "John Woo");
    assert_eq!(form.email, "ursula_le_guin@ya.ru");
}

#[test]
fn a_body_missing_the_email_is_refused() {
    assert_eq!(
        parse_form_body(b"name=le%20guin").unwrap_err(),
        FormError::MissingEmail
    );
}

#[test]
fn a_body_missing_the_name_is_refused() {
    assert_eq!(
        parse_form_body(b"email=ursula_le_guin%40gmail.com").unwrap_err(),
        FormError::MissingName
    );
}

#[test]
fn an_empty_body_is_refused() {
    assert_eq!(parse_form_body(b"").unwrap_err(), FormError::MissingEmail);
}

#[test]
fn a_repeated_email_field_is_refused() {
    assert_eq!(
        parse_form_body(b"email=a%40b.com&name=Ursula&email=a%40b.com").unwrap_err(),
        FormError::DuplicateEmail
    );
}

#[test]
fn a_repeated_name_field_is_refused() {
    assert_eq!(
        parse_form_body(b"email=a%40b.com&name=Ursula&name=Ursula").unwrap_err(),
        FormError::DuplicateName
    );
}

#[test]
fn unknown_fields_are_ignored() {
    let form = parse_form_body(b"hp=1&name=Ursula&email=a%40b.com&hp=2").unwrap();
    assert_eq!(form.name, "Ursula");
    assert_eq!(form.email, "a@b.com");
}

#[test]
fn a_plus_decodes_to_a_space() {
    let form = parse_form_body(b"name=John+Woo&email=a%40b.com").unwrap();
    assert_eq!(form.name, "John Woo");
}

#[test]
fn a_field_without_equals_sign_has_an_empty_value() {
    let form = parse_form_body(b"name&email=a%40b.com").unwrap();
    assert_eq!(form.name, "");
}

#[test]
fn empty_segments_are_skipped() {
    let form = parse_form_body(b"&name=Ursula&&email=a%40b.com&").unwrap();
    assert_eq!(form.name, "Ursula");
    assert_eq!(form.email, "a@b.com");
}

#[test]
fn an_invalid_percent_sequence_stays_literal() {
    let form = parse_form_body(b"name=100%zz&email=a%40b.com").unwrap();
    assert_eq!(form.name, "100%zz");
    let form = parse_form_body(b"name=100%4&email=a%40b.com").unwrap();
    assert_eq!(form.name, "100%4");
}

#[test]
fn percent_decoded_keys_are_recognised() {
    let form = parse_form_body(b"%6eame=Ursula&email=a%40b.com").unwrap();
    assert_eq!(form.name, "Ursula");
}

#[test]
fn invalid_utf8_in_a_value_becomes_the_replacement_character() {
    let form = parse_form_body(b"name=%FF&email=a%40b.com").unwrap();
    assert_eq!(form.name, "\u{fffd}");
}

#[test]
fn an_empty_name_field_is_a_client_error() {
    assert_eq!(subscribe_status(b"name=&email=ursula_le_guin%40gmail.com"), 400);
}

#[test]
fn an_empty_email_field_is_a_client_error() {
    assert_eq!(subscribe_status(b"name=Ursula&email="), 400);
}

#[test]
fn an_invalid_email_field_is_a_client_error() {
    assert_eq!(subscribe_status(b"name=Ursula&email=definitely-not-an-email"), 400);
}

#[test]
fn a_missing_field_is_a_client_error() {
    for body in [
        b"name=le%20guin".as_slice(),
        b"email=ursula_le_guin%40gmail.com".as_slice(),
        b"".as_slice(),
    ] {
        assert_eq!(subscribe_status(body), 400);
    }
}

#[test]
fn a_valid_body_reaches_the_store() {
    assert_eq!(subscribe_status(b"name=John%20Woo&email=ursula_le_guin%40ya.ru"), 200);
}
