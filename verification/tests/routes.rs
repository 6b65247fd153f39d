use zero2prod::domain::NewSubscriber;
use zero2prod::forms::FormData;
use zero2prod::routes::{health_check, insert_statement, SubscribeError, SubscriptionRecord};

#[test]
fn health_check_works() {
    assert_eq!(health_check(), 200);
}

#[test]
fn a_validation_error_is_a_client_error() {
    let err = SubscribeError::ValidationError("bad input".to_string());
    assert_eq!(err.status_code(), 400);
}

#[test]
fn a_database_error_is_a_server_error() {
    let err = SubscribeError::DatabaseError("no connection".to_string());
    assert_eq!(err.status_code(), 500);
}

#[test]
fn a_domain_failure_reason_converts_to_a_validation_error() {
    let err = SubscribeError::from("reason".to_string());
    assert_eq!(err.status_code(), 400);
}

#[test]
fn the_error_message_does_not_leak_the_detail() {
    let err = SubscribeError::DatabaseError("driver detail".to_string());
    assert_eq!(err.message(), "Failed to create a new subscriber.");
}

#[test]
fn a_new_record_carries_the_validated_values_and_pending_status() {
    let form = FormData {
        email: "ursula_le_guin@ya.ru".to_string(),
        name: "John Woo".to_string(),
    };
    let ns = NewSubscriber::try_from(form).unwrap();
    let record = SubscriptionRecord::new(&ns);
    assert_eq!(record.email, "ursula_le_guin@ya.ru");
    assert_eq!(record.name, "John Woo");
    assert_eq!(record.status, "pending_confirmation");
}

#[test]
fn the_record_timestamp_is_the_wall_clock() {
    let form = FormData {
        email: "a@b.com".to_string(),
        name: "Ursula".to_string(),
    };
    let ns = NewSubscriber::try_from(form).unwrap();
    let before = chrono::Utc::now().timestamp_millis();
    let record = SubscriptionRecord::new(&ns);
    let after = chrono::Utc::now().timestamp_millis();
    assert!(before <= record.subscribed_at_millis && record.subscribed_at_millis <= after);
}

#[test]
fn the_insert_statement_binds_all_four_columns() {
    assert_eq!(
        insert_statement(),
        "INSERT INTO subscriptions (email, name, subscribed_at, status) VALUES ($1, $2, $3, $4)"
    );
}

#[test]
fn validation_failures_map_to_a_client_error() {
    let form = FormData {
        email: "ursula_le_guin@gmail.com".to_string(),
        name: "".to_string(),
    };
    let err = zero2prod::routes::validate_subscription(form).unwrap_err();
    assert_eq!(err.status_code(), 400);
}

#[test]
fn a_valid_form_passes_validation() {
    let form = FormData {
        email: "ursula_le_guin@gmail.com".to_string(),
        name: "Ursula".to_string(),
    };
    let ns = zero2prod::routes::validate_subscription(form).unwrap();
    assert_eq!(ns.email.as_ref(), "ursula_le_guin@gmail.com");
}
