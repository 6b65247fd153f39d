use zero2prod::configuration::{
    ApplicationSettings, DatabaseSettings, EmailClientSettings, Environment, Settings,
    POOL_ACQUIRE_TIMEOUT_SECS,
};

#[test]
fn environment_names_round_trip() {
    assert_eq!(Environment::try_from("local".to_string()).unwrap().as_str(), "local");
    assert_eq!(
        Environment::try_from("production".to_string()).unwrap().as_str(),
        "production"
    );
    assert_eq!(Environment::try_from("test".to_string()).unwrap().as_str(), "test");
}

#[test]
fn environment_names_ignore_ascii_case() {
    assert_eq!(Environment::try_from("LOCAL".to_string()).unwrap(), Environment::Local);
    assert_eq!(
        Environment::try_from("Production".to_string()).unwrap(),
        Environment::Production
    );
    assert_eq!(Environment::try_from("TeSt".to_string()).unwrap(), Environment::Test);
}

#[test]
fn an_unknown_environment_is_refused_with_a_reason() {
    let err = Environment::try_from("dev".to_string()).unwrap_err();
    assert_eq!(
        err,
        "dev is not a supported environment. Use either `local`, `production` or `test`."
    );
}

#[test]
fn each_environment_has_its_configuration_file() {
    assert_eq!(Environment::Local.configuration_file(), "configuration/local.yaml");
    assert_eq!(
        Environment::Production.configuration_file(),
        "configuration/production.yaml"
    );
    assert_eq!(Environment::Test.configuration_file(), "configuration/test.yaml");
}

#[test]
fn the_connection_string_is_the_configured_filename() {
    let db = DatabaseSettings {
        filename: "newsletter.db".to_string(),
    };
    assert_eq!(db.connection_string(), "newsletter.db");
}

#[test]
fn a_valid_sender_address_is_accepted_at_startup() {
    let settings = Settings {
        database: DatabaseSettings {
            filename: "newsletter.db".to_string(),
        },
        application: ApplicationSettings {
            port: 8000,
            host: "127.0.0.1".to_string(),
        },
        email_client: EmailClientSettings {
            base_url: "http://localhost".to_string(),
            sender_email: "noreply@example.com".to_string(),
        },
    };
    let sender = settings.email_client.sender().unwrap();
    assert_eq!(sender.as_ref(), "noreply@example.com");
}

#[test]
fn an_invalid_sender_address_is_refused_at_startup() {
    let email_client = EmailClientSettings {
        base_url: "http://localhost".to_string(),
        sender_email: "not-an-address".to_string(),
    };
    assert!(email_client.sender().is_err());
}

#[test]
fn the_pool_acquire_timeout_is_two_seconds() {
    assert_eq!(POOL_ACQUIRE_TIMEOUT_SECS, 2);
}
