use zero2prod::configuration::ApplicationSettings;
use zero2prod::configuration::Environment;
use zero2prod::errors::check_new_password;
use zero2prod::errors::LoginError;
use zero2prod::errors::LogoutError;
use zero2prod::errors::PasswordError;
use zero2prod::errors::SubscribeError;
use zero2prod::newsletters::deliver_to_all;
use zero2prod::newsletters::PublishError as DirectPublishError;
use zero2prod::publish::PublishError;
use zero2prod::response::see_other;
use zero2prod::subscriptions::confirmation_email;
use zero2prod::subscriptions::generate_subscription_token;

#[test]
fn environment_names_round_trip() {
    assert_eq!(Environment::Local.as_str(), "local");
    assert_eq!(Environment::Production.as_str(), "production");
    assert!(matches!(Environment::parse("local"), Ok(Environment::Local)));
    assert!(matches!(Environment::parse("LOCAL"), Ok(Environment::Local)));
    assert!(matches!(Environment::parse("Production"), Ok(Environment::Production)));
    let err = Environment::parse("dev").unwrap_err();
    assert_eq!(err, "dev is not a supported environment. Use either local or production.");
}

#[test]
fn application_settings_hold_their_values() {
    let settings = ApplicationSettings { port: 8000, host: "127.0.0.1".to_string() };
    assert_eq!(settings.port, 8000);
    assert_eq!(settings.host, "127.0.0.1");
}

#[test]
fn new_password_fields_must_match() {
    let err = check_new_password(&"one-password-long".to_string(), &"another-password".to_string())
        .unwrap_err();
    match err {
        PasswordError::ValidationError(m) => assert_eq!(m, "passwords don't match"),
        _ => panic!("a mismatch is a validation error"),
    }
}

#[test]
fn new_password_length_is_bounded() {
    // 12 characters: too short
    let twelve = "123456789012".to_string();
    match check_new_password(&twelve, &twelve).unwrap_err() {
        PasswordError::ValidationError(m) => assert_eq!(m, "password length invalid"),
        _ => panic!("a short password is a validation error"),
    }
    // 128 characters: too long
    let long = "a".repeat(128);
    match check_new_password(&long, &long).unwrap_err() {
        PasswordError::ValidationError(m) => assert_eq!(m, "password length invalid"),
        _ => panic!("a long password is a validation error"),
    }
    // 13 and 127 characters: accepted
    let thirteen = "1234567890123".to_string();
    assert!(check_new_password(&thirteen, &thirteen).is_ok());
    let almost = "a".repeat(127);
    assert!(check_new_password(&almost, &almost).is_ok());
}

#[test]
fn error_statuses_and_messages() {
    let (s, m) = PublishError::UnexpectedError("db".to_string()).status_and_message();
    assert_eq!((s, m.as_str()), (500, "Something went wrong"));
    let (s, m) = PublishError::Unauthenticated("Please log in.".to_string()).status_and_message();
    assert_eq!((s, m.as_str()), (401, "Please log in."));
    let (s, m) = PublishError::ValidationError("invalid idempotency key".to_string())
        .status_and_message();
    assert_eq!((s, m.as_str()), (400, "invalid idempotency key"));

    let (s, m) = LogoutError::AuthError("who".to_string()).status_and_message();
    assert_eq!((s, m.as_str()), (401, "Authentication failed"));
    let (s, m) = LogoutError::UnexpectedError("db".to_string()).status_and_message();
    assert_eq!((s, m.as_str()), (500, "Something went wrong"));

    let (s, m) = LoginError::AuthError("who".to_string()).status_and_message();
    assert_eq!((s, m.as_str()), (401, "Authentication failed"));
    let (s, m) = LoginError::UnexpectedError("db".to_string()).status_and_message();
    assert_eq!((s, m.as_str()), (500, "Something went wrong"));

    let (s, m) = PasswordError::ValidationError("passwords don't match".to_string())
        .status_and_message();
    assert_eq!((s, m.as_str()), (400, "passwords don't match"));
    let (s, m) = PasswordError::UnexpectedError("db".to_string()).status_and_message();
    assert_eq!((s, m.as_str()), (500, "Something went wrong"));
    let (s, m) = PasswordError::Unauthenticated("anon".to_string()).status_and_message();
    assert_eq!((s, m.as_str()), (303, "/login"));

    let (s, m) = SubscribeError::ValidationError("empty name".to_string()).status_and_message();
    assert_eq!((s, m.as_str()), (400, "empty name"));
    let (s, m) = SubscribeError::UnexpectedError("db".to_string()).status_and_message();
    assert_eq!((s, m.as_str()), (500, "Something went wrong"));
}

#[test]
fn direct_delivery_stops_at_the_first_failure() {
    let recipients = vec!["a@x.com".to_string(), "b@x.com".to_string(), "c@x.com".to_string()];
    assert_eq!(deliver_to_all(&recipients, &vec![true, true, true]).unwrap(), 200);
    let err = deliver_to_all(&recipients, &vec![true, false, true]).unwrap_err();
    match &err {
        DirectPublishError::UnexpectedError(m) => {
            assert_eq!(m, "Failed to send newsletter issue to b@x.com");
        }
        DirectPublishError::Unauthenticated(_) => panic!("a failed send is unexpected"),
    }
    let (s, m) = err.status_and_message();
    assert_eq!((s, m.as_str()), (500, "Something went wrong"));
    let (s, m) = DirectPublishError::Unauthenticated("Please log in.".to_string())
        .status_and_message();
    assert_eq!((s, m.as_str()), (401, "Please log in."));
}

#[test]
fn subscription_tokens_are_25_alphanumerics() {
    let token = generate_subscription_token();
    assert_eq!(token.chars().count(), 25);
    assert!(token.chars().all(|c| c.is_ascii_alphanumeric()));
}

#[test]
fn confirmation_emails_carry_the_link() {
    let email = confirmation_email("example.com", "tok25");
    assert_eq!(email.subject, "Welcome!");
    assert_eq!(
        email.text_body,
        "Welcome to our newsletter! Visit http://example.com/subscriptions/confirm?subscription_token=tok25 to confirm your subscription."
    );
    assert_eq!(
        email.html_body,
        "Welcome to our newsletter!<br />Click <a href=\"http://example.com/subscriptions/confirm?subscription_token=tok25\">here</a> to confirm your subscription."
    );
}

#[test]
fn see_other_is_a_bare_redirect() {
    let r = see_other("/admin/newsletters");
    assert_eq!(r.status, 303);
    assert_eq!(r.headers.len(), 1);
    assert_eq!(r.headers[0].name, "location");
    assert_eq!(r.headers[0].value, b"/admin/newsletters".to_vec());
    assert!(r.body.is_empty());
    let again = r.clone();
    assert_eq!(again, r);
}
