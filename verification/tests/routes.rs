use newsletter::routes::{
    check_new_password, ApplicationBaseUrl, HomeError, LoginData, LoginError, Parameters,
    PasswordRejection, SubscriptionsConfirmError,
};

#[test]
fn home_and_login_errors_are_server_errors() {
    let error = HomeError::UnexpectedError("Failed to render html body".to_string());
    assert_eq!(error.status_code(), 500);
    assert_eq!(error.message(), "Failed to render html body");
    let error = LoginError::UnexpectedError("failed to add removal cookie".to_string());
    assert_eq!(error.status_code(), 500);
    assert_eq!(error.message(), "failed to add removal cookie");
}

#[test]
fn unknown_token_is_not_found() {
    let error = SubscriptionsConfirmError::NotFoundError("subscriber id not found".to_string());
    assert_eq!(error.status_code(), 404);
    assert_eq!(error.message(), "subscriber id not found");
    let error = SubscriptionsConfirmError::UnexpectedError("Failed to confirm subscriber".to_string());
    assert_eq!(error.status_code(), 500);
    assert_eq!(error.message(), "Failed to confirm subscriber");
}

#[test]
fn token_lookup_turns_into_subscriber_or_not_found() {
    assert_eq!(SubscriptionsConfirmError::subscriber_or_not_found(Some(42)), Ok(42));
    assert_eq!(
        SubscriptionsConfirmError::subscriber_or_not_found(None),
        Err(SubscriptionsConfirmError::NotFoundError("subscriber id not found".to_string()))
    );
}

#[test]
fn login_data_keeps_the_messages_in_order() {
    let data = LoginData::new(vec!["first".to_string(), "second".to_string()]);
    assert_eq!(data.messages(), &vec!["first".to_string(), "second".to_string()]);
    assert!(LoginData::new(vec![]).messages().is_empty());
}

#[test]
fn parameters_carry_the_token() {
    let parameters = Parameters::new("abc123".to_string());
    assert_eq!(parameters.subscription_token(), "abc123");
}

#[test]
fn base_url_wraps_the_text() {
    let url = ApplicationBaseUrl("http://127.0.0.1".to_string());
    assert_eq!(url.0, "http://127.0.0.1");
}

fn check(new: &str, repeated: &str) -> Result<(), PasswordRejection> {
    check_new_password(&new.to_string(), &repeated.to_string())
}

#[test]
fn passwords_must_match() {
    assert_eq!(check("a-long-enough-password", "another-long-password"), Err(PasswordRejection::Mismatch));
    assert_eq!(check("short", "shorter"), Err(PasswordRejection::Mismatch));
}

#[test]
fn passwords_must_have_twelve_to_128_bytes() {
    assert_eq!(check("elevenbytes", "elevenbytes"), Err(PasswordRejection::TooShort));
    assert_eq!(check("", ""), Err(PasswordRejection::TooShort));
    assert_eq!(check("twelve-bytes", "twelve-bytes"), Ok(()));
    let longest = "x".repeat(128);
    assert_eq!(check(&longest, &longest), Ok(()));
    let too_long = "x".repeat(129);
    assert_eq!(check(&too_long, &too_long), Err(PasswordRejection::TooLong));
}

#[test]
fn password_length_is_counted_in_bytes() {
    let six_letters_twelve_bytes = "éééééé";
    assert_eq!(check(six_letters_twelve_bytes, six_letters_twelve_bytes), Ok(()));
    let sixty_five_letters = "é".repeat(65);
    assert_eq!(check(&sixty_five_letters, &sixty_five_letters), Err(PasswordRejection::TooLong));
}

#[test]
fn rejections_tell_the_user_why() {
    assert_eq!(
        PasswordRejection::Mismatch.message(),
        "You entered two different new passwords - the field values must match."
    );
    assert_eq!(PasswordRejection::TooShort.message(), "The new password is too short");
    assert_eq!(PasswordRejection::TooLong.message(), "The new password is too long");
}
