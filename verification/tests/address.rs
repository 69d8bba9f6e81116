use newsletter::address::{validate, ValidationError};

fn verdict(raw: &str) -> Result<String, ValidationError> {
    validate(raw.to_string()).map(|address| address.into_string())
}

#[test]
fn well_formed_addresses_pass_unchanged() {
    assert_eq!(verdict("ursula_le_guin@gmail.com"), Ok("ursula_le_guin@gmail.com".to_string()));
    assert_eq!(verdict("a@b"), Ok("a@b".to_string()));
    assert_eq!(verdict("jürgen@müller.de"), Ok("jürgen@müller.de".to_string()));
    assert_eq!(verdict(" @ "), Ok(" @ ".to_string()));
}

#[test]
fn as_str_gives_the_address() {
    let address = validate("reader@example.com".to_string()).unwrap();
    assert_eq!(address.as_str(), "reader@example.com");
    let copy = address.clone();
    assert_eq!(copy, address);
}

#[test]
fn empty_address_is_empty() {
    assert_eq!(verdict(""), Err(ValidationError::Empty));
}

#[test]
fn address_without_at_is_missing_at() {
    assert_eq!(verdict("not-an-email"), Err(ValidationError::MissingAt));
    assert_eq!(verdict("ursuladomain.com"), Err(ValidationError::MissingAt));
    assert_eq!(verdict(" "), Err(ValidationError::MissingAt));
}

#[test]
fn address_with_two_ats_is_multiple_at() {
    assert_eq!(verdict("a@b@c"), Err(ValidationError::MultipleAt));
    assert_eq!(verdict("@@"), Err(ValidationError::MultipleAt));
    assert_eq!(verdict("@a@"), Err(ValidationError::MultipleAt));
    assert_eq!(verdict("a@@b"), Err(ValidationError::MultipleAt));
    assert_eq!(verdict("a@b@c@d"), Err(ValidationError::MultipleAt));
}

#[test]
fn address_that_starts_with_at_has_empty_local_part() {
    assert_eq!(verdict("@domain.com"), Err(ValidationError::EmptyLocalPart));
    assert_eq!(verdict("@"), Err(ValidationError::EmptyLocalPart));
}

#[test]
fn address_that_ends_with_at_has_empty_domain() {
    assert_eq!(verdict("ursula@"), Err(ValidationError::EmptyDomain));
}
