//! The rules behind the web pages: what an error answers with, what a form
//! must hold. The handlers themselves live with the web server.

use vstd::prelude::*;

verus! {

broadcast use vstd::string::group_string_axioms;

/// The status of an answer that found nothing.
pub const NOT_FOUND: u16 = 404;

/// The status of an answer to a request that failed on the server's side.
pub const INTERNAL_SERVER_ERROR: u16 = 500;

/// The fewest bytes a new password may have.
pub const MIN_PASSWORD_BYTES: usize = 12;

/// The most bytes a new password may have.
pub const MAX_PASSWORD_BYTES: usize = 128;

/// What can go wrong while the home page is rendered.
#[derive(Debug, PartialEq, Eq)]
pub enum HomeError {
    /// Anything; the text says what.
    UnexpectedError(String),
}

impl HomeError {
    /// Every failure of the home page is the server's.
    pub fn status_code(&self) -> (status: u16)
        ensures
            status == INTERNAL_SERVER_ERROR,
    {
        INTERNAL_SERVER_ERROR
    }

    /// The text of the error.
    pub fn message(&self) -> (text: String)
        ensures
            text@ == self->UnexpectedError_0@,
    {
        match self {
            HomeError::UnexpectedError(cause) => cause.clone(),
        }
    }
}

/// What can go wrong while the login form is rendered.
#[derive(Debug, PartialEq, Eq)]
pub enum LoginError {
    /// Anything; the text says what.
    UnexpectedError(String),
}

impl LoginError {
    /// Every failure of the login form is the server's.
    pub fn status_code(&self) -> (status: u16)
        ensures
            status == INTERNAL_SERVER_ERROR,
    {
        INTERNAL_SERVER_ERROR
    }

    /// The text of the error.
    pub fn message(&self) -> (text: String)
        ensures
            text@ == self->UnexpectedError_0@,
    {
        match self {
            LoginError::UnexpectedError(cause) => cause.clone(),
        }
    }
}

/// What can go wrong while a subscription is confirmed.
#[derive(Debug, PartialEq, Eq)]
pub enum SubscriptionsConfirmError {
    /// No subscriber goes with the token.
    NotFoundError(String),
    /// Anything else; the text says what.
    UnexpectedError(String),
}

impl SubscriptionsConfirmError {
    /// An unknown token is answered with "not found", everything else with a
    /// server error.
    pub fn status_code(&self) -> (status: u16)
        ensures
            status == match self {
                SubscriptionsConfirmError::NotFoundError(_) => NOT_FOUND,
                SubscriptionsConfirmError::UnexpectedError(_) => INTERNAL_SERVER_ERROR,
            },
    {
        match self {
            SubscriptionsConfirmError::NotFoundError(_) => NOT_FOUND,
            SubscriptionsConfirmError::UnexpectedError(_) => INTERNAL_SERVER_ERROR,
        }
    }

    /// The text of the error.
    pub fn message(&self) -> (text: String)
        ensures
            text@ == match self {
                SubscriptionsConfirmError::NotFoundError(what) => what@,
                SubscriptionsConfirmError::UnexpectedError(cause) => cause@,
            },
    {
        match self {
            SubscriptionsConfirmError::NotFoundError(what) => what.clone(),
            SubscriptionsConfirmError::UnexpectedError(cause) => cause.clone(),
        }
    }

    /// Turns the answer of the token lookup into the subscriber to confirm:
    /// a token that nobody owns is "not found".
    pub fn subscriber_or_not_found(found: Option<u128>) -> (subscriber: Result<
        u128,
        SubscriptionsConfirmError,
    >)
        ensures
            match found {
                Some(id) => subscriber matches Ok(same) && same == id,
                None => subscriber matches Err(SubscriptionsConfirmError::NotFoundError(what))
                    && what@ == "subscriber id not found"@,
            },
    {
        match found {
            Some(id) => Ok(id),
            None => Err(
                SubscriptionsConfirmError::NotFoundError("subscriber id not found".to_owned()),
            ),
        }
    }
}

/// What the login page shows: the messages left by the last request.
#[derive(Debug, PartialEq, Eq)]
pub struct LoginData {
    messages: Vec<String>,
}

impl LoginData {
    /// The data for a page that shows `messages`, in that order.
    pub fn new(messages: Vec<String>) -> (data: LoginData)
        ensures
            data.messages_shown() == messages@,
    {
        LoginData { messages }
    }

    /// The messages, in the order in which they are shown.
    pub closed spec fn messages_shown(&self) -> Seq<String> {
        self.messages@
    }

    /// The messages, in the order in which they are shown.
    pub fn messages(&self) -> (messages: &Vec<String>)
        ensures
            messages@ == self.messages_shown(),
    {
        &self.messages
    }
}

/// The query of a confirmation link.
#[derive(Debug, PartialEq, Eq)]
pub struct Parameters {
    subscription_token: String,
}

impl View for Parameters {
    type V = Seq<char>;

    closed spec fn view(&self) -> Seq<char> {
        self.subscription_token@
    }
}

impl Parameters {
    /// The query that carries `subscription_token`.
    pub fn new(subscription_token: String) -> (parameters: Parameters)
        ensures
            parameters@ == subscription_token@,
    {
        Parameters { subscription_token }
    }

    /// The token.
    pub fn subscription_token(&self) -> (token: &str)
        ensures
            token@ == self@,
    {
        self.subscription_token.as_str()
    }
}

/// The address under which the application is reached from outside.
#[derive(Debug, PartialEq, Eq)]
pub struct ApplicationBaseUrl(pub String);

/// Why a new password is turned down.
#[derive(Clone, Copy, Debug, PartialEq, Eq, Structural)]
pub enum PasswordRejection {
    /// The password and its repetition differ.
    Mismatch,
    /// The password has fewer than [`MIN_PASSWORD_BYTES`] bytes.
    TooShort,
    /// The password has more than [`MAX_PASSWORD_BYTES`] bytes.
    TooLong,
}

/// What is wrong with a new password and its repetition, if anything. A
/// mismatch is reported before a wrong length. The length is that of the
/// password in UTF-8, as the machine counts it.
pub open spec fn password_fault(new_password: Seq<char>, new_password_check: Seq<char>) -> Option<
    PasswordRejection,
> {
    let bytes = vstd::utf8::encode_utf8(new_password).len() as usize;
    if new_password != new_password_check {
        Some(PasswordRejection::Mismatch)
    } else if bytes < MIN_PASSWORD_BYTES {
        Some(PasswordRejection::TooShort)
    } else if bytes > MAX_PASSWORD_BYTES {
        Some(PasswordRejection::TooLong)
    } else {
        None
    }
}

/// Checks a new password against its repetition and the length limits.
pub fn check_new_password(new_password: &String, new_password_check: &String) -> (checked: Result<
    (),
    PasswordRejection,
>)
    ensures
        match checked {
            Ok(_) => password_fault(new_password@, new_password_check@) is None,
            Err(rejection) => password_fault(new_password@, new_password_check@) == Some(
                rejection,
            ),
        },
{
    let bytes: usize = new_password.as_str().len();
    if !(*new_password == *new_password_check) {
        Err(PasswordRejection::Mismatch)
    } else if bytes < MIN_PASSWORD_BYTES {
        Err(PasswordRejection::TooShort)
    } else if bytes > MAX_PASSWORD_BYTES {
        Err(PasswordRejection::TooLong)
    } else {
        Ok(())
    }
}

impl PasswordRejection {
    /// What the user is told.
    pub fn message(&self) -> (text: &'static str)
        ensures
            text@ == match self {
                PasswordRejection::Mismatch =>
                    "You entered two different new passwords - the field values must match."@,
                PasswordRejection::TooShort => "The new password is too short"@,
                PasswordRejection::TooLong => "The new password is too long"@,
            },
    {
        match self {
            PasswordRejection::Mismatch => {
                "You entered two different new passwords - the field values must match."
            },
            PasswordRejection::TooShort => "The new password is too short",
            PasswordRejection::TooLong => "The new password is too long",
        }
    }
}

} // verus!
