//! Error taxonomy of the caller-facing flows.
//!
//! Validation errors carry a specific, actionable message; unexpected errors
//! are reported with a generic message so nothing internal leaks. Each enum
//! maps itself to the status code and message its flow answers with; the
//! web layer only wraps that pair into its transport.

use vstd::prelude::*;

verus! {

use vstd::string::StrSliceExecFns;
use vstd::string::StringExecFns;

/// Failure of the logout flow.
#[derive(Debug)]
pub enum LogoutError {
    /// The caller was not authenticated.
    AuthError(String),
    /// A session or storage fault, with its diagnostic context.
    UnexpectedError(String),
}

impl LogoutError {
    /// The status code and message this error is reported with.
    pub fn status_and_message(&self) -> (r: (u16, String))
        ensures
            match self {
                LogoutError::AuthError(_) => r.0 == 401 && r.1@ == "Authentication failed"@,
                LogoutError::UnexpectedError(_) => r.0 == 500 && r.1@
                    == "Something went wrong"@,
            },
    {
        match self {
            LogoutError::AuthError(_) => (401, String::from_str("Authentication failed")),
            LogoutError::UnexpectedError(_) => (500, String::from_str("Something went wrong")),
        }
    }
}

/// Failure of the login flow.
#[derive(Debug)]
pub enum LoginError {
    /// The submitted credentials were rejected.
    AuthError(String),
    /// A session or storage fault, with its diagnostic context.
    UnexpectedError(String),
}

impl LoginError {
    /// The status code and message this error is reported with.
    pub fn status_and_message(&self) -> (r: (u16, String))
        ensures
            match self {
                LoginError::AuthError(_) => r.0 == 401 && r.1@ == "Authentication failed"@,
                LoginError::UnexpectedError(_) => r.0 == 500 && r.1@ == "Something went wrong"@,
            },
    {
        match self {
            LoginError::AuthError(_) => (401, String::from_str("Authentication failed")),
            LoginError::UnexpectedError(_) => (500, String::from_str("Something went wrong")),
        }
    }
}

/// Failure of the change-password flow.
#[derive(Debug)]
pub enum PasswordError {
    /// The submitted passwords were rejected; the message says why.
    ValidationError(String),
    /// A session or storage fault, with its diagnostic context.
    UnexpectedError(String),
    /// The caller is not logged in and is sent back to the login form.
    Unauthenticated(String),
}

impl PasswordError {
    /// The status code and message this error is reported with. For an
    /// unauthenticated caller the answer is a redirect, so the message is
    /// the location it points at.
    pub fn status_and_message(&self) -> (r: (u16, String))
        ensures
            match self {
                PasswordError::ValidationError(m) => r.0 == 400 && r.1@ == m@,
                PasswordError::UnexpectedError(_) => r.0 == 500 && r.1@
                    == "Something went wrong"@,
                PasswordError::Unauthenticated(_) => r.0 == 303 && r.1@ == "/login"@,
            },
    {
        match self {
            PasswordError::ValidationError(m) => (400, m.clone()),
            PasswordError::UnexpectedError(_) => (500, String::from_str("Something went wrong")),
            PasswordError::Unauthenticated(_) => (303, String::from_str("/login")),
        }
    }
}

/// Failure of the subscribe flow.
#[derive(Debug)]
pub enum SubscribeError {
    /// The submitted form data was rejected; the message says why.
    ValidationError(String),
    /// A storage or transport fault, with its diagnostic context.
    UnexpectedError(String),
}

impl SubscribeError {
    /// The status code and message this error is reported with.
    pub fn status_and_message(&self) -> (r: (u16, String))
        ensures
            match self {
                SubscribeError::ValidationError(m) => r.0 == 400 && r.1@ == m@,
                SubscribeError::UnexpectedError(_) => r.0 == 500 && r.1@
                    == "Something went wrong"@,
            },
    {
        match self {
            SubscribeError::ValidationError(m) => (400, m.clone()),
            SubscribeError::UnexpectedError(_) => (500, String::from_str("Something went wrong")),
        }
    }
}

/// Validate a requested password change: the two copies of the new password
/// must match, and the new password must be longer than 12 and shorter than
/// 128 characters. Accepts exactly those requests; each rejection names its
/// reason, the mismatch being checked first.
pub fn check_new_password(new_password: &String, new_password_check: &String) -> (r: Result<
    (),
    PasswordError,
>)
    ensures
        r is Ok <==> (new_password@ == new_password_check@ && 12 < new_password@.len() < 128),
        r matches Err(e) ==> (match e {
            PasswordError::ValidationError(m) => {
                if new_password@ != new_password_check@ {
                    m@ == "passwords don't match"@
                } else {
                    m@ == "password length invalid"@
                }
            },
            _ => false,
        }),
{
    if !new_password.eq(new_password_check) {
        return Err(PasswordError::ValidationError(String::from_str("passwords don't match")));
    }
    let n = new_password.as_str().unicode_len();
    if n <= 12 || n >= 128 {
        return Err(PasswordError::ValidationError(String::from_str("password length invalid")));
    }
    Ok(())
}

} // verus!
