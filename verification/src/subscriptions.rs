//! Subscription-side computations: confirmation tokens and the confirmation
//! email's content. Storing subscribers and sending mail are the caller's
//! collaborators; what is computed here is verified.

use vstd::prelude::*;

verus! {

use vstd::string::StringExecFns;

/// An ASCII letter or digit, by code point.
pub open spec fn is_alnum_code(u: u32) -> bool {
    ||| 'a' as u32 <= u && u <= 'z' as u32
    ||| 'A' as u32 <= u && u <= 'Z' as u32
    ||| '0' as u32 <= u && u <= '9' as u32
}

/// Relies on rand's `Alphanumeric` distribution: every sampled byte is an
/// ASCII letter or digit. Nothing else can be promised of a random value.
#[verifier::external_body]
fn sample_alphanumeric_byte() -> (b: u8)
    ensures
        is_alnum_code(b as u32),
{
    rand::distr::Distribution::sample(&rand::distr::Alphanumeric, &mut rand::rng())
}

/// Relies on String::from_utf8: ASCII bytes are valid UTF-8 and decode to
/// one character each, with the same code.
#[verifier::external_body]
fn ascii_to_string(bytes: Vec<u8>) -> (r: String)
    requires
        forall|i: int| 0 <= i < bytes@.len() ==> #[trigger] bytes@[i] < 128,
    ensures
        r@.len() == bytes@.len(),
        forall|i: int| 0 <= i < bytes@.len() ==> (#[trigger] r@[i]) as u32 == bytes@[i] as u32,
{
    String::from_utf8(bytes).expect("ASCII bytes are valid UTF-8")
}

/// A fresh confirmation token: 25 random ASCII letters and digits.
pub fn generate_subscription_token() -> (r: String)
    ensures
        r@.len() == 25,
        forall|i: int| 0 <= i < r@.len() ==> is_alnum_code((#[trigger] r@[i]) as u32),
{
    let mut bytes: Vec<u8> = Vec::new();
    let mut i: usize = 0;
    while i < 25
        invariant
            i <= 25,
            bytes@.len() == i,
            forall|j: int| 0 <= j < i ==> is_alnum_code((#[trigger] bytes@[j]) as u32),
        decreases 25 - i,
    {
        bytes.push(sample_alphanumeric_byte());
        i = i + 1;
    }
    let token = ascii_to_string(bytes);
    token
}

/// The confirmation link a new subscriber is sent.
pub open spec fn confirmation_link_of(base_url: Seq<char>, token: Seq<char>) -> Seq<char> {
    "http://"@ + base_url + "/subscriptions/confirm?subscription_token="@ + token
}

/// The three parts of the confirmation email.
pub struct ConfirmationEmail {
    pub subject: String,
    pub html_body: String,
    pub text_body: String,
}

/// Compose the confirmation email for a new subscriber: a welcome with the
/// confirmation link, in a plain and an HTML form.
pub fn confirmation_email(base_url: &str, subscription_token: &str) -> (r: ConfirmationEmail)
    ensures
        r.subject@ == "Welcome!"@,
        r.text_body@ == "Welcome to our newsletter! Visit "@ + confirmation_link_of(
            base_url@,
            subscription_token@,
        ) + " to confirm your subscription."@,
        r.html_body@ == "Welcome to our newsletter!<br />Click <a href=\""@
            + confirmation_link_of(base_url@, subscription_token@)
            + "\">here</a> to confirm your subscription."@,
{
    let link = String::from_str("http://").concat(base_url).concat(
        "/subscriptions/confirm?subscription_token=",
    ).concat(subscription_token);
    let text_body = String::from_str("Welcome to our newsletter! Visit ").concat(
        link.as_str(),
    ).concat(" to confirm your subscription.");
    let html_body = String::from_str("Welcome to our newsletter!<br />Click <a href=\"").concat(
        link.as_str(),
    ).concat("\">here</a> to confirm your subscription.");
    ConfirmationEmail { subject: String::from_str("Welcome!"), html_body, text_body }
}

} // verus!
