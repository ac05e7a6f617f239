//! Domain validation of subscriber data.

use vstd::prelude::*;
use unicode_segmentation::UnicodeSegmentation;

verus! {

use vstd::string::StrSliceExecFns;
use vstd::string::StringExecFns;

/// Number of extended grapheme clusters in the text — the user-perceived
/// characters — as Unicode segmentation defines them. A function of the
/// characters alone.
pub uninterp spec fn grapheme_count_of(s: Seq<char>) -> nat;

/// Whether the character has the Unicode `White_Space` property. A function
/// of the character alone.
pub uninterp spec fn is_whitespace_char(c: char) -> bool;

/// Relies on unicode_segmentation's `graphemes(true)` iterator: it yields
/// the extended grapheme clusters of the text, so its count is the number of
/// user-perceived characters.
#[verifier::external_body]
fn grapheme_count(s: &str) -> (r: usize)
    ensures
        r == grapheme_count_of(s@),
{
    s.graphemes(true).count()
}

/// Relies on char::is_whitespace: the Unicode `White_Space` property of the
/// character alone.
#[verifier::external_body]
fn whitespace_char(c: char) -> (r: bool)
    ensures
        r == is_whitespace_char(c),
{
    c.is_whitespace()
}

/// Nothing but whitespace — exactly the strings that trim to empty.
pub open spec fn is_blank(s: Seq<char>) -> bool {
    forall|i: int| 0 <= i < s.len() ==> is_whitespace_char(#[trigger] s[i])
}

/// Characters a subscriber name may not contain.
pub open spec fn is_forbidden_char(c: char) -> bool {
    ||| c == '/'
    ||| c == '('
    ||| c == ')'
    ||| c == '"'
    ||| c == '<'
    ||| c == '>'
    ||| c == '\\'
    ||| c == '{'
    ||| c == '}'
}

/// A valid subscriber name: not blank, at most 256 graphemes, and free of
/// forbidden characters.
pub open spec fn is_valid_subscriber_name(s: Seq<char>) -> bool {
    &&& !is_blank(s)
    &&& grapheme_count_of(s) <= 256
    &&& forall|i: int| 0 <= i < s.len() ==> !is_forbidden_char(#[trigger] s[i])
}

/// Whether every character of the text is whitespace.
fn all_whitespace(s: &str) -> (r: bool)
    ensures
        r == is_blank(s@),
{
    let n = s.unicode_len();
    let mut i: usize = 0;
    while i < n
        invariant
            n == s@.len(),
            i <= n,
            forall|j: int| 0 <= j < i ==> is_whitespace_char(#[trigger] s@[j]),
        decreases n - i,
    {
        if !whitespace_char(s.get_char(i)) {
            return false;
        }
        i = i + 1;
    }
    true
}

/// Whether the text holds a forbidden character.
fn contains_forbidden(s: &str) -> (r: bool)
    ensures
        r == !(forall|i: int| 0 <= i < s@.len() ==> !is_forbidden_char(#[trigger] s@[i])),
{
    let n = s.unicode_len();
    let mut i: usize = 0;
    while i < n
        invariant
            n == s@.len(),
            i <= n,
            forall|j: int| 0 <= j < i ==> !is_forbidden_char(#[trigger] s@[j]),
        decreases n - i,
    {
        let c = s.get_char(i);
        let forbidden = c == '/' || c == '(' || c == ')' || c == '"' || c == '<' || c == '>' || c
            == '\\' || c == '{' || c == '}';
        if forbidden {
            return true;
        }
        i = i + 1;
    }
    false
}

/// A subscriber's display name that passed validation.
#[derive(Debug)]
pub struct SubscriberName(String);

impl View for SubscriberName {
    type V = Seq<char>;

    closed spec fn view(&self) -> Seq<char> {
        self.0@
    }
}

impl SubscriberName {
    /// Validate a submitted name. Accepts exactly the names that are not
    /// blank, hold at most 256 graphemes and no forbidden character, and
    /// keeps them unchanged; everything else is rejected with a message.
    pub fn parse(s: String) -> (r: Result<SubscriberName, String>)
        ensures
            r is Ok <==> is_valid_subscriber_name(s@),
            r matches Ok(n) ==> n@ == s@,
            r matches Err(m) ==> m@ == s@ + " is not a valid subscriber name."@,
    {
        let is_empty_or_whitespace = all_whitespace(s.as_str());
        // A grapheme is one user-perceived character: `å` is a single
        // grapheme made of two `char`s, so the limit is not a `char` count.
        let is_too_long = grapheme_count(s.as_str()) > 256;
        let contains_forbidden_characters = contains_forbidden(s.as_str());
        if is_empty_or_whitespace || is_too_long || contains_forbidden_characters {
            Err(s.concat(" is not a valid subscriber name."))
        } else {
            Ok(SubscriberName(s))
        }
    }

    /// The validated name's text.
    pub fn as_str(&self) -> (r: &str)
        ensures
            r@ == self@,
    {
        self.0.as_str()
    }
}

} // verus!
