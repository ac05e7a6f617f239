//! Application settings and the deployment environment switch.

use vstd::prelude::*;

verus! {

use vstd::string::StrSliceExecFns;
use vstd::string::StringExecFns;

/// Where the application listens.
pub struct ApplicationSettings {
    pub port: u16,
    pub host: String,
}

/// The two deployment environments the configuration loader distinguishes.
#[derive(Debug)]
pub enum Environment {
    Local,
    Production,
}

impl Environment {
    /// The canonical lower-case name of the environment.
    pub fn as_str(&self) -> (r: &'static str)
        ensures
            self is Local ==> r@ == "local"@,
            self is Production ==> r@ == "production"@,
    {
        match self {
            Environment::Local => "local",
            Environment::Production => "production",
        }
    }

    /// Read an environment name, ASCII case-insensitively: exactly the
    /// spellings of `local` and `production` are accepted; anything else is
    /// rejected with a message naming the offender.
    pub fn parse(s: &str) -> (r: Result<Environment, String>)
        ensures
            r matches Ok(e) ==> ((e is Local && ascii_eq_ignore_case(s@, "local"@)) || (
            e is Production && ascii_eq_ignore_case(s@, "production"@))),
            r is Err ==> !ascii_eq_ignore_case(s@, "local"@) && !ascii_eq_ignore_case(
                s@,
                "production"@,
            ),
            r matches Err(m) ==> m@ == s@
                + " is not a supported environment. Use either local or production."@,
    {
        if eq_ignore_case(s, "local") {
            Ok(Environment::Local)
        } else if eq_ignore_case(s, "production") {
            Ok(Environment::Production)
        } else {
            Err(
                s.to_owned().concat(
                    " is not a supported environment. Use either local or production.",
                ),
            )
        }
    }
}

/// The code point of a character with ASCII upper case folded to lower case.
pub open spec fn ascii_lower_code(c: char) -> u32 {
    if 'A' as u32 <= c as u32 && c as u32 <= 'Z' as u32 {
        (c as u32 + 32) as u32
    } else {
        c as u32
    }
}

/// Character-wise equality up to ASCII case.
pub open spec fn ascii_eq_ignore_case(a: Seq<char>, b: Seq<char>) -> bool {
    &&& a.len() == b.len()
    &&& forall|i: int|
        0 <= i < a.len() ==> ascii_lower_code(#[trigger] a[i]) == ascii_lower_code(b[i])
}

/// Compare two texts, ASCII case-insensitively.
fn eq_ignore_case(a: &str, b: &str) -> (r: bool)
    ensures
        r == ascii_eq_ignore_case(a@, b@),
{
    let na = a.unicode_len();
    let nb = b.unicode_len();
    if na != nb {
        return false;
    }
    let mut i: usize = 0;
    while i < na
        invariant
            na == a@.len(),
            na == b@.len(),
            i <= na,
            forall|j: int|
                0 <= j < i ==> ascii_lower_code(#[trigger] a@[j]) == ascii_lower_code(b@[j]),
        decreases na - i,
    {
        let ca = a.get_char(i) as u32;
        let cb = b.get_char(i) as u32;
        let la = if 'A' as u32 <= ca && ca <= 'Z' as u32 {
            ca + 32
        } else {
            ca
        };
        let lb = if 'A' as u32 <= cb && cb <= 'Z' as u32 {
            cb + 32
        } else {
            cb
        };
        if la != lb {
            return false;
        }
        i = i + 1;
    }
    true
}

} // verus!
