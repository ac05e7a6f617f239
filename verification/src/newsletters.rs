//! Direct newsletter delivery, the outbox's predecessor.
//!
//! The older delivery path sends to every confirmed subscriber within the
//! publishing request itself and aborts at the first failure — in contrast
//! to the outbox worker, which isolates one recipient's failure from the
//! rest. The decision logic of that loop lives here; the delivery sink is
//! external, so its verdicts are handed in one per recipient.

use vstd::prelude::*;

verus! {

use vstd::string::StringExecFns;

/// Failure of the direct delivery path.
#[derive(Debug)]
pub enum PublishError {
    /// A delivery or storage fault; the message names the recipient it
    /// stopped at.
    UnexpectedError(String),
    /// The caller is not logged in.
    Unauthenticated(String),
}

impl PublishError {
    /// The status code and message this error is reported with.
    pub fn status_and_message(&self) -> (r: (u16, String))
        ensures
            match self {
                PublishError::UnexpectedError(_) => r.0 == 500 && r.1@
                    == "Something went wrong"@,
                PublishError::Unauthenticated(m) => r.0 == 401 && r.1@ == m@,
            },
    {
        match self {
            PublishError::UnexpectedError(_) => (500, String::from_str("Something went wrong")),
            PublishError::Unauthenticated(m) => (401, m.clone()),
        }
    }
}

/// Deliver to each confirmed recipient in turn, stopping at the first
/// failure: recipients before it were attempted and delivered, recipients
/// after it were not attempted at all. Succeeds with status 200 exactly when
/// every delivery succeeded.
pub fn deliver_to_all(recipients: &Vec<String>, outcomes: &Vec<bool>) -> (r: Result<
    u16,
    PublishError,
>)
    requires
        recipients@.len() == outcomes@.len(),
    ensures
        r is Ok <==> (forall|i: int| 0 <= i < outcomes@.len() ==> #[trigger] outcomes@[i]),
        r matches Ok(status) ==> status == 200,
        r matches Err(e) ==> (match e {
            PublishError::UnexpectedError(m) => exists|i: int|
                {
                    &&& 0 <= i < outcomes@.len()
                    &&& !(#[trigger] outcomes@[i])
                    &&& (forall|j: int| 0 <= j < i ==> #[trigger] outcomes@[j])
                    &&& m@ == "Failed to send newsletter issue to "@ + recipients@[i]@
                },
            PublishError::Unauthenticated(_) => false,
        }),
{
    let mut i: usize = 0;
    while i < outcomes.len()
        invariant
            recipients@.len() == outcomes@.len(),
            i <= outcomes@.len(),
            forall|j: int| 0 <= j < i ==> #[trigger] outcomes@[j],
        decreases outcomes@.len() - i,
    {
        if !outcomes[i] {
            let message = String::from_str("Failed to send newsletter issue to ").concat(
                recipients[i].as_str(),
            );
            return Err(PublishError::UnexpectedError(message));
        }
        i = i + 1;
    }
    Ok(200)
}

} // verus!
