//! The command processor: the idempotent publish pipeline.
//!
//! `publish` validates the idempotency key, claims it, and either replays
//! the cached response of an earlier submission or performs the unit of
//! work: one issue, one outbox task per confirmed recipient, and the cached
//! response, committed atomically.

use vstd::prelude::*;

verus! {

use vstd::string::StringExecFns;
use vstd::string::StringSliceAdditionalSpecFns;
use crate::idempotency::IdempotencyKey;
use crate::idempotency::IssueContent;
use crate::idempotency::IssueContentModel;
use crate::idempotency::NextAction;
use crate::idempotency::Transaction;
use crate::idempotency::TransactionModel;
use crate::idempotency::claim_transition;
use crate::idempotency::commit_transition;
use crate::idempotency::is_valid_key;
use crate::idempotency::save_response;
use crate::idempotency::try_processing;
use crate::response::HttpResponse;
use crate::response::ResponseModel;
use crate::response::see_other;
use crate::response::see_other_model;
use crate::store::RecordModel;
use crate::store::RecordStateModel;
use crate::store::Store;
use crate::store::StoreModel;
use crate::store::completed_response;
use crate::store::find_index;
use crate::store::lemma_find_index_props;
use crate::store::lemma_find_index_push;

/// Failure of a publish command.
#[derive(Debug)]
pub enum PublishError {
    /// A storage or transport fault; the caller may retry, which is safe
    /// because of idempotency.
    UnexpectedError(String),
    /// The caller is not logged in.
    Unauthenticated(String),
    /// The command was malformed; the message says how.
    ValidationError(String),
}

/// Mathematical image of a publish error.
pub enum PublishErrorModel {
    UnexpectedError(Seq<char>),
    Unauthenticated(Seq<char>),
    ValidationError(Seq<char>),
}

impl View for PublishError {
    type V = PublishErrorModel;

    open spec fn view(&self) -> PublishErrorModel {
        match self {
            PublishError::UnexpectedError(m) => PublishErrorModel::UnexpectedError(m@),
            PublishError::Unauthenticated(m) => PublishErrorModel::Unauthenticated(m@),
            PublishError::ValidationError(m) => PublishErrorModel::ValidationError(m@),
        }
    }
}

/// The status code a publish error is reported with.
pub open spec fn publish_error_status(e: PublishErrorModel) -> u16 {
    match e {
        PublishErrorModel::UnexpectedError(_) => 500u16,
        PublishErrorModel::Unauthenticated(_) => 401u16,
        PublishErrorModel::ValidationError(_) => 400u16,
    }
}

/// The user-visible message of a publish error. An unexpected error is
/// reported generically; validation failures carry their specific message.
pub open spec fn publish_error_message(e: PublishErrorModel) -> Seq<char> {
    match e {
        PublishErrorModel::UnexpectedError(_) => "Something went wrong"@,
        PublishErrorModel::Unauthenticated(m) => m,
        PublishErrorModel::ValidationError(m) => m,
    }
}

impl PublishError {
    /// The status code and message this error is reported with.
    pub fn status_and_message(&self) -> (r: (u16, String))
        ensures
            r.0 == publish_error_status(self@),
            r.1@ == publish_error_message(self@),
    {
        match self {
            PublishError::UnexpectedError(_) => (
                500,
                String::from_str("Something went wrong"),
            ),
            PublishError::Unauthenticated(m) => (401, m.clone()),
            PublishError::ValidationError(m) => (400, m.clone()),
        }
    }
}

/// One publish command, as the pipeline's mathematics sees it.
pub struct CommandModel {
    pub title: Seq<char>,
    pub text_content: Seq<char>,
    pub html_content: Seq<char>,
    pub recipients: Seq<Seq<char>>,
    pub now: u64,
}

/// The response a first-time publish command returns and caches:
/// a redirect back to the newsletter form.
pub open spec fn publish_success_model() -> ResponseModel {
    see_other_model("/admin/newsletters"@, "/admin/newsletters".spec_bytes())
}

/// The transaction a publish command commits.
pub open spec fn publish_txn_model(user_id: u64, key: Seq<char>, cmd: CommandModel) -> TransactionModel {
    TransactionModel {
        user_id,
        key,
        issue: Some(
            IssueContentModel {
                title: cmd.title,
                text_content: cmd.text_content,
                html_content: cmd.html_content,
                published_at: cmd.now,
            },
        ),
        recipients: Some(cmd.recipients),
    }
}

/// What one publish command does to the store, and what it returns.
/// - A malformed key is rejected before any state mutation.
/// - A completed key replays the cached response and changes nothing.
/// - Otherwise the claim and the three writes happen, atomically.
pub open spec fn publish_transition(
    m: StoreModel,
    user_id: u64,
    key: Seq<char>,
    cmd: CommandModel,
) -> (StoreModel, Result<ResponseModel, PublishErrorModel>) {
    if !is_valid_key(key) {
        (m, Err(PublishErrorModel::ValidationError("invalid idempotency key"@)))
    } else {
        match completed_response(m, user_id, key) {
            Some(r) => (m, Ok(r)),
            None => {
                let m1 = claim_transition(m, user_id, key);
                let t = publish_txn_model(user_id, key, cmd);
                (commit_transition(m1, t, publish_success_model()), Ok(publish_success_model()))
            },
        }
    }
}

/// After a claim of a key with no completed record, the key's record exists
/// and is `Claimed`.
pub proof fn lemma_claim_gives_claimed(m: StoreModel, user_id: u64, key: Seq<char>)
    requires
        completed_response(m, user_id, key) is None,
    ensures
        ({
            let m1 = claim_transition(m, user_id, key);
            let idx = find_index(m1.records, user_id, key);
            idx >= 0 && m1.records[idx].state is Claimed && m1.records[idx].user_id == user_id
                && m1.records[idx].key == key
        }),
{
    let claimed = RecordModel { user_id, key, state: RecordStateModel::Claimed };
    if find_index(m.records, user_id, key) == -1 {
        lemma_find_index_push(m.records, user_id, key, claimed);
        assert(m.records.push(claimed)[m.records.len() as int] == claimed);
    } else {
        lemma_find_index_props(m.records, user_id, key);
    }
}

/// Replay: once a key has completed, a publish with that key — whatever its
/// payload — returns the cached response and leaves the store untouched.
pub proof fn lemma_publish_replay(m: StoreModel, user_id: u64, key: Seq<char>, cmd: CommandModel)
    requires
        is_valid_key(key),
        completed_response(m, user_id, key) is Some,
    ensures
        publish_transition(m, user_id, key, cmd).0 == m,
        publish_transition(m, user_id, key, cmd).1 == Ok::<ResponseModel, PublishErrorModel>(
            completed_response(m, user_id, key)->Some_0,
        ),
{
}

/// A first submission of a valid, unseen key succeeds with the redirect
/// response, caches exactly that response under the key, and adds exactly
/// one issue and one task per recipient.
pub proof fn lemma_publish_completes(m: StoreModel, user_id: u64, key: Seq<char>, cmd: CommandModel)
    requires
        is_valid_key(key),
        completed_response(m, user_id, key) is None,
    ensures
        ({
            let m1 = publish_transition(m, user_id, key, cmd).0;
            &&& publish_transition(m, user_id, key, cmd).1 == Ok::<
                ResponseModel,
                PublishErrorModel,
            >(publish_success_model())
            &&& completed_response(m1, user_id, key) == Some(publish_success_model())
            &&& m1.issues.len() == m.issues.len() + 1
            &&& m1.tasks.len() == m.tasks.len() + cmd.recipients.len()
        }),
{
    let mc = claim_transition(m, user_id, key);
    lemma_claim_gives_claimed(m, user_id, key);
    lemma_find_index_props(mc.records, user_id, key);
    let idx = find_index(mc.records, user_id, key);
    let t = publish_txn_model(user_id, key, cmd);
    let completed = RecordModel {
        user_id,
        key,
        state: RecordStateModel::Completed(publish_success_model()),
    };
    let m1 = commit_transition(mc, t, publish_success_model());
    assert(m1.records == mc.records.update(idx, completed));
    crate::store::lemma_find_index_update_same_key(mc.records, idx, completed, user_id, key);
    assert(find_index(m1.records, user_id, key) == idx);
    assert(m1.records[idx] == completed);
}

/// Idempotence: a second submission with the same key — whatever its
/// payload — yields the identical response and changes nothing: exactly one
/// issue and one task per recipient of the first submission exist, never two.
pub proof fn lemma_publish_idempotent(
    m: StoreModel,
    user_id: u64,
    key: Seq<char>,
    cmd: CommandModel,
    cmd2: CommandModel,
)
    requires
        is_valid_key(key),
        completed_response(m, user_id, key) is None,
    ensures
        ({
            let first = publish_transition(m, user_id, key, cmd);
            let second = publish_transition(first.0, user_id, key, cmd2);
            &&& second.1 == first.1
            &&& second.0 == first.0
            &&& second.0.issues.len() == m.issues.len() + 1
            &&& second.0.tasks.len() == m.tasks.len() + cmd.recipients.len()
        }),
{
    lemma_publish_completes(m, user_id, key, cmd);
    lemma_publish_replay(publish_transition(m, user_id, key, cmd).0, user_id, key, cmd2);
}

/// Atomicity under a crash: the claim alone publishes nothing. A store that
/// crashed after the claim but before the commit holds exactly the issues,
/// tasks and cached responses it held before, and a retry of the command
/// behaves on it exactly as it would have on the original store: the key is
/// reprocessable from scratch.
pub proof fn lemma_crash_before_commit_is_invisible(
    m: StoreModel,
    user_id: u64,
    key: Seq<char>,
    cmd: CommandModel,
)
    requires
        is_valid_key(key),
        completed_response(m, user_id, key) is None,
    ensures
        claim_transition(m, user_id, key).issues == m.issues,
        claim_transition(m, user_id, key).tasks == m.tasks,
        completed_response(claim_transition(m, user_id, key), user_id, key) is None,
        publish_transition(claim_transition(m, user_id, key), user_id, key, cmd)
            == publish_transition(m, user_id, key, cmd),
{
    let mc = claim_transition(m, user_id, key);
    lemma_claim_gives_claimed(m, user_id, key);
    assert(claim_transition(mc, user_id, key) == mc);
}

/// The stores and responses of a train of submissions of one key, serialized
/// by the claim on the key's uniqueness constraint.
pub open spec fn apply_publishes(
    m: StoreModel,
    user_id: u64,
    key: Seq<char>,
    cmds: Seq<CommandModel>,
) -> (StoreModel, Seq<Result<ResponseModel, PublishErrorModel>>)
    decreases cmds.len(),
{
    if cmds.len() == 0 {
        (m, Seq::empty())
    } else {
        let first = publish_transition(m, user_id, key, cmds[0]);
        let rest = apply_publishes(first.0, user_id, key, cmds.drop_first());
        (rest.0, seq![first.1] + rest.1)
    }
}

/// Every submission against a store whose key has completed replays the one
/// cached response and changes nothing.
proof fn lemma_replays_agree(m: StoreModel, user_id: u64, key: Seq<char>, cmds: Seq<CommandModel>)
    requires
        is_valid_key(key),
        completed_response(m, user_id, key) is Some,
    ensures
        apply_publishes(m, user_id, key, cmds).0 == m,
        apply_publishes(m, user_id, key, cmds).1.len() == cmds.len(),
        forall|i: int|
            0 <= i < cmds.len() ==> apply_publishes(m, user_id, key, cmds).1[i] == Ok::<
                ResponseModel,
                PublishErrorModel,
            >(completed_response(m, user_id, key)->Some_0),
    decreases cmds.len(),
{
    if cmds.len() > 0 {
        lemma_publish_replay(m, user_id, key, cmds[0]);
        lemma_replays_agree(m, user_id, key, cmds.drop_first());
    }
}

/// Isolation under concurrency: however many submissions race on one key,
/// once the claim's uniqueness constraint serializes them exactly one issue
/// is committed, and every caller receives the identical response.
pub proof fn lemma_concurrent_publishes_agree(
    m: StoreModel,
    user_id: u64,
    key: Seq<char>,
    cmds: Seq<CommandModel>,
)
    requires
        is_valid_key(key),
        completed_response(m, user_id, key) is None,
        cmds.len() >= 1,
    ensures
        ({
            let first = publish_transition(m, user_id, key, cmds[0]);
            let outcome = apply_publishes(m, user_id, key, cmds);
            &&& outcome.0 == first.0
            &&& outcome.0.issues.len() == m.issues.len() + 1
            &&& outcome.1.len() == cmds.len()
            &&& forall|i: int| 0 <= i < cmds.len() ==> outcome.1[i] == first.1
        }),
{
    lemma_publish_completes(m, user_id, key, cmds[0]);
    let m1 = publish_transition(m, user_id, key, cmds[0]).0;
    lemma_replays_agree(m1, user_id, key, cmds.drop_first());
}

/// Record the issue the unit of work will publish. Nothing is visible in the
/// store until the transaction commits.
pub fn insert_newsletter_issue(
    transaction: &mut Transaction,
    title: String,
    text_content: String,
    html_content: String,
    now: u64,
)
    ensures
        final(transaction)@ == (TransactionModel {
            issue: Some(
                IssueContentModel {
                    title: title@,
                    text_content: text_content@,
                    html_content: html_content@,
                    published_at: now,
                },
            ),
            ..old(transaction)@
        }),
{
    transaction.issue_content = Some(
        IssueContent { title, text_content, html_content, published_at: now },
    );
}

/// Record one delivery obligation per confirmed recipient, snapshotting the
/// recipient set handed in. Nothing is visible until the commit.
pub fn enqueue_deliver_tasks(transaction: &mut Transaction, recipients: &Vec<String>)
    ensures
        final(transaction)@ == (TransactionModel {
            recipients: Some(recipients@.map_values(|s: String| s@)),
            ..old(transaction)@
        }),
{
    let mut copy: Vec<String> = Vec::new();
    let mut i: usize = 0;
    while i < recipients.len()
        invariant
            i <= recipients@.len(),
            copy@ =~= recipients@.subrange(0, i as int),
        decreases recipients@.len() - i,
    {
        copy.push(recipients[i].clone());
        proof {
            assert(copy@ =~= recipients@.subrange(0, i + 1 as int));
        }
        i = i + 1;
    }
    proof {
        assert(copy@ =~= recipients@);
    }
    transaction.recipients = Some(copy);
}

/// Publish a newsletter issue, idempotently.
///
/// The first submission of a valid key writes the issue, one outbox task per
/// recipient and the cached redirect response in one atomic commit, and
/// returns that response. Every retry with the same key — whatever its
/// payload — returns the cached response unchanged and performs no further
/// side effects. A malformed key is rejected before any state mutation.
pub fn publish(
    store: &mut Store,
    user_id: u64,
    title: String,
    text_content: String,
    html_content: String,
    idempotency_key: String,
    recipients: &Vec<String>,
    now: u64,
) -> (r: Result<HttpResponse, PublishError>)
    requires
        old(store).wf(),
        recipients@.map_values(|s: String| s@).no_duplicates(),
    ensures
        final(store).wf(),
        ({
            let cmd = CommandModel {
                title: title@,
                text_content: text_content@,
                html_content: html_content@,
                recipients: recipients@.map_values(|s: String| s@),
                now,
            };
            let outcome = publish_transition(old(store)@, user_id, idempotency_key@, cmd);
            &&& final(store)@ == outcome.0
            &&& match r {
                Ok(resp) => outcome.1 == Ok::<ResponseModel, PublishErrorModel>(resp@),
                Err(e) => outcome.1 == Err::<ResponseModel, PublishErrorModel>(e@),
            }
        }),
{
    let ghost m0 = store@;
    let key = match IdempotencyKey::parse(idempotency_key) {
        Ok(k) => k,
        Err(m) => {
            return Err(PublishError::ValidationError(m));
        },
    };
    match try_processing(store, &key, user_id, now) {
        NextAction::ReturnSavedResponse(saved) => Ok(saved),
        NextAction::StartProcessing(txn) => {
            let mut txn = txn;
            proof {
                lemma_claim_gives_claimed(m0, user_id, key@);
            }
            insert_newsletter_issue(&mut txn, title, text_content, html_content, now);
            enqueue_deliver_tasks(&mut txn, recipients);
            let response = see_other("/admin/newsletters");
            let response = save_response(store, txn, response);
            Ok(response)
        },
    }
}

} // verus!
