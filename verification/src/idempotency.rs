//! The idempotent command pipeline's key handling and persistence.
//!
//! A publish command is keyed by (caller, idempotency key). The first claim
//! of a key starts a unit of work; the commit of that unit stores the
//! response, and every later submission of the same key replays it verbatim.

use vstd::prelude::*;

verus! {

use vstd::string::StrSliceExecFns;
use vstd::string::StringExecFns;
use crate::response::HttpResponse;
use crate::response::ResponseModel;
use crate::store::IdempotencyRecord;
use crate::store::Issue;
use crate::store::IssueModel;
use crate::store::RecordModel;
use crate::store::RecordState;
use crate::store::RecordStateModel;
use crate::store::Store;
use crate::store::StoreModel;
use crate::store::TaskModel;
use crate::store::TaskRow;
use crate::store::completed_response;
use crate::store::find_index;
use crate::store::lemma_find_index_props;
use crate::store::rec_matches;
use crate::store::wf_model;

/// Characters an idempotency key may hold: ASCII letters, digits,
/// `-` and `_`.
pub open spec fn is_key_char(c: char) -> bool {
    ||| 'a' as u32 <= c as u32 && c as u32 <= 'z' as u32
    ||| 'A' as u32 <= c as u32 && c as u32 <= 'Z' as u32
    ||| '0' as u32 <= c as u32 && c as u32 <= '9' as u32
    ||| c == '-'
    ||| c == '_'
}

/// A syntactically valid idempotency key: non-empty, at most 50 characters,
/// restricted character set.
pub open spec fn is_valid_key(s: Seq<char>) -> bool {
    &&& 0 < s.len() <= 50
    &&& forall|i: int| 0 <= i < s.len() ==> is_key_char(#[trigger] s[i])
}

/// A caller-supplied idempotency key that passed validation.
pub struct IdempotencyKey {
    pub(crate) key: String,
}

impl View for IdempotencyKey {
    type V = Seq<char>;

    closed spec fn view(&self) -> Seq<char> {
        self.key@
    }
}

impl IdempotencyKey {
    /// Validate a caller-supplied key. Accepts exactly the non-empty strings
    /// of at most 50 key characters; rejects everything else with a message.
    pub fn parse(s: String) -> (r: Result<IdempotencyKey, String>)
        ensures
            r is Ok <==> is_valid_key(s@),
            r matches Ok(k) ==> k@ == s@,
            r matches Err(m) ==> m@ == "invalid idempotency key"@,
    {
        let n = s.as_str().unicode_len();
        if n == 0 || n > 50 {
            return Err(String::from_str("invalid idempotency key"));
        }
        let mut i: usize = 0;
        while i < n
            invariant
                n == s@.len(),
                i <= n,
                forall|j: int| 0 <= j < i ==> is_key_char(#[trigger] s@[j]),
            decreases n - i,
        {
            let c = s.as_str().get_char(i);
            let u = c as u32;
            let ok = ('a' as u32 <= u && u <= 'z' as u32) || ('A' as u32 <= u && u <= 'Z' as u32)
                || ('0' as u32 <= u && u <= '9' as u32) || c == '-' || c == '_';
            if !ok {
                return Err(String::from_str("invalid idempotency key"));
            }
            i = i + 1;
        }
        Ok(IdempotencyKey { key: s })
    }

    /// The key's text.
    pub fn as_str(&self) -> (r: &str)
        ensures
            r@ == self@,
    {
        self.key.as_str()
    }
}

/// Content of the issue a unit of work intends to publish.
pub struct IssueContent {
    pub title: String,
    pub text_content: String,
    pub html_content: String,
    pub published_at: u64,
}

/// Mathematical image of pending issue content.
pub struct IssueContentModel {
    pub title: Seq<char>,
    pub text_content: Seq<char>,
    pub html_content: Seq<char>,
    pub published_at: u64,
}

impl View for IssueContent {
    type V = IssueContentModel;

    open spec fn view(&self) -> IssueContentModel {
        IssueContentModel {
            title: self.title@,
            text_content: self.text_content@,
            html_content: self.html_content@,
            published_at: self.published_at,
        }
    }
}

/// One atomic unit of work. The writes gathered here — the issue, the
/// delivery tasks, the cached response — become visible all at once when the
/// transaction commits in `save_response`, and never otherwise: dropping a
/// transaction leaves the store exactly as it was.
pub struct Transaction {
    pub user_id: u64,
    pub idempotency_key: IdempotencyKey,
    pub issue_content: Option<IssueContent>,
    pub recipients: Option<Vec<String>>,
}

/// Mathematical image of a transaction.
#[verifier::ext_equal]
pub struct TransactionModel {
    pub user_id: u64,
    pub key: Seq<char>,
    pub issue: Option<IssueContentModel>,
    pub recipients: Option<Seq<Seq<char>>>,
}

impl View for Transaction {
    type V = TransactionModel;

    open spec fn view(&self) -> TransactionModel {
        TransactionModel {
            user_id: self.user_id,
            key: self.idempotency_key@,
            issue: match self.issue_content {
                Some(c) => Some(c@),
                None => None,
            },
            recipients: match self.recipients {
                Some(r) => Some(r@.map_values(|s: String| s@)),
                None => None,
            },
        }
    }
}

/// What a caller must do next for its idempotency key.
pub enum NextAction {
    /// The key is ours: perform the unit of work and commit it.
    StartProcessing(Transaction),
    /// The key completed earlier: replay this response verbatim and perform
    /// no further side effects.
    ReturnSavedResponse(HttpResponse),
}

/// The store after a claim: unchanged when a record of (caller, key) already
/// exists, else extended by one `Claimed` record. Issues and tasks are never
/// touched by a claim.
pub open spec fn claim_transition(m: StoreModel, user_id: u64, key: Seq<char>) -> StoreModel {
    if find_index(m.records, user_id, key) == -1 {
        StoreModel {
            records: m.records.push(
                RecordModel { user_id, key, state: RecordStateModel::Claimed },
            ),
            ..m
        }
    } else {
        m
    }
}

/// Position of the record of (caller, key), if one exists.
fn find_record_position(records: &Vec<IdempotencyRecord>, user_id: u64, key: &String) -> (r: Option<
    usize,
>)
    ensures
        match r {
            Some(i) => find_index(
                records@.map_values(|x: IdempotencyRecord| x@),
                user_id,
                key@,
            ) == i && i < records@.len(),
            None => find_index(records@.map_values(|x: IdempotencyRecord| x@), user_id, key@) == -1,
        },
{
    let ghost rs = records@.map_values(|x: IdempotencyRecord| x@);
    let mut i: usize = 0;
    while i < records.len()
        invariant
            i <= records@.len(),
            rs == records@.map_values(|x: IdempotencyRecord| x@),
            forall|j: int| 0 <= j < i ==> !rec_matches(#[trigger] rs[j], user_id, key@),
        decreases records@.len() - i,
    {
        let rec = &records[i];
        if rec.user_id == user_id && rec.idempotency_key == *key {
            proof {
                lemma_find_index_props(rs, user_id, key@);
                assert(rec_matches(rs[i as int], user_id, key@));
            }
            return Some(i);
        }
        i = i + 1;
    }
    proof {
        lemma_find_index_props(rs, user_id, key@);
    }
    None
}

/// Claim the key or fetch what an earlier unit of work left behind.
///
/// The insert-if-absent of the `Claimed` record is the sole synchronization
/// point between duplicate submissions. Three caller-visible branches:
/// - no record existed: a `Claimed` record is inserted and processing starts;
/// - a `Completed` record existed: its response is returned for replay;
/// - a `Claimed` record existed (a crashed attempt never committed): the
///   claim is taken over and processing restarts from scratch, which is safe
///   because nothing of the crashed attempt is visible.
pub fn try_processing(
    store: &mut Store,
    idempotency_key: &IdempotencyKey,
    user_id: u64,
    now: u64,
) -> (r: NextAction)
    requires
        old(store).wf(),
    ensures
        final(store).wf(),
        final(store)@ == claim_transition(old(store)@, user_id, idempotency_key@),
        match r {
            NextAction::ReturnSavedResponse(resp) => completed_response(
                old(store)@,
                user_id,
                idempotency_key@,
            ) == Some(resp@),
            NextAction::StartProcessing(txn) => completed_response(
                old(store)@,
                user_id,
                idempotency_key@,
            ) is None && txn@ == (TransactionModel {
                user_id,
                key: idempotency_key@,
                issue: None,
                recipients: None,
            }),
        },
{
    let ghost m0 = store@;
    let pos = find_record_position(&store.records, user_id, &idempotency_key.key);
    match pos {
        Some(i) => {
            proof {
                lemma_find_index_props(m0.records, user_id, idempotency_key@);
            }
            match &store.records[i].state {
                RecordState::Completed(resp) => NextAction::ReturnSavedResponse(resp.clone()),
                RecordState::Claimed => NextAction::StartProcessing(
                    Transaction {
                        user_id,
                        idempotency_key: IdempotencyKey { key: idempotency_key.key.clone() },
                        issue_content: None,
                        recipients: None,
                    },
                ),
            }
        },
        None => {
            proof {
                lemma_find_index_props(m0.records, user_id, idempotency_key@);
            }
            store.records.push(
                IdempotencyRecord {
                    user_id,
                    idempotency_key: idempotency_key.key.clone(),
                    state: RecordState::Claimed,
                    created_at: now,
                },
            );
            proof {
                assert(store@.records =~= m0.records.push(
                    RecordModel {
                        user_id,
                        key: idempotency_key@,
                        state: RecordStateModel::Claimed,
                    },
                ));
                assert(store@ =~= claim_transition(m0, user_id, idempotency_key@));
            }
            NextAction::StartProcessing(
                Transaction {
                    user_id,
                    idempotency_key: IdempotencyKey { key: idempotency_key.key.clone() },
                    issue_content: None,
                    recipients: None,
                },
            )
        },
    }
}

/// The store after a commit: the transaction's `Claimed` record completes
/// with the cached response, the issue is appended with the next dense id,
/// and one unclaimed task per recipient is appended to the outbox — all in
/// one step.
/// The outbox row a commit creates for one recipient of an issue.
pub open spec fn task_model(issue_id: u64, recipient: Seq<char>) -> TaskModel {
    TaskModel { issue_id, recipient, claimed: false }
}

/// The outbox rows a commit creates: one unclaimed task per recipient.
pub open spec fn tasks_of(recipients: Seq<Seq<char>>, issue_id: u64) -> Seq<TaskModel> {
    recipients.map_values(|r: Seq<char>| task_model(issue_id, r))
}

pub open spec fn commit_transition(
    m: StoreModel,
    t: TransactionModel,
    resp: ResponseModel,
) -> StoreModel {
    let idx = find_index(m.records, t.user_id, t.key);
    let issue_id = m.issues.len() as u64;
    StoreModel {
        records: m.records.update(
            idx,
            RecordModel { user_id: t.user_id, key: t.key, state: RecordStateModel::Completed(resp) },
        ),
        issues: m.issues.push(
            IssueModel {
                issue_id,
                title: t.issue->Some_0.title,
                text_content: t.issue->Some_0.text_content,
                html_content: t.issue->Some_0.html_content,
                published_at: t.issue->Some_0.published_at,
            },
        ),
        tasks: m.tasks + tasks_of(t.recipients->Some_0, issue_id),
    }
}

/// Commit the unit of work: cache the response under the transaction's key,
/// make the issue and its delivery tasks visible, and hand the response back.
/// All three writes commit together; nothing was visible before this call.
pub fn save_response(store: &mut Store, transaction: Transaction, http_response: HttpResponse) -> (r:
    HttpResponse)
    requires
        old(store).wf(),
        transaction@.issue is Some,
        transaction@.recipients is Some,
        transaction@.recipients->Some_0.no_duplicates(),
        ({
            let idx = find_index(old(store)@.records, transaction@.user_id, transaction@.key);
            idx >= 0 && old(store)@.records[idx].state is Claimed
        }),
    ensures
        final(store).wf(),
        final(store)@ == commit_transition(old(store)@, transaction@, http_response@),
        r == http_response,
{
    let ghost m0 = store@;
    let ghost t = transaction@;
    let Transaction { user_id, idempotency_key, issue_content, recipients } = transaction;
    proof {
        lemma_find_index_props(m0.records, user_id, t.key);
    }
    let pos = find_record_position(&store.records, user_id, &idempotency_key.key).unwrap();
    let ghost completed = RecordModel {
        user_id: t.user_id,
        key: t.key,
        state: RecordStateModel::Completed(http_response@),
    };
    let cached = http_response.clone();
    let created = store.records[pos].created_at;
    store.records.set(
        pos,
        IdempotencyRecord {
            user_id,
            idempotency_key: idempotency_key.key,
            state: RecordState::Completed(cached),
            created_at: created,
        },
    );
    proof {
        assert(store@.records =~= m0.records.update(pos as int, completed));
    }
    let issue_id = store.issues.len() as u64;
    let content = issue_content.unwrap();
    store.issues.push(
        Issue {
            issue_id,
            title: content.title,
            text_content: content.text_content,
            html_content: content.html_content,
            published_at: content.published_at,
        },
    );
    let ghost mid_issues = store@.issues;
    proof {
        assert(store@.issues =~= m0.issues.push(
            IssueModel {
                issue_id,
                title: t.issue->Some_0.title,
                text_content: t.issue->Some_0.text_content,
                html_content: t.issue->Some_0.html_content,
                published_at: t.issue->Some_0.published_at,
            },
        ));
    }
    let recips = recipients.unwrap();
    let mut k: usize = 0;
    while k < recips.len()
        invariant
            k <= recips@.len(),
            recips@.map_values(|s: String| s@) == t.recipients->Some_0,
            store@.records == m0.records.update(
                find_index(m0.records, t.user_id, t.key),
                completed,
            ),
            store@.issues == mid_issues,
            store@.tasks =~= m0.tasks + tasks_of(
                recips@.map_values(|s: String| s@).subrange(0, k as int),
                issue_id,
            ),
        decreases recips@.len() - k,
    {
        let ghost tasks_before = store@.tasks;
        store.outbox.push(TaskRow { issue_id, recipient_email: recips[k].clone(), claimed: false });
        proof {
            let rs = recips@.map_values(|s: String| s@);
            assert(store@.tasks =~= tasks_before.push(task_model(issue_id, rs[k as int])));
            assert(rs.subrange(0, k + 1 as int) =~= rs.subrange(0, k as int).push(rs[k as int]));
            assert(tasks_of(rs.subrange(0, k as int).push(rs[k as int]), issue_id) =~= tasks_of(
                rs.subrange(0, k as int),
                issue_id,
            ).push(task_model(issue_id, rs[k as int])));
            assert((m0.tasks + tasks_of(rs.subrange(0, k as int), issue_id)).push(
                task_model(issue_id, rs[k as int]),
            ) =~= m0.tasks + tasks_of(rs.subrange(0, k as int), issue_id).push(
                task_model(issue_id, rs[k as int]),
            ));
            assert(store@.tasks =~= m0.tasks + tasks_of(
                rs.subrange(0, k + 1 as int),
                issue_id,
            ));
        }
        k = k + 1;
    }
    proof {
        let rs = recips@.map_values(|s: String| s@);
        assert(rs.subrange(0, rs.len() as int) =~= rs);
        assert(store@.tasks =~= m0.tasks + tasks_of(t.recipients->Some_0, issue_id));
        assert(store@ =~= commit_transition(m0, t, http_response@));
        lemma_commit_wf(m0, t, http_response@);
    }
    http_response
}

/// A commit of a well-formed store with a claimed record and duplicate-free
/// recipients yields a well-formed store.
proof fn lemma_commit_wf(m: StoreModel, t: TransactionModel, resp: ResponseModel)
    requires
        wf_model(m),
        t.issue is Some,
        t.recipients is Some,
        t.recipients->Some_0.no_duplicates(),
        find_index(m.records, t.user_id, t.key) >= 0,
        m.issues.len() <= u64::MAX,
    ensures
        wf_model(commit_transition(m, t, resp)),
{
    let m1 = commit_transition(m, t, resp);
    let idx = find_index(m.records, t.user_id, t.key);
    lemma_find_index_props(m.records, t.user_id, t.key);
    // record keys are untouched, so uniqueness carries over
    assert(forall|i: int|
        0 <= i < m1.records.len() ==> (#[trigger] m1.records[i]).user_id == m.records[i].user_id
            && m1.records[i].key == m.records[i].key);
    // new tasks carry the fresh issue id, which no old task can carry
    let issue_id = m.issues.len() as u64;
    let news = tasks_of(t.recipients->Some_0, issue_id);
    assert(forall|i: int|
        0 <= i < m.tasks.len() ==> (#[trigger] m1.tasks[i]) == m.tasks[i]);
    assert(forall|i: int|
        m.tasks.len() <= i < m1.tasks.len() ==> (#[trigger] m1.tasks[i]) == news[i
            - m.tasks.len()]);
    assert forall|i: int, j: int|
        0 <= i < j < m1.tasks.len() implies !(m1.tasks[i].issue_id == m1.tasks[j].issue_id
        && m1.tasks[i].recipient == m1.tasks[j].recipient) by {
        if j >= m.tasks.len() {
            assert(m1.tasks[j].issue_id == issue_id);
            if i < m.tasks.len() {
                assert(m.tasks[i].issue_id < m.issues.len());
            } else {
                assert(m1.tasks[i].recipient == t.recipients->Some_0[i - m.tasks.len()]);
                assert(m1.tasks[j].recipient == t.recipients->Some_0[j - m.tasks.len()]);
            }
        }
    }
}

/// The response an earlier unit of work cached for (caller, key), if any.
pub fn get_saved_response(store: &Store, idempotency_key: &IdempotencyKey, user_id: u64) -> (r:
    Option<HttpResponse>)
    ensures
        match r {
            Some(resp) => completed_response(store@, user_id, idempotency_key@) == Some(resp@),
            None => completed_response(store@, user_id, idempotency_key@) is None,
        },
{
    let pos = find_record_position(&store.records, user_id, &idempotency_key.key);
    match pos {
        Some(i) => match &store.records[i].state {
            RecordState::Completed(resp) => Some(resp.clone()),
            RecordState::Claimed => None,
        },
        None => None,
    }
}

} // verus!
