//! The shared durable store: idempotency records, issues, outbox tasks.
//!
//! All three tables live in one transactional store. Only the command
//! pipeline writes records and issues and creates outbox tasks; only the
//! delivery worker claims and retires outbox tasks.

use vstd::prelude::*;

verus! {

use crate::response::HttpResponse;
use crate::response::ResponseModel;

/// State of one idempotency record.
pub enum RecordState {
    /// The key is claimed; the unit of work that claimed it has not committed.
    Claimed,
    /// The unit of work committed; the whole response is cached for replay.
    Completed(HttpResponse),
}

/// One idempotency record. At most one exists per (caller, key).
pub struct IdempotencyRecord {
    pub user_id: u64,
    pub idempotency_key: String,
    pub state: RecordState,
    /// When the key was first claimed; retention is an external policy.
    pub created_at: u64,
}

/// A published newsletter issue; immutable once created.
pub struct Issue {
    pub issue_id: u64,
    pub title: String,
    pub text_content: String,
    pub html_content: String,
    pub published_at: u64,
}

/// One pending delivery obligation, with its worker lease flag.
pub struct TaskRow {
    pub issue_id: u64,
    pub recipient_email: String,
    /// Set while a worker holds the task; a crashed worker's lease is
    /// released by recovery so the task becomes claimable again.
    pub claimed: bool,
}

/// Mathematical image of a record's state.
pub enum RecordStateModel {
    Claimed,
    Completed(ResponseModel),
}

/// Mathematical image of an idempotency record.
pub struct RecordModel {
    pub user_id: u64,
    pub key: Seq<char>,
    pub state: RecordStateModel,
}

/// Mathematical image of an issue.
pub struct IssueModel {
    pub issue_id: u64,
    pub title: Seq<char>,
    pub text_content: Seq<char>,
    pub html_content: Seq<char>,
    pub published_at: u64,
}

/// Mathematical image of an outbox row.
pub struct TaskModel {
    pub issue_id: u64,
    pub recipient: Seq<char>,
    pub claimed: bool,
}

impl View for IdempotencyRecord {
    type V = RecordModel;

    open spec fn view(&self) -> RecordModel {
        RecordModel {
            user_id: self.user_id,
            key: self.idempotency_key@,
            state: match self.state {
                RecordState::Claimed => RecordStateModel::Claimed,
                RecordState::Completed(r) => RecordStateModel::Completed(r@),
            },
        }
    }
}

impl View for Issue {
    type V = IssueModel;

    open spec fn view(&self) -> IssueModel {
        IssueModel {
            issue_id: self.issue_id,
            title: self.title@,
            text_content: self.text_content@,
            html_content: self.html_content@,
            published_at: self.published_at,
        }
    }
}

impl View for TaskRow {
    type V = TaskModel;

    open spec fn view(&self) -> TaskModel {
        TaskModel {
            issue_id: self.issue_id,
            recipient: self.recipient_email@,
            claimed: self.claimed,
        }
    }
}

/// Mathematical image of the whole store.
#[verifier::ext_equal]
pub struct StoreModel {
    pub records: Seq<RecordModel>,
    pub issues: Seq<IssueModel>,
    pub tasks: Seq<TaskModel>,
}

/// The store itself. Issue ids are assigned densely, in creation order.
pub struct Store {
    pub records: Vec<IdempotencyRecord>,
    pub issues: Vec<Issue>,
    pub outbox: Vec<TaskRow>,
}

impl View for Store {
    type V = StoreModel;

    open spec fn view(&self) -> StoreModel {
        StoreModel {
            records: self.records@.map_values(|r: IdempotencyRecord| r@),
            issues: self.issues@.map_values(|i: Issue| i@),
            tasks: self.outbox@.map_values(|t: TaskRow| t@),
        }
    }
}

/// Does the record belong to (caller, key)?
pub open spec fn rec_matches(r: RecordModel, user_id: u64, key: Seq<char>) -> bool {
    r.user_id == user_id && r.key == key
}

/// Index of the first record of (caller, key), or -1 when none exists.
/// Under well-formedness at most one exists, so this is the record's index.
pub open spec fn find_index(records: Seq<RecordModel>, user_id: u64, key: Seq<char>) -> int
    decreases records.len(),
{
    if records.len() == 0 {
        -1
    } else if rec_matches(records[0], user_id, key) {
        0int
    } else {
        let rest = find_index(records.drop_first(), user_id, key);
        if rest == -1 {
            -1
        } else {
            rest + 1
        }
    }
}

/// The cached response of (caller, key), if the key has completed.
pub open spec fn completed_response(m: StoreModel, user_id: u64, key: Seq<char>) -> Option<
    ResponseModel,
> {
    let idx = find_index(m.records, user_id, key);
    if idx >= 0 {
        match m.records[idx].state {
            RecordStateModel::Completed(r) => Some(r),
            RecordStateModel::Claimed => None,
        }
    } else {
        None
    }
}

/// Does the task row belong to (issue, recipient)?
pub open spec fn task_matches(t: TaskModel, issue_id: u64, recipient: Seq<char>) -> bool {
    t.issue_id == issue_id && t.recipient == recipient
}

/// Index of the first task of (issue, recipient), or -1 when none exists.
pub open spec fn find_task_index(tasks: Seq<TaskModel>, issue_id: u64, recipient: Seq<char>) -> int
    decreases tasks.len(),
{
    if tasks.len() == 0 {
        -1
    } else if task_matches(tasks[0], issue_id, recipient) {
        0int
    } else {
        let rest = find_task_index(tasks.drop_first(), issue_id, recipient);
        if rest == -1 {
            -1
        } else {
            rest + 1
        }
    }
}

/// Index of the first task no worker holds, or -1 when every task is held
/// (or none exists).
pub open spec fn first_unclaimed(tasks: Seq<TaskModel>) -> int
    decreases tasks.len(),
{
    if tasks.len() == 0 {
        -1
    } else if !tasks[0].claimed {
        0int
    } else {
        let rest = first_unclaimed(tasks.drop_first());
        if rest == -1 {
            -1
        } else {
            rest + 1
        }
    }
}

/// Well-formedness of the store:
/// - at most one idempotency record per (caller, key);
/// - issue ids are dense: the issue at position i has id i;
/// - at most one outbox task per (issue, recipient);
/// - every outbox task points at an existing issue.
pub open spec fn wf_model(m: StoreModel) -> bool {
    &&& forall|i: int, j: int|
        0 <= i < j < m.records.len() ==> !(m.records[i].user_id == m.records[j].user_id
            && m.records[i].key == m.records[j].key)
    &&& forall|i: int| 0 <= i < m.issues.len() ==> #[trigger] m.issues[i].issue_id == i
    &&& forall|i: int, j: int|
        0 <= i < j < m.tasks.len() ==> !(m.tasks[i].issue_id == m.tasks[j].issue_id
            && m.tasks[i].recipient == m.tasks[j].recipient)
    &&& forall|i: int| 0 <= i < m.tasks.len() ==> #[trigger] m.tasks[i].issue_id < m.issues.len()
}

impl Store {
    /// Well-formed store.
    pub open spec fn wf(&self) -> bool {
        wf_model(self@)
    }

    /// An empty store, trivially well-formed.
    pub fn new() -> (r: Store)
        ensures
            r@.records.len() == 0,
            r@.issues.len() == 0,
            r@.tasks.len() == 0,
            r.wf(),
    {
        Store { records: Vec::new(), issues: Vec::new(), outbox: Vec::new() }
    }

    /// Number of issues ever published.
    pub fn issue_count(&self) -> (n: usize)
        ensures
            n == self@.issues.len(),
    {
        self.issues.len()
    }

    /// Number of pending outbox tasks.
    pub fn outbox_count(&self) -> (n: usize)
        ensures
            n == self@.tasks.len(),
    {
        self.outbox.len()
    }

    /// Number of idempotency records.
    pub fn record_count(&self) -> (n: usize)
        ensures
            n == self@.records.len(),
    {
        self.records.len()
    }

    /// The issue with the given id, if it was ever published.
    pub fn get_issue(&self, issue_id: u64) -> (r: Option<&Issue>)
        requires
            self.wf(),
        ensures
            match r {
                Some(issue) => issue_id < self@.issues.len() && issue@ == self@.issues[
                    issue_id as int
                ],
                None => issue_id >= self@.issues.len(),
            },
    {
        if issue_id < self.issues.len() as u64 {
            Some(&self.issues[issue_id as usize])
        } else {
            None
        }
    }

    /// The pending outbox task at the given position, for inspection.
    pub fn outbox_task(&self, i: usize) -> (r: (u64, &String, bool))
        requires
            i < self@.tasks.len(),
        ensures
            r.0 == self@.tasks[i as int].issue_id,
            r.1@ == self@.tasks[i as int].recipient,
            r.2 == self@.tasks[i as int].claimed,
    {
        let row = &self.outbox[i];
        (row.issue_id, &row.recipient_email, row.claimed)
    }
}

/// `find_index` returns -1 or a position within the sequence.
pub proof fn lemma_find_index_range(records: Seq<RecordModel>, user_id: u64, key: Seq<char>)
    ensures
        -1 <= find_index(records, user_id, key) < records.len(),
    decreases records.len(),
{
    if records.len() > 0 && !rec_matches(records[0], user_id, key) {
        lemma_find_index_range(records.drop_first(), user_id, key);
    }
}

/// What `find_index` finds is a match, is the first match, and is -1 exactly
/// when no record of (caller, key) exists.
pub proof fn lemma_find_index_props(records: Seq<RecordModel>, user_id: u64, key: Seq<char>)
    ensures
        find_index(records, user_id, key) == -1 <==> (forall|j: int|
            0 <= j < records.len() ==> !rec_matches(#[trigger] records[j], user_id, key)),
        find_index(records, user_id, key) != -1 ==> {
            let idx = find_index(records, user_id, key);
            &&& 0 <= idx < records.len()
            &&& rec_matches(records[idx], user_id, key)
            &&& forall|j: int| 0 <= j < idx ==> !rec_matches(#[trigger] records[j], user_id, key)
        },
    decreases records.len(),
{
    if records.len() > 0 {
        if !rec_matches(records[0], user_id, key) {
            lemma_find_index_props(records.drop_first(), user_id, key);
            assert(forall|j: int|
                1 <= j < records.len() ==> records.drop_first()[j - 1] == #[trigger] records[j]);
        }
    }
}

/// Appending a record leaves `find_index` unchanged when a match already
/// exists, finds the new record when it matches and none existed, and still
/// finds nothing otherwise.
pub proof fn lemma_find_index_push(
    records: Seq<RecordModel>,
    user_id: u64,
    key: Seq<char>,
    r: RecordModel,
)
    ensures
        find_index(records, user_id, key) != -1 ==> find_index(
            records.push(r),
            user_id,
            key,
        ) == find_index(records, user_id, key),
        find_index(records, user_id, key) == -1 && rec_matches(r, user_id, key) ==> find_index(
            records.push(r),
            user_id,
            key,
        ) == records.len(),
        find_index(records, user_id, key) == -1 && !rec_matches(r, user_id, key) ==> find_index(
            records.push(r),
            user_id,
            key,
        ) == -1,
    decreases records.len(),
{
    if records.len() == 0 {
        assert(records.push(r).len() == 1);
        assert(records.push(r)[0] == r);
        assert(records.push(r).drop_first() =~= records);
        if rec_matches(r, user_id, key) {
            assert(find_index(records.push(r), user_id, key) == 0);
        }
    } else {
        assert(records.push(r)[0] == records[0]);
        if !rec_matches(records[0], user_id, key) {
            lemma_find_index_push(records.drop_first(), user_id, key, r);
            lemma_find_index_range(records.drop_first(), user_id, key);
            assert(records.push(r).drop_first() =~= records.drop_first().push(r));
            if find_index(records, user_id, key) == -1 && rec_matches(r, user_id, key) {
                assert(find_index(records.drop_first(), user_id, key) == -1);
                assert(find_index(records.drop_first().push(r), user_id, key) == records.len()
                    - 1);
                assert(find_index(records.push(r), user_id, key) == records.len());
            }
        }
    }
}

/// Replacing a record with one of the same (caller, key) leaves every
/// `find_index` unchanged.
pub proof fn lemma_find_index_update_same_key(
    records: Seq<RecordModel>,
    i: int,
    r: RecordModel,
    user_id: u64,
    key: Seq<char>,
)
    requires
        0 <= i < records.len(),
        r.user_id == records[i].user_id,
        r.key == records[i].key,
    ensures
        find_index(records.update(i, r), user_id, key) == find_index(records, user_id, key),
    decreases records.len(),
{
    if i == 0 {
        if !rec_matches(records[0], user_id, key) {
            assert(records.update(i, r).drop_first() =~= records.drop_first());
        }
    } else {
        lemma_find_index_update_same_key(records.drop_first(), i - 1, r, user_id, key);
        assert(records.update(i, r).drop_first() =~= records.drop_first().update(i - 1, r));
    }
}

/// What `find_task_index` finds is the first task of (issue, recipient),
/// and it is -1 exactly when no such task exists.
pub proof fn lemma_find_task_index_props(tasks: Seq<TaskModel>, issue_id: u64, recipient: Seq<char>)
    ensures
        find_task_index(tasks, issue_id, recipient) == -1 <==> (forall|j: int|
            0 <= j < tasks.len() ==> !task_matches(#[trigger] tasks[j], issue_id, recipient)),
        find_task_index(tasks, issue_id, recipient) != -1 ==> {
            let idx = find_task_index(tasks, issue_id, recipient);
            &&& 0 <= idx < tasks.len()
            &&& task_matches(tasks[idx], issue_id, recipient)
            &&& forall|j: int|
                0 <= j < idx ==> !task_matches(#[trigger] tasks[j], issue_id, recipient)
        },
    decreases tasks.len(),
{
    if tasks.len() > 0 {
        if !task_matches(tasks[0], issue_id, recipient) {
            lemma_find_task_index_props(tasks.drop_first(), issue_id, recipient);
            assert(forall|j: int|
                1 <= j < tasks.len() ==> tasks.drop_first()[j - 1] == #[trigger] tasks[j]);
        }
    }
}

/// What `first_unclaimed` finds is the first task no worker holds, and it is
/// -1 exactly when every task is held.
pub proof fn lemma_first_unclaimed_props(tasks: Seq<TaskModel>)
    ensures
        first_unclaimed(tasks) == -1 <==> (forall|j: int|
            0 <= j < tasks.len() ==> (#[trigger] tasks[j]).claimed),
        first_unclaimed(tasks) != -1 ==> {
            let idx = first_unclaimed(tasks);
            &&& 0 <= idx < tasks.len()
            &&& !tasks[idx].claimed
            &&& forall|j: int| 0 <= j < idx ==> (#[trigger] tasks[j]).claimed
        },
    decreases tasks.len(),
{
    if tasks.len() > 0 {
        if tasks[0].claimed {
            lemma_first_unclaimed_props(tasks.drop_first());
            assert(forall|j: int|
                1 <= j < tasks.len() ==> tasks.drop_first()[j - 1] == #[trigger] tasks[j]);
        }
    }
}

} // verus!
