//! The delivery worker's store operations.
//!
//! A worker claims one outbox task at a time (mutually exclusive with other
//! workers), performs the delivery side effect through the external sink,
//! and retires the task — after success and after failure alike, so that one
//! recipient's permanent failure never blocks the rest of the list. A worker
//! that finds nothing claimable backs off and polls again.

use vstd::prelude::*;

verus! {

use crate::store::Store;
use crate::store::TaskModel;
use crate::store::TaskRow;
use crate::store::find_task_index;
use crate::store::first_unclaimed;
use crate::store::lemma_find_task_index_props;
use crate::store::lemma_first_unclaimed_props;
use crate::store::task_matches;

/// A claimed delivery obligation, as handed to the delivery sink.
#[derive(Debug)]
pub struct OutboxTask {
    pub issue_id: u64,
    pub recipient_email: String,
}

/// A task row after a worker claimed it.
pub open spec fn mark_claimed(t: TaskModel) -> TaskModel {
    TaskModel { claimed: true, ..t }
}

/// A task row after its lease was released.
pub open spec fn mark_unclaimed(t: TaskModel) -> TaskModel {
    TaskModel { claimed: false, ..t }
}

/// Atomically select and lease one outbox task, skipping tasks already held
/// by other workers. Returns `None` exactly when nothing is claimable, which
/// tells the worker loop to back off. No two live claims ever name the same
/// row, and a claim changes nothing but that row's lease flag.
pub fn try_claim_task(store: &mut Store) -> (r: Option<OutboxTask>)
    requires
        old(store).wf(),
    ensures
        final(store).wf(),
        final(store)@.records == old(store)@.records,
        final(store)@.issues == old(store)@.issues,
        match r {
            None => first_unclaimed(old(store)@.tasks) == -1 && final(store)@ == old(store)@,
            Some(task) => ({
                let i = first_unclaimed(old(store)@.tasks);
                &&& 0 <= i < old(store)@.tasks.len()
                &&& task.issue_id == old(store)@.tasks[i].issue_id
                &&& task.recipient_email@ == old(store)@.tasks[i].recipient
                &&& task.issue_id < old(store)@.issues.len()
                &&& final(store)@.tasks == old(store)@.tasks.update(
                    i,
                    mark_claimed(old(store)@.tasks[i]),
                )
            }),
        },
{
    let ghost t0 = store@.tasks;
    let mut i: usize = 0;
    while i < store.outbox.len()
        invariant
            store@ == old(store)@,
            store@.tasks == t0,
            store.wf(),
            i <= t0.len(),
            forall|j: int| 0 <= j < i ==> (#[trigger] t0[j]).claimed,
        decreases t0.len() - i,
    {
        if !store.outbox[i].claimed {
            proof {
                lemma_first_unclaimed_props(t0);
                if first_unclaimed(t0) != i {
                    assert(!t0[i as int].claimed);
                    assert(first_unclaimed(t0) != -1);
                }
            }
            let issue_id = store.outbox[i].issue_id;
            let email = store.outbox[i].recipient_email.clone();
            let email_for_row = store.outbox[i].recipient_email.clone();
            store.outbox.set(
                i,
                TaskRow { issue_id, recipient_email: email_for_row, claimed: true },
            );
            proof {
                assert(store@.tasks =~= t0.update(i as int, mark_claimed(t0[i as int])));
                assert forall|a: int, b: int|
                    0 <= a < b < store@.tasks.len() implies !(store@.tasks[a].issue_id
                    == store@.tasks[b].issue_id && store@.tasks[a].recipient
                    == store@.tasks[b].recipient) by {
                    assert(store@.tasks[a].issue_id == t0[a].issue_id && store@.tasks[a].recipient
                        == t0[a].recipient);
                    assert(store@.tasks[b].issue_id == t0[b].issue_id && store@.tasks[b].recipient
                        == t0[b].recipient);
                }
            }
            return Some(OutboxTask { issue_id, recipient_email: email });
        }
        i = i + 1;
    }
    proof {
        lemma_first_unclaimed_props(t0);
    }
    None
}

/// Retire a claimed task: permanently remove its row, after the delivery
/// attempt — successful or not — was made and recorded. Removal happens
/// exactly once per task; nothing else in the store changes.
pub fn retire_task(store: &mut Store, task: &OutboxTask)
    requires
        old(store).wf(),
        ({
            let ti = find_task_index(old(store)@.tasks, task.issue_id, task.recipient_email@);
            ti >= 0 && old(store)@.tasks[ti].claimed
        }),
    ensures
        final(store).wf(),
        final(store)@.records == old(store)@.records,
        final(store)@.issues == old(store)@.issues,
        final(store)@.tasks == old(store)@.tasks.remove(
            find_task_index(old(store)@.tasks, task.issue_id, task.recipient_email@),
        ),
{
    let ghost t0 = store@.tasks;
    proof {
        lemma_find_task_index_props(t0, task.issue_id, task.recipient_email@);
    }
    let mut i: usize = 0;
    while i < store.outbox.len()
        invariant
            store@ == old(store)@,
            store@.tasks == t0,
            store.wf(),
            i <= t0.len(),
            find_task_index(t0, task.issue_id, task.recipient_email@) >= i,
            forall|j: int|
                0 <= j < i ==> !task_matches(#[trigger] t0[j], task.issue_id, task.recipient_email@),
        decreases t0.len() - i,
    {
        let row_matches = store.outbox[i].issue_id == task.issue_id
            && store.outbox[i].recipient_email == task.recipient_email;
        if row_matches {
            proof {
                lemma_find_task_index_props(t0, task.issue_id, task.recipient_email@);
                assert(task_matches(t0[i as int], task.issue_id, task.recipient_email@));
                assert(find_task_index(t0, task.issue_id, task.recipient_email@) == i);
            }
            store.outbox.remove(i);
            proof {
                assert(store@.tasks =~= t0.remove(i as int));
                assert forall|a: int, b: int|
                    0 <= a < b < store@.tasks.len() implies !(store@.tasks[a].issue_id
                    == store@.tasks[b].issue_id && store@.tasks[a].recipient
                    == store@.tasks[b].recipient) by {
                    let a0: int = if a < i { a } else { a + 1 };
                    let b0: int = if b < i { b } else { b + 1 };
                    assert(store@.tasks[a] == t0[a0]);
                    assert(store@.tasks[b] == t0[b0]);
                }
                assert forall|a: int| 0 <= a < store@.tasks.len() implies (
                #[trigger] store@.tasks[a]).issue_id < store@.issues.len() by {
                    let a0: int = if a < i { a } else { a + 1 };
                    assert(store@.tasks[a] == t0[a0]);
                }
            }
            return ;
        }
        proof {
            lemma_find_task_index_props(t0, task.issue_id, task.recipient_email@);
        }
        i = i + 1;
    }
    proof {
        lemma_find_task_index_props(t0, task.issue_id, task.recipient_email@);
        assert(false);
    }
}

/// Release a claimed task's lease without retiring it, as crash recovery
/// does when a worker died between claiming and retiring: the task becomes
/// claimable again, and no delivery obligation is lost.
pub fn release_task(store: &mut Store, task: &OutboxTask)
    requires
        old(store).wf(),
        ({
            let ti = find_task_index(old(store)@.tasks, task.issue_id, task.recipient_email@);
            ti >= 0 && old(store)@.tasks[ti].claimed
        }),
    ensures
        final(store).wf(),
        final(store)@.records == old(store)@.records,
        final(store)@.issues == old(store)@.issues,
        final(store)@.tasks == old(store)@.tasks.update(
            find_task_index(old(store)@.tasks, task.issue_id, task.recipient_email@),
            mark_unclaimed(
                old(store)@.tasks[find_task_index(
                    old(store)@.tasks,
                    task.issue_id,
                    task.recipient_email@,
                )],
            ),
        ),
{
    let ghost t0 = store@.tasks;
    proof {
        lemma_find_task_index_props(t0, task.issue_id, task.recipient_email@);
    }
    let mut i: usize = 0;
    while i < store.outbox.len()
        invariant
            store@ == old(store)@,
            store@.tasks == t0,
            store.wf(),
            i <= t0.len(),
            find_task_index(t0, task.issue_id, task.recipient_email@) >= i,
            forall|j: int|
                0 <= j < i ==> !task_matches(#[trigger] t0[j], task.issue_id, task.recipient_email@),
        decreases t0.len() - i,
    {
        let row_matches = store.outbox[i].issue_id == task.issue_id
            && store.outbox[i].recipient_email == task.recipient_email;
        if row_matches {
            proof {
                lemma_find_task_index_props(t0, task.issue_id, task.recipient_email@);
                assert(task_matches(t0[i as int], task.issue_id, task.recipient_email@));
                assert(find_task_index(t0, task.issue_id, task.recipient_email@) == i);
            }
            let issue_id = store.outbox[i].issue_id;
            let email = store.outbox[i].recipient_email.clone();
            store.outbox.set(i, TaskRow { issue_id, recipient_email: email, claimed: false });
            proof {
                assert(store@.tasks =~= t0.update(i as int, mark_unclaimed(t0[i as int])));
                assert forall|a: int, b: int|
                    0 <= a < b < store@.tasks.len() implies !(store@.tasks[a].issue_id
                    == store@.tasks[b].issue_id && store@.tasks[a].recipient
                    == store@.tasks[b].recipient) by {
                    assert(store@.tasks[a].issue_id == t0[a].issue_id && store@.tasks[a].recipient
                        == t0[a].recipient);
                    assert(store@.tasks[b].issue_id == t0[b].issue_id && store@.tasks[b].recipient
                        == t0[b].recipient);
                }
            }
            return ;
        }
        proof {
            lemma_find_task_index_props(t0, task.issue_id, task.recipient_email@);
        }
        i = i + 1;
    }
    proof {
        lemma_find_task_index_props(t0, task.issue_id, task.recipient_email@);
        assert(false);
    }
}

/// Mutual exclusion per task: the row one claim leased is never handed out
/// again while the lease holds — the next claim selects a different row or
/// nothing.
pub proof fn lemma_claim_mutual_exclusion(tasks: Seq<TaskModel>)
    requires
        first_unclaimed(tasks) >= 0,
    ensures
        ({
            let i = first_unclaimed(tasks);
            first_unclaimed(tasks.update(i, mark_claimed(tasks[i]))) != i
        }),
{
    lemma_first_unclaimed_props(tasks);
    let i = first_unclaimed(tasks);
    let after = tasks.update(i, mark_claimed(tasks[i]));
    lemma_first_unclaimed_props(after);
    if first_unclaimed(after) == i {
        assert(after[i].claimed);
    }
}

/// One delivery attempt the worker made while draining the outbox.
#[derive(Debug)]
pub struct DeliveryAttempt {
    pub issue_id: u64,
    pub recipient_email: String,
    pub delivered: bool,
}

/// Mathematical image of a delivery attempt.
pub struct AttemptModel {
    pub issue_id: u64,
    pub recipient: Seq<char>,
    pub delivered: bool,
}

impl View for DeliveryAttempt {
    type V = AttemptModel;

    open spec fn view(&self) -> AttemptModel {
        AttemptModel {
            issue_id: self.issue_id,
            recipient: self.recipient_email@,
            delivered: self.delivered,
        }
    }
}

/// Run the worker until the outbox is empty: claim a task, attempt its
/// delivery, retire it, repeat. The delivery sink is external, so its
/// verdicts are handed in as one outcome per attempt; the worker retires the
/// task after success and failure alike. Every task that was pending is
/// attempted exactly once, in queue order, and none remains.
pub fn drain_outbox(store: &mut Store, outcomes: &Vec<bool>) -> (r: Vec<DeliveryAttempt>)
    requires
        old(store).wf(),
        outcomes@.len() == old(store)@.tasks.len(),
        forall|i: int|
            0 <= i < old(store)@.tasks.len() ==> !(#[trigger] old(store)@.tasks[i]).claimed,
    ensures
        final(store).wf(),
        final(store)@.records == old(store)@.records,
        final(store)@.issues == old(store)@.issues,
        final(store)@.tasks.len() == 0,
        r@.len() == old(store)@.tasks.len(),
        forall|i: int|
            0 <= i < r@.len() ==> {
                let a = (#[trigger] r@[i])@;
                &&& a.issue_id == old(store)@.tasks[i].issue_id
                &&& a.recipient == old(store)@.tasks[i].recipient
                &&& a.delivered == outcomes@[i]
            },
{
    let ghost t0 = store@.tasks;
    let mut attempts: Vec<DeliveryAttempt> = Vec::new();
    let mut k: usize = 0;
    while k < outcomes.len()
        invariant
            store.wf(),
            store@.records == old(store)@.records,
            store@.issues == old(store)@.issues,
            t0 == old(store)@.tasks,
            outcomes@.len() == t0.len(),
            k <= t0.len(),
            store@.tasks =~= t0.subrange(k as int, t0.len() as int),
            forall|i: int| 0 <= i < t0.len() ==> !(#[trigger] t0[i]).claimed,
            attempts@.len() == k,
            forall|i: int|
                0 <= i < k ==> {
                    let a = (#[trigger] attempts@[i])@;
                    &&& a.issue_id == t0[i].issue_id
                    &&& a.recipient == t0[i].recipient
                    &&& a.delivered == outcomes@[i]
                },
        decreases t0.len() - k,
    {
        let ghost before = store@.tasks;
        proof {
            assert(before[0] == t0[k as int]);
            assert(first_unclaimed(before) == 0);
        }
        let task = try_claim_task(store).unwrap();
        let ok = outcomes[k];
        proof {
            assert(store@.tasks[0] == mark_claimed(before[0]));
            assert(task_matches(store@.tasks[0], task.issue_id, task.recipient_email@));
            assert(find_task_index(store@.tasks, task.issue_id, task.recipient_email@) == 0);
        }
        retire_task(store, &task);
        proof {
            assert(store@.tasks =~= before.update(0, mark_claimed(before[0])).remove(0));
            assert(store@.tasks =~= t0.subrange(k + 1 as int, t0.len() as int));
        }
        attempts.push(
            DeliveryAttempt { issue_id: task.issue_id, recipient_email: task.recipient_email, delivered: ok },
        );
        k = k + 1;
    }
    attempts
}

/// How many of the attempts delivered successfully.
pub open spec fn count_delivered(s: Seq<AttemptModel>) -> int
    decreases s.len(),
{
    if s.len() == 0 {
        0
    } else {
        count_delivered(s.drop_last()) + if s.last().delivered {
            1int
        } else {
            0int
        }
    }
}

/// How many of the sink's verdicts were successes.
pub open spec fn count_true(s: Seq<bool>) -> int
    decreases s.len(),
{
    if s.len() == 0 {
        0
    } else {
        count_true(s.drop_last()) + if s.last() {
            1int
        } else {
            0int
        }
    }
}

/// Attempts that mirror the sink's verdicts one for one deliver exactly as
/// many times as the sink succeeded.
pub proof fn lemma_count_matches(attempts: Seq<AttemptModel>, outcomes: Seq<bool>)
    requires
        attempts.len() == outcomes.len(),
        forall|i: int|
            0 <= i < attempts.len() ==> (#[trigger] attempts[i]).delivered == outcomes[i],
    ensures
        count_delivered(attempts) == count_true(outcomes),
    decreases attempts.len(),
{
    if attempts.len() > 0 {
        assert(forall|i: int|
            0 <= i < attempts.len() - 1 ==> (#[trigger] attempts.drop_last()[i])
                == attempts[i]);
        lemma_count_matches(attempts.drop_last(), outcomes.drop_last());
    }
}

/// A sink that always succeeds succeeds on every attempt.
pub proof fn lemma_count_true_all(outcomes: Seq<bool>)
    requires
        forall|i: int| 0 <= i < outcomes.len() ==> #[trigger] outcomes[i],
    ensures
        count_true(outcomes) == outcomes.len(),
    decreases outcomes.len(),
{
    if outcomes.len() > 0 {
        lemma_count_true_all(outcomes.drop_last());
    }
}

/// A sink that fails exactly once succeeds on all attempts but one.
pub proof fn lemma_count_true_one_false(outcomes: Seq<bool>, f: int)
    requires
        0 <= f < outcomes.len(),
        !outcomes[f],
        forall|i: int| 0 <= i < outcomes.len() && i != f ==> #[trigger] outcomes[i],
    ensures
        count_true(outcomes) == outcomes.len() - 1,
    decreases outcomes.len(),
{
    if f == outcomes.len() - 1 {
        lemma_count_true_all(outcomes.drop_last());
    } else {
        lemma_count_true_one_false(outcomes.drop_last(), f);
    }
}

/// Delivery completeness: with a sink that succeeds on every attempt,
/// draining an outbox of R tasks — which `drain_outbox` attempts exactly
/// once each, leaving none — delivers exactly R times, once per recipient.
pub proof fn lemma_delivery_completeness(attempts: Seq<AttemptModel>, outcomes: Seq<bool>)
    requires
        attempts.len() == outcomes.len(),
        forall|i: int|
            0 <= i < attempts.len() ==> (#[trigger] attempts[i]).delivered == outcomes[i],
        forall|i: int| 0 <= i < outcomes.len() ==> #[trigger] outcomes[i],
    ensures
        count_delivered(attempts) == attempts.len(),
{
    lemma_count_matches(attempts, outcomes);
    lemma_count_true_all(outcomes);
}

/// Fault isolation: when exactly one recipient's delivery fails, the drain
/// still attempts every task exactly once and retires them all, and the
/// other deliveries succeed — one failure neither blocks nor duplicates the
/// rest of the list.
pub proof fn lemma_fault_isolation(attempts: Seq<AttemptModel>, outcomes: Seq<bool>, f: int)
    requires
        attempts.len() == outcomes.len(),
        forall|i: int|
            0 <= i < attempts.len() ==> (#[trigger] attempts[i]).delivered == outcomes[i],
        0 <= f < outcomes.len(),
        !outcomes[f],
        forall|i: int| 0 <= i < outcomes.len() && i != f ==> #[trigger] outcomes[i],
    ensures
        count_delivered(attempts) == attempts.len() - 1,
{
    lemma_count_matches(attempts, outcomes);
    lemma_count_true_one_false(outcomes, f);
}

} // verus!
