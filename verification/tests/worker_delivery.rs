use zero2prod::publish::publish;
use zero2prod::store::Store;
use zero2prod::worker::drain_outbox;
use zero2prod::worker::release_task;
use zero2prod::worker::retire_task;
use zero2prod::worker::try_claim_task;

fn store_with_issue(recipients: &[&str]) -> Store {
    let mut store = Store::new();
    let recipients: Vec<String> = recipients.iter().map(|r| r.to_string()).collect();
    publish(
        &mut store,
        7,
        "T".to_string(),
        "text".to_string(),
        "<p>html</p>".to_string(),
        "abc123".to_string(),
        &recipients,
        0,
    )
    .unwrap();
    store
}

#[test]
fn draining_delivers_once_per_recipient() {
    // a sink that always succeeds: every task retired, one attempt each
    let mut store = store_with_issue(&["a@x.com", "b@x.com", "c@x.com"]);
    let outcomes = vec![true, true, true];
    let attempts = drain_outbox(&mut store, &outcomes);
    assert_eq!(store.outbox_count(), 0);
    assert_eq!(attempts.len(), 3);
    let mut seen: Vec<&str> = Vec::new();
    for a in &attempts {
        assert!(a.delivered);
        assert_eq!(a.issue_id, 0);
        seen.push(&a.recipient_email);
    }
    assert_eq!(seen, vec!["a@x.com", "b@x.com", "c@x.com"]);
}

#[test]
fn one_failure_does_not_block_the_rest() {
    // recipient #2 fails; every task is still retired, the rest delivered
    let mut store = store_with_issue(&["a@x.com", "b@x.com", "c@x.com"]);
    let outcomes = vec![true, false, true];
    let attempts = drain_outbox(&mut store, &outcomes);
    assert_eq!(store.outbox_count(), 0);
    assert_eq!(attempts.len(), 3);
    let delivered: Vec<bool> = attempts.iter().map(|a| a.delivered).collect();
    assert_eq!(delivered, vec![true, false, true]);
    assert_eq!(attempts.iter().filter(|a| a.delivered).count(), 2);
    assert_eq!(attempts[1].recipient_email, "b@x.com");
}

#[test]
fn claims_are_mutually_exclusive() {
    let mut store = store_with_issue(&["a@x.com", "b@x.com"]);
    let t1 = try_claim_task(&mut store).unwrap();
    let t2 = try_claim_task(&mut store).unwrap();
    assert_ne!(t1.recipient_email, t2.recipient_email);
    // both rows are leased now: nothing is claimable
    assert!(try_claim_task(&mut store).is_none());
    // retiring both empties the outbox
    retire_task(&mut store, &t1);
    retire_task(&mut store, &t2);
    assert_eq!(store.outbox_count(), 0);
    assert!(try_claim_task(&mut store).is_none());
}

#[test]
fn a_released_lease_becomes_claimable_again() {
    // a worker crashed after claiming: recovery releases the lease and the
    // task is claimed again, so no delivery obligation is lost
    let mut store = store_with_issue(&["a@x.com"]);
    let t1 = try_claim_task(&mut store).unwrap();
    assert!(try_claim_task(&mut store).is_none());
    release_task(&mut store, &t1);
    let t2 = try_claim_task(&mut store).unwrap();
    assert_eq!(t2.recipient_email, "a@x.com");
    assert_eq!(store.outbox_count(), 1);
}

#[test]
fn an_empty_outbox_claims_nothing() {
    // the worker loop backs off when nothing is claimable
    let mut store = Store::new();
    assert!(try_claim_task(&mut store).is_none());
}

#[test]
fn claimed_tasks_name_their_issue() {
    let mut store = store_with_issue(&["a@x.com"]);
    let t = try_claim_task(&mut store).unwrap();
    let issue = store.get_issue(t.issue_id).unwrap();
    assert_eq!(issue.title, "T");
    assert_eq!(issue.html_content, "<p>html</p>");
    assert_eq!(issue.text_content, "text");
}

#[test]
fn outbox_rows_are_inspectable() {
    let store = store_with_issue(&["a@x.com", "b@x.com"]);
    let (issue_id, recipient, claimed) = store.outbox_task(1);
    assert_eq!(issue_id, 0);
    assert_eq!(recipient, "b@x.com");
    assert!(!claimed);
}
