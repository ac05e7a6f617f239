use zero2prod::idempotency::get_saved_response;
use zero2prod::idempotency::IdempotencyKey;
use zero2prod::idempotency::NextAction;
use zero2prod::idempotency::try_processing;
use zero2prod::publish::insert_newsletter_issue;
use zero2prod::publish::publish;
use zero2prod::publish::PublishError;
use zero2prod::store::Store;

fn two_recipients() -> Vec<String> {
    vec!["a@x.com".to_string(), "b@x.com".to_string()]
}

#[test]
fn publish_scenario_then_replay_with_other_title() {
    let mut store = Store::new();
    let recipients = two_recipients();
    let first = publish(
        &mut store,
        7,
        "T".to_string(),
        "plain text".to_string(),
        "<p>html</p>".to_string(),
        "abc123".to_string(),
        &recipients,
        1000,
    )
    .unwrap();
    assert_eq!(first.status, 303);
    assert_eq!(store.issue_count(), 1);
    assert_eq!(store.outbox_count(), 2);
    assert!(get_saved_response(&store, &IdempotencyKey::parse("abc123".to_string()).unwrap(), 7)
        .is_some());

    // resubmitting with the same key and a different title replays the
    // original response: no second issue, no extra tasks
    let second = publish(
        &mut store,
        7,
        "T2".to_string(),
        "other text".to_string(),
        "<p>other</p>".to_string(),
        "abc123".to_string(),
        &recipients,
        2000,
    )
    .unwrap();
    assert_eq!(first, second);
    assert_eq!(store.issue_count(), 1);
    assert_eq!(store.outbox_count(), 2);
    let issue = store.get_issue(0).unwrap();
    assert_eq!(issue.title, "T");
    assert_eq!(issue.text_content, "plain text");
    assert_eq!(issue.html_content, "<p>html</p>");
    assert_eq!(issue.published_at, 1000);
}

#[test]
fn publish_twice_yields_identical_responses_and_one_issue() {
    let mut store = Store::new();
    let recipients = two_recipients();
    let mut responses = Vec::new();
    for _ in 0..2 {
        let r = publish(
            &mut store,
            1,
            "Title".to_string(),
            "text".to_string(),
            "html".to_string(),
            "key-1".to_string(),
            &recipients,
            5,
        )
        .unwrap();
        responses.push(r);
    }
    assert_eq!(responses[0], responses[1]);
    assert_eq!(store.issue_count(), 1);
    assert_eq!(store.outbox_count(), 2);
}

#[test]
fn many_racing_submissions_commit_one_issue() {
    // the claim serializes racing submissions; here they arrive in turn
    let mut store = Store::new();
    let recipients = two_recipients();
    let mut responses = Vec::new();
    for n in 0..5 {
        let r = publish(
            &mut store,
            1,
            format!("Title {n}"),
            "text".to_string(),
            "html".to_string(),
            "key-race".to_string(),
            &recipients,
            n,
        )
        .unwrap();
        responses.push(r);
    }
    assert_eq!(store.issue_count(), 1);
    assert_eq!(store.outbox_count(), 2);
    for r in &responses {
        assert_eq!(r, &responses[0]);
    }
}

#[test]
fn crash_between_claim_and_commit_publishes_nothing() {
    let mut store = Store::new();
    let key = IdempotencyKey::parse("abc123".to_string()).unwrap();
    let action = try_processing(&mut store, &key, 7, 0);
    let mut txn = match action {
        NextAction::StartProcessing(t) => t,
        NextAction::ReturnSavedResponse(_) => panic!("fresh key must start processing"),
    };
    insert_newsletter_issue(
        &mut txn,
        "T".to_string(),
        "text".to_string(),
        "html".to_string(),
        0,
    );
    // simulated crash between the issue insert and the task inserts
    drop(txn);
    assert_eq!(store.issue_count(), 0);
    assert_eq!(store.outbox_count(), 0);
    assert!(get_saved_response(&store, &key, 7).is_none());

    // the key is reprocessable from scratch
    let r = publish(
        &mut store,
        7,
        "T".to_string(),
        "text".to_string(),
        "html".to_string(),
        "abc123".to_string(),
        &vec!["a@x.com".to_string()],
        9,
    )
    .unwrap();
    assert_eq!(r.status, 303);
    assert_eq!(store.issue_count(), 1);
    assert_eq!(store.outbox_count(), 1);
}

#[test]
fn crash_after_enqueue_publishes_nothing_either() {
    let mut store = Store::new();
    let key = IdempotencyKey::parse("abc123".to_string()).unwrap();
    let action = try_processing(&mut store, &key, 7, 0);
    let mut txn = match action {
        NextAction::StartProcessing(t) => t,
        NextAction::ReturnSavedResponse(_) => panic!("fresh key must start processing"),
    };
    insert_newsletter_issue(
        &mut txn,
        "T".to_string(),
        "text".to_string(),
        "html".to_string(),
        0,
    );
    zero2prod::publish::enqueue_deliver_tasks(&mut txn, &two_recipients());
    // simulated crash after every write was gathered but before the commit
    drop(txn);
    assert_eq!(store.issue_count(), 0);
    assert_eq!(store.outbox_count(), 0);
    assert!(get_saved_response(&store, &key, 7).is_none());
}

#[test]
fn task_sets_are_snapshots_per_issue() {
    // tasks are fixed when the issue is enqueued: a recipient added later
    // belongs only to later issues
    let mut store = Store::new();
    let first_round = vec!["a@x.com".to_string()];
    publish(
        &mut store,
        7,
        "T1".to_string(),
        "text".to_string(),
        "html".to_string(),
        "key-1".to_string(),
        &first_round,
        0,
    )
    .unwrap();
    let second_round = two_recipients();
    publish(
        &mut store,
        7,
        "T2".to_string(),
        "text".to_string(),
        "html".to_string(),
        "key-2".to_string(),
        &second_round,
        1,
    )
    .unwrap();
    assert_eq!(store.outbox_count(), 3);
    let rows: Vec<(u64, String)> = (0..3)
        .map(|i| {
            let (issue_id, recipient, _claimed) = store.outbox_task(i);
            (issue_id, recipient.clone())
        })
        .collect();
    assert_eq!(
        rows,
        vec![
            (0, "a@x.com".to_string()),
            (1, "a@x.com".to_string()),
            (1, "b@x.com".to_string()),
        ]
    );
}

#[test]
fn malformed_keys_are_rejected_before_any_state_mutation() {
    let mut store = Store::new();
    let recipients = two_recipients();
    for bad in ["", "a b", "k\u{e9}y", &"x".repeat(51)] {
        let r = publish(
            &mut store,
            7,
            "T".to_string(),
            "text".to_string(),
            "html".to_string(),
            bad.to_string(),
            &recipients,
            0,
        );
        match r {
            Err(PublishError::ValidationError(m)) => {
                assert_eq!(m, "invalid idempotency key");
            }
            _ => panic!("a malformed key must be a validation error"),
        }
        assert_eq!(store.issue_count(), 0);
        assert_eq!(store.outbox_count(), 0);
        assert_eq!(store.record_count(), 0);
    }
}

#[test]
fn keys_are_scoped_per_caller() {
    let mut store = Store::new();
    let recipients = two_recipients();
    for user in [1u64, 2u64] {
        let r = publish(
            &mut store,
            user,
            "T".to_string(),
            "text".to_string(),
            "html".to_string(),
            "shared-key".to_string(),
            &recipients,
            0,
        );
        assert!(r.is_ok());
    }
    // the same key under two callers is two commands
    assert_eq!(store.issue_count(), 2);
    assert_eq!(store.outbox_count(), 4);
}

#[test]
fn saved_responses_replay_headers_and_body() {
    let mut store = Store::new();
    let r = publish(
        &mut store,
        7,
        "T".to_string(),
        "text".to_string(),
        "html".to_string(),
        "abc123".to_string(),
        &two_recipients(),
        0,
    )
    .unwrap();
    let key = IdempotencyKey::parse("abc123".to_string()).unwrap();
    let saved = get_saved_response(&store, &key, 7).unwrap();
    assert_eq!(saved, r);
    assert_eq!(saved.status, 303);
    assert_eq!(saved.headers.len(), 1);
    assert_eq!(saved.headers[0].name, "location");
    assert_eq!(saved.headers[0].value, b"/admin/newsletters".to_vec());
    assert!(saved.body.is_empty());
    // an unknown caller has nothing cached
    assert!(get_saved_response(&store, &key, 8).is_none());
}

#[test]
fn idempotency_key_validation() {
    assert!(IdempotencyKey::parse("abc123".to_string()).is_ok());
    assert!(IdempotencyKey::parse("A-b_9".to_string()).is_ok());
    assert!(IdempotencyKey::parse("x".repeat(50)).is_ok());
    assert!(IdempotencyKey::parse("".to_string()).is_err());
    assert!(IdempotencyKey::parse("x".repeat(51)).is_err());
    assert!(IdempotencyKey::parse("no spaces".to_string()).is_err());
    assert!(IdempotencyKey::parse("percent%".to_string()).is_err());
    let k = IdempotencyKey::parse("abc123".to_string()).unwrap();
    assert_eq!(k.as_str(), "abc123");
}
