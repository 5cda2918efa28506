use zero2prod::idempotency::{save_response, try_processing, IdempotencyKey, NextAction};
use zero2prod::newsletter::{enqueue_delivery_tasks, insert_newsletter_issue};
use zero2prod::response::see_other;
use zero2prod::startup::ApplicationBaseUrl;
use zero2prod::storage::{Storage, StorageError, SubscriberStatus};

#[test]
fn duplicate_subscriber_email_is_rejected() {
    let mut s = Storage::new();
    s.add_subscriber("a@example.com".to_owned(), SubscriberStatus::PendingConfirmation)
        .expect("fresh email");
    let r = s.add_subscriber("a@example.com".to_owned(), SubscriberStatus::Confirmed);
    assert_eq!(r.err(), Some(StorageError::ConstraintViolation));
    assert_eq!(s.subscribers.len(), 1);
}

#[test]
fn confirming_an_unknown_email_reports_absence() {
    let mut s = Storage::new();
    assert!(!s.confirm_subscriber("ghost@example.com"));
}

#[test]
fn manual_claim_execute_commit_and_replay() {
    let mut s = Storage::new();
    s.add_subscriber("sub@example.com".to_owned(), SubscriberStatus::Confirmed)
        .expect("fresh email");
    let key = IdempotencyKey::parse("abc123".to_owned()).expect("valid key");

    let mut tx = match try_processing(&s, 1, &key) {
        NextAction::StartProcessing(tx) => tx,
        NextAction::ReturnSavedResponse(_) => panic!("the key is unclaimed"),
    };
    insert_newsletter_issue(&mut tx, &s, 7, "Hello", "text", "<p>html</p>", 0)
        .expect("fresh issue id");
    enqueue_delivery_tasks(&mut tx, &s, 7).expect("the issue is staged");
    // nothing is durable until the commit
    assert_eq!(s.issues.len(), 0);
    assert_eq!(s.delivery_queue.len(), 0);
    assert_eq!(s.sagas.len(), 0);

    let response = see_other("/admin/newsletters");
    let returned = save_response(&mut s, tx, response).expect("commit succeeds");
    assert_eq!(s.issues.len(), 1);
    assert_eq!(s.delivery_queue.len(), 1);
    assert_eq!(s.sagas.len(), 1);

    match try_processing(&s, 1, &key) {
        NextAction::StartProcessing(_) => panic!("the key is taken"),
        NextAction::ReturnSavedResponse(saved) => {
            assert_eq!(saved.status, returned.status);
            assert_eq!(saved.headers.len(), returned.headers.len());
            assert_eq!(saved.headers[0].name, returned.headers[0].name);
            assert_eq!(saved.headers[0].value, returned.headers[0].value);
            assert_eq!(saved.body, returned.body);
        },
    }
}

#[test]
fn dropping_the_transaction_rolls_back() {
    let mut s = Storage::new();
    s.add_subscriber("sub@example.com".to_owned(), SubscriberStatus::Confirmed)
        .expect("fresh email");
    let key = IdempotencyKey::parse("abc123".to_owned()).expect("valid key");
    {
        let mut tx = match try_processing(&s, 1, &key) {
            NextAction::StartProcessing(tx) => tx,
            NextAction::ReturnSavedResponse(_) => panic!("the key is unclaimed"),
        };
        insert_newsletter_issue(&mut tx, &s, 7, "Hello", "text", "<p>html</p>", 0)
            .expect("fresh issue id");
        // the transaction is dropped without a commit
    }
    assert_eq!(s.issues.len(), 0);
    assert_eq!(s.delivery_queue.len(), 0);
    assert_eq!(s.sagas.len(), 0);
    // the key can be claimed again
    match try_processing(&s, 1, &key) {
        NextAction::StartProcessing(_) => {},
        NextAction::ReturnSavedResponse(_) => panic!("nothing was committed"),
    }
}

#[test]
fn staged_writes_are_checked_inside_the_transaction() {
    let mut s = Storage::new();
    let key = IdempotencyKey::parse("abc123".to_owned()).expect("valid key");
    let mut tx = match try_processing(&s, 1, &key) {
        NextAction::StartProcessing(tx) => tx,
        NextAction::ReturnSavedResponse(_) => panic!("the key is unclaimed"),
    };
    // enqueueing for an issue that is not staged violates the reference
    let r = enqueue_delivery_tasks(&mut tx, &s, 99);
    assert_eq!(r.err(), Some(StorageError::ConstraintViolation));
    // staging the same issue id twice violates uniqueness
    insert_newsletter_issue(&mut tx, &s, 7, "Hello", "text", "<p>html</p>", 0)
        .expect("fresh issue id");
    let r = insert_newsletter_issue(&mut tx, &s, 7, "Again", "text", "<p>html</p>", 0);
    assert_eq!(r.err(), Some(StorageError::ConstraintViolation));
}

#[test]
fn see_other_builds_a_redirect() {
    let r = see_other("/admin/newsletters");
    assert_eq!(r.status, 303);
    assert_eq!(r.headers.len(), 1);
    assert_eq!(r.headers[0].name, "Location");
    assert_eq!(r.headers[0].value, "/admin/newsletters".as_bytes());
    assert!(r.body.is_empty());
    let copy = r.duplicate();
    assert_eq!(copy.status, r.status);
    assert_eq!(copy.headers[0].value, r.headers[0].value);
    assert_eq!(copy.body, r.body);
}

#[test]
fn base_url_is_a_plain_wrapper() {
    let base = ApplicationBaseUrl("http://127.0.0.1:8000".to_owned());
    assert_eq!(base.0, "http://127.0.0.1:8000");
}
