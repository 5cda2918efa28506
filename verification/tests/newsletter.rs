use zero2prod::newsletter::{
    publish_newsletter, publish_newsletter_with_id, FormData, PublishError, StorageFaults,
};
use zero2prod::response::SavedResponse;
use zero2prod::storage::{Storage, StorageError, SubscriberStatus};

const SUBJECT: u128 = 1;

fn form(title: &str, key: &str) -> FormData {
    FormData {
        title: title.to_owned(),
        text_content: "Newsletter body as PLAIN TEXT".to_owned(),
        html_content: "<p>Newsletter body as HTML</p>".to_owned(),
        idempotency_key: key.to_owned(),
    }
}

fn storage_with_confirmed(emails: &[&str]) -> Storage {
    let mut s = Storage::new();
    for email in emails {
        s.add_subscriber((*email).to_owned(), SubscriberStatus::Confirmed)
            .expect("fresh email");
    }
    s
}

fn assert_responses_identical(a: &SavedResponse, b: &SavedResponse) {
    assert_eq!(a.status, b.status);
    assert_eq!(a.headers.len(), b.headers.len());
    for (x, y) in a.headers.iter().zip(b.headers.iter()) {
        assert_eq!(x.name, y.name);
        assert_eq!(x.value, y.value);
    }
    assert_eq!(a.body, b.body);
}

#[test]
fn concrete_scenario() {
    // subject U1 submits key "abc123" with title "Hello"
    let mut s = storage_with_confirmed(&["one@example.com", "two@example.com"]);
    let first = publish_newsletter_with_id(&mut s, SUBJECT, &form("Hello", "abc123"), 7, 0,
        StorageFaults::none())
        .expect("first call succeeds");
    assert_eq!(first.status, 303);
    assert_eq!(first.headers.len(), 1);
    assert_eq!(first.headers[0].name, "Location");
    assert_eq!(first.headers[0].value, "/admin/newsletters".as_bytes());
    assert_eq!(s.issues.len(), 1);
    assert_eq!(s.delivery_queue.len(), 2);

    // an identical second call replays: same Location, no new rows
    let second = publish_newsletter_with_id(&mut s, SUBJECT, &form("Hello", "abc123"), 8, 1,
        StorageFaults::none())
        .expect("replay succeeds");
    assert_eq!(second.status, 303);
    assert_eq!(second.headers[0].value, first.headers[0].value);
    assert_eq!(s.issues.len(), 1);
    assert_eq!(s.delivery_queue.len(), 2);

    // a third call with key "xyz789" and another title creates a second,
    // independent issue
    let third = publish_newsletter_with_id(&mut s, SUBJECT, &form("Goodbye", "xyz789"), 9, 2,
        StorageFaults::none())
        .expect("fresh key succeeds");
    assert_eq!(third.status, 303);
    assert_eq!(s.issues.len(), 2);
    assert_eq!(s.delivery_queue.len(), 4);
    assert_eq!(s.issues[1].title, "Goodbye");
}

#[test]
fn at_most_once_effect() {
    let mut s = storage_with_confirmed(&["sub@example.com"]);
    for round in 0..5u64 {
        publish_newsletter_with_id(&mut s, SUBJECT, &form("Hello", "abc123"), 100 + round as u128,
            round, StorageFaults::none())
            .expect("every retry gets a response");
        assert_eq!(s.issues.len(), 1);
        assert_eq!(s.delivery_queue.len(), 1);
    }
}

#[test]
fn replay_fidelity() {
    let mut s = storage_with_confirmed(&["sub@example.com"]);
    let first = publish_newsletter_with_id(&mut s, SUBJECT, &form("Hello", "abc123"), 7, 0,
        StorageFaults::none())
        .expect("first call succeeds");
    let second = publish_newsletter_with_id(&mut s, SUBJECT, &form("Hello", "abc123"), 8, 9,
        StorageFaults::none())
        .expect("replay succeeds");
    assert_responses_identical(&first, &second);
}

#[test]
fn distinct_subjects_do_not_share_keys() {
    let mut s = storage_with_confirmed(&["sub@example.com"]);
    publish_newsletter_with_id(&mut s, SUBJECT, &form("Hello", "abc123"), 7, 0,
        StorageFaults::none())
        .expect("first subject");
    publish_newsletter_with_id(&mut s, 2, &form("Hello", "abc123"), 8, 0, StorageFaults::none())
        .expect("another subject may reuse the key");
    assert_eq!(s.issues.len(), 2);
}

#[test]
fn atomic_coupling_on_forced_failure() {
    // a forced failure between issue insertion and delivery-task
    // insertion leaves zero issue rows and zero task rows
    let mut s = storage_with_confirmed(&["sub@example.com"]);
    let faults = StorageFaults {
        fail_issue_insert: false,
        fail_task_enqueue: true,
        fail_response_save: false,
    };
    let r = publish_newsletter_with_id(&mut s, SUBJECT, &form("Hello", "abc123"), 7, 0, faults);
    assert_eq!(r.err(), Some(PublishError::Storage(StorageError::TransientFailure)));
    assert_eq!(s.issues.len(), 0);
    assert_eq!(s.delivery_queue.len(), 0);
    assert_eq!(s.sagas.len(), 0);

    // the rollback is total, so retrying with the same key succeeds
    publish_newsletter_with_id(&mut s, SUBJECT, &form("Hello", "abc123"), 7, 1,
        StorageFaults::none())
        .expect("retry after rollback");
    assert_eq!(s.issues.len(), 1);
    assert_eq!(s.delivery_queue.len(), 1);
}

#[test]
fn every_fault_point_rolls_back() {
    for pick in 0..3usize {
        let mut s = storage_with_confirmed(&["sub@example.com"]);
        let faults = StorageFaults {
            fail_issue_insert: pick == 0,
            fail_task_enqueue: pick == 1,
            fail_response_save: pick == 2,
        };
        let r = publish_newsletter_with_id(&mut s, SUBJECT, &form("Hello", "abc123"), 7, 0,
            faults);
        assert_eq!(r.err(), Some(PublishError::Storage(StorageError::TransientFailure)));
        assert_eq!(s.issues.len(), 0);
        assert_eq!(s.delivery_queue.len(), 0);
        assert_eq!(s.sagas.len(), 0);
    }
}

#[test]
fn snapshot_semantics() {
    let mut s = Storage::new();
    s.add_subscriber("early@example.com".to_owned(), SubscriberStatus::Confirmed)
        .expect("fresh email");
    s.add_subscriber("late@example.com".to_owned(), SubscriberStatus::PendingConfirmation)
        .expect("fresh email");
    publish_newsletter_with_id(&mut s, SUBJECT, &form("Hello", "abc123"), 7, 0,
        StorageFaults::none())
        .expect("publish succeeds");
    assert_eq!(s.delivery_queue.len(), 1);
    assert_eq!(s.delivery_queue[0].recipient_email, "early@example.com");

    // confirming after the commit adds no task for the published issue
    assert!(s.confirm_subscriber("late@example.com"));
    assert_eq!(s.delivery_queue.len(), 1);
    assert_eq!(s.delivery_queue[0].recipient_email, "early@example.com");

    // the next issue's snapshot sees the new confirmation
    publish_newsletter_with_id(&mut s, SUBJECT, &form("Hello again", "xyz789"), 8, 1,
        StorageFaults::none())
        .expect("second issue");
    assert_eq!(s.delivery_queue.len(), 3);
}

#[test]
fn newsletters_are_delivered_to_confirmed_subscribers() {
    let mut s = storage_with_confirmed(&["sub@example.com"]);
    publish_newsletter_with_id(&mut s, SUBJECT, &form("Newsletter Title", "abc123"), 7, 0,
        StorageFaults::none())
        .expect("publish succeeds");
    assert_eq!(s.delivery_queue.len(), 1);
    assert_eq!(s.delivery_queue[0].recipient_email, "sub@example.com");
    assert_eq!(s.delivery_queue[0].issue_id, s.issues[0].issue_id);
    assert_eq!(s.issues[0].title, "Newsletter Title");
    assert_eq!(s.issues[0].text_content, "Newsletter body as PLAIN TEXT");
    assert_eq!(s.issues[0].html_content, "<p>Newsletter body as HTML</p>");
}

#[test]
fn newsletters_are_not_delivered_to_unconfirmed_subscribers() {
    let mut s = Storage::new();
    s.add_subscriber("pending@example.com".to_owned(), SubscriberStatus::PendingConfirmation)
        .expect("fresh email");
    publish_newsletter_with_id(&mut s, SUBJECT, &form("Newsletter Title", "abc123"), 7, 0,
        StorageFaults::none())
        .expect("publish succeeds");
    assert_eq!(s.issues.len(), 1);
    assert_eq!(s.delivery_queue.len(), 0);
}

#[test]
fn invalid_key_is_a_client_error() {
    let mut s = storage_with_confirmed(&["sub@example.com"]);
    let r = publish_newsletter_with_id(&mut s, SUBJECT, &form("Newsletter!", ""), 7, 0,
        StorageFaults::none());
    let e = r.err().expect("empty key is rejected");
    assert_eq!(e.status_code(), 400);
    assert_eq!(s.issues.len(), 0);
    assert_eq!(s.sagas.len(), 0);
}

#[test]
fn storage_failure_is_a_server_error() {
    let mut s = storage_with_confirmed(&["sub@example.com"]);
    let faults = StorageFaults {
        fail_issue_insert: true,
        fail_task_enqueue: false,
        fail_response_save: false,
    };
    let e = publish_newsletter_with_id(&mut s, SUBJECT, &form("Hello", "abc123"), 7, 0, faults)
        .err()
        .expect("injected failure");
    assert_eq!(e.status_code(), 500);
}

#[test]
fn issue_id_collision_is_a_constraint_violation() {
    let mut s = storage_with_confirmed(&["sub@example.com"]);
    publish_newsletter_with_id(&mut s, SUBJECT, &form("Hello", "abc123"), 7, 0,
        StorageFaults::none())
        .expect("first issue");
    let r = publish_newsletter_with_id(&mut s, SUBJECT, &form("Other", "xyz789"), 7, 1,
        StorageFaults::none());
    assert_eq!(r.err(), Some(PublishError::Storage(StorageError::ConstraintViolation)));
    assert_eq!(s.issues.len(), 1);
    assert_eq!(s.sagas.len(), 1);
}

#[test]
fn publish_with_random_id_is_idempotent_too() {
    let mut s = storage_with_confirmed(&["sub@example.com"]);
    let first = publish_newsletter(&mut s, SUBJECT, &form("Hello", "abc123"), 0,
        StorageFaults::none())
        .expect("first call succeeds");
    assert_eq!(s.issues.len(), 1);
    let second = publish_newsletter(&mut s, SUBJECT, &form("Hello", "abc123"), 1,
        StorageFaults::none())
        .expect("replay succeeds");
    assert_eq!(s.issues.len(), 1);
    assert_eq!(s.delivery_queue.len(), 1);
    assert_responses_identical(&first, &second);
}
