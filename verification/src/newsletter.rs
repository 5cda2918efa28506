//! Publishing a newsletter issue: the outbox writer and the idempotent
//! command processor.
//!
//! The processor claims the idempotency key or replays the saved
//! response; on a fresh claim it records the issue, enqueues one delivery
//! task per confirmed subscriber, and commits all of it together with the
//! response in one transaction.  Side effects are observable only on the
//! path that reaches [`crate::idempotency::save_response`]: every failure
//! before that rolls the whole transaction back.

use vstd::prelude::*;

use crate::idempotency::{
    committed_model, save_response, try_processing, tx_fits, IdempotencyKey, NextAction,
    Transaction, TransactionModel, ValidationError,
};
use crate::response::{see_other, see_other_model, ResponseModel, SavedResponse};
use crate::storage::{
    delivery_snapshot, lemma_delivery_snapshot_distinct, lemma_delivery_snapshot_props,
    lemma_saga_response_unique, seq_has_confirmed, DeliveryTask, IssueModel, NewsletterIssue,
    SagaModel, Storage, StorageError, StorageModel,
};

verus! {

/// The form a caller submits to publish an issue.
pub struct FormData {
    pub title: String,
    pub text_content: String,
    pub html_content: String,
    pub idempotency_key: String,
}

/// Mathematical model of a submitted form.
#[verifier::ext_equal]
pub ghost struct FormModel {
    pub title: Seq<char>,
    pub text_content: Seq<char>,
    pub html_content: Seq<char>,
    pub idempotency_key: Seq<char>,
}

impl View for FormData {
    type V = FormModel;

    open spec fn view(&self) -> FormModel {
        FormModel {
            title: self.title@,
            text_content: self.text_content@,
            html_content: self.html_content@,
            idempotency_key: self.idempotency_key@,
        }
    }
}

/// Transient storage failures to inject, one per storage write the
/// processor performs.  The real backend can fail at any of these points;
/// the processor is verified to roll back in full whichever one fails.
#[derive(Clone, Copy, Debug, PartialEq, Eq, Structural)]
pub struct StorageFaults {
    /// The issue insert fails.
    pub fail_issue_insert: bool,
    /// The delivery-task insert fails.
    pub fail_task_enqueue: bool,
    /// The response save (the commit) fails.
    pub fail_response_save: bool,
}

impl StorageFaults {
    /// A backend that does not fail.
    pub fn none() -> (r: StorageFaults)
        ensures
            r == (StorageFaults {
                fail_issue_insert: false,
                fail_task_enqueue: false,
                fail_response_save: false,
            }),
    {
        StorageFaults { fail_issue_insert: false, fail_task_enqueue: false, fail_response_save: false }
    }
}

/// Why a publish command failed.
#[derive(Clone, Copy, Debug, PartialEq, Eq, Structural)]
pub enum PublishError {
    /// The idempotency key failed validation; no storage was touched.
    InvalidKey(ValidationError),
    /// A storage write failed; the transaction was rolled back in full.
    Storage(StorageError),
}

impl PublishError {
    /// The HTTP status this failure surfaces as: a client error for a
    /// rejected key, a server error for a storage failure.
    pub fn status_code(&self) -> (r: u16)
        ensures
            self is InvalidKey ==> r == 400,
            self is Storage ==> r == 500,
    {
        match self {
            PublishError::InvalidKey(_) => 400,
            PublishError::Storage(_) => 500,
        }
    }
}

/// Records the newsletter issue inside the open transaction.
///
/// Stages the issue row; nothing is durable until the transaction
/// commits.  Fails with a constraint violation, leaving the transaction
/// unchanged, exactly when the id is already taken by a committed or a
/// staged issue.
pub fn insert_newsletter_issue(
    transaction: &mut Transaction,
    storage: &Storage,
    issue_id: u128,
    title: &str,
    text_content: &str,
    html_content: &str,
    published_at: u64,
) -> (r: Result<(), StorageError>)
    ensures
        r is Ok <==> !storage@.has_issue(issue_id) && !old(transaction)@.has_staged_issue(
            issue_id,
        ),
        r is Ok ==> final(transaction)@ == (TransactionModel {
            staged_issues: old(transaction)@.staged_issues.push(
                IssueModel {
                    issue_id,
                    title: title@,
                    text_content: text_content@,
                    html_content: html_content@,
                    published_at,
                },
            ),
            ..old(transaction)@
        }),
        r is Err ==> *final(transaction) == *old(transaction) && r == Err::<(), StorageError>(
            StorageError::ConstraintViolation,
        ),
{
    let mut i: usize = 0;
    let n = storage.issues.len();
    while i < n
        invariant
            i <= n,
            *transaction == *old(transaction),
            n == storage.issues@.len(),
            forall|j: int| 0 <= j < i ==> (#[trigger] storage.issues@[j])@.issue_id != issue_id,
        decreases n - i,
    {
        if storage.issues[i].issue_id == issue_id {
            proof {
                assert(storage@.issues[i as int] == storage.issues@[i as int]@);
            }
            return Err(StorageError::ConstraintViolation);
        }
        i += 1;
    }
    proof {
        assert forall|k: int| 0 <= k < storage@.issues.len() implies (
        #[trigger] storage@.issues[k]).issue_id != issue_id by {
            assert(storage@.issues[k] == storage.issues@[k]@);
        }
    }
    let mut i: usize = 0;
    let m = transaction.staged_issues.len();
    while i < m
        invariant
            i <= m,
            *transaction == *old(transaction),
            m == transaction.staged_issues@.len(),
            forall|j: int|
                0 <= j < i ==> (#[trigger] transaction.staged_issues@[j])@.issue_id != issue_id,
        decreases m - i,
    {
        if transaction.staged_issues[i].issue_id == issue_id {
            proof {
                assert(transaction@.staged_issues[i as int] == transaction.staged_issues@[
                    i as int]@);
            }
            return Err(StorageError::ConstraintViolation);
        }
        i += 1;
    }
    proof {
        assert forall|k: int| 0 <= k < transaction@.staged_issues.len() implies (
        #[trigger] transaction@.staged_issues[k]).issue_id != issue_id by {
            assert(transaction@.staged_issues[k] == transaction.staged_issues@[k]@);
        }
    }
    let row = NewsletterIssue {
        issue_id,
        title: title.to_owned(),
        text_content: text_content.to_owned(),
        html_content: html_content.to_owned(),
        published_at,
    };
    proof {
        crate::storage::lemma_push_view_issues(transaction.staged_issues@, row);
    }
    transaction.staged_issues.push(row);
    proof {
        assert(final(transaction)@ =~= (TransactionModel {
            staged_issues: old(transaction)@.staged_issues.push(
                IssueModel {
                    issue_id,
                    title: title@,
                    text_content: text_content@,
                    html_content: html_content@,
                    published_at,
                },
            ),
            ..old(transaction)@
        }));
    }
    Ok(())
}

/// Enqueues the delivery tasks for a staged issue.
///
/// One set-based insert: one task per subscriber confirmed at the time of
/// this snapshot read, appended to the transaction's staged writes.
/// Subscribers confirmed after this read get no task for the issue.
/// Fails with a constraint violation, leaving the transaction unchanged,
/// exactly when the issue is not staged in this transaction.
pub fn enqueue_delivery_tasks(
    transaction: &mut Transaction,
    storage: &Storage,
    issue_id: u128,
) -> (r: Result<(), StorageError>)
    ensures
        r is Ok <==> old(transaction)@.has_staged_issue(issue_id),
        r is Ok ==> final(transaction)@ == (TransactionModel {
            staged_tasks: old(transaction)@.staged_tasks + delivery_snapshot(
                storage@.subscribers,
                issue_id,
            ),
            ..old(transaction)@
        }),
        r is Err ==> *final(transaction) == *old(transaction) && r == Err::<(), StorageError>(
            StorageError::ConstraintViolation,
        ),
{
    let mut found = false;
    let mut i: usize = 0;
    let m = transaction.staged_issues.len();
    while i < m
        invariant
            i <= m,
            *transaction == *old(transaction),
            m == transaction.staged_issues@.len(),
            found ==> transaction@.has_staged_issue(issue_id),
            !found ==> forall|j: int|
                0 <= j < i ==> (#[trigger] transaction.staged_issues@[j])@.issue_id != issue_id,
        decreases m - i,
    {
        if transaction.staged_issues[i].issue_id == issue_id {
            proof {
                assert(transaction@.staged_issues[i as int] == transaction.staged_issues@[
                    i as int]@);
            }
            found = true;
        }
        i += 1;
    }
    if !found {
        proof {
            assert forall|k: int| 0 <= k < transaction@.staged_issues.len() implies (
            #[trigger] transaction@.staged_issues[k]).issue_id != issue_id by {
                assert(transaction@.staged_issues[k] == transaction.staged_issues@[k]@);
            }
        }
        return Err(StorageError::ConstraintViolation);
    }
    let ghost subs = storage@.subscribers;
    let mut i: usize = 0;
    let n = storage.subscribers.len();
    while i < n
        invariant
            i <= n,
            n == storage.subscribers@.len(),
            subs == storage@.subscribers,
            transaction.subject_id == old(transaction).subject_id,
            transaction.idempotency_key == old(transaction).idempotency_key,
            transaction.staged_issues == old(transaction).staged_issues,
            transaction.response == old(transaction).response,
            crate::storage::tasks_model(transaction.staged_tasks@) =~= old(
                transaction,
            )@.staged_tasks + delivery_snapshot(subs.take(i as int), issue_id),
        decreases n - i,
    {
        let sub = &storage.subscribers[i];
        proof {
            assert(subs[i as int] == storage.subscribers@[i as int]@);
            assert(subs.take(i + 1 as int).drop_last() =~= subs.take(i as int));
            assert(subs.take(i + 1 as int).last() == subs[i as int]);
        }
        match sub.status {
            crate::storage::SubscriberStatus::Confirmed => {
                let task = DeliveryTask {
                    issue_id,
                    recipient_email: sub.email.clone(),
                };
                proof {
                    crate::storage::lemma_push_view_tasks(transaction.staged_tasks@, task);
                }
                transaction.staged_tasks.push(task);
            },
            crate::storage::SubscriberStatus::PendingConfirmation => {},
        }
        proof {
            assert(crate::storage::tasks_model(transaction.staged_tasks@) =~= old(
                transaction,
            )@.staged_tasks + delivery_snapshot(subs.take(i + 1 as int), issue_id));
        }
        i += 1;
    }
    proof {
        assert(subs.take(n as int) =~= subs);
        assert(final(transaction)@ =~= (TransactionModel {
            staged_tasks: old(transaction)@.staged_tasks + delivery_snapshot(
                storage@.subscribers,
                issue_id,
            ),
            ..old(transaction)@
        }));
    }
    Ok(())
}

/// The outcome a publish command's state machine ends in.
pub ghost enum PublishOutcome {
    /// The idempotency key failed validation; nothing was touched.
    Rejected(ValidationError),
    /// The pair was already completed: the saved response is returned
    /// verbatim, and no domain write happens.
    Replayed(ResponseModel),
    /// A storage write failed; the transaction rolled back in full.
    Failed(StorageError),
    /// The fresh claim executed: issue recorded, tasks enqueued, response
    /// saved — all committed together.
    Published(ResponseModel),
}

/// The redirect target acknowledged to the caller after a publish.
pub open spec fn success_location() -> Seq<char> {
    "/admin/newsletters"@
}

/// The state machine of one publish command, as a function from the
/// store, the command and the injected faults to the next store and the
/// outcome.  The processor is verified against this function, and the
/// library's laws are proved of it.
pub open spec fn publish_transition(
    s: StorageModel,
    subject_id: u128,
    form: FormModel,
    issue_id: u128,
    published_at: u64,
    faults: StorageFaults,
) -> (StorageModel, PublishOutcome) {
    if !crate::idempotency::valid_key(form.idempotency_key) {
        (s, PublishOutcome::Rejected(crate::idempotency::expected_key_error(form.idempotency_key)))
    } else if s.has_saga(subject_id, form.idempotency_key) {
        (s, PublishOutcome::Replayed(s.saga_response(subject_id, form.idempotency_key)))
    } else if faults.fail_issue_insert {
        (s, PublishOutcome::Failed(StorageError::TransientFailure))
    } else if s.has_issue(issue_id) {
        (s, PublishOutcome::Failed(StorageError::ConstraintViolation))
    } else if faults.fail_task_enqueue || faults.fail_response_save {
        (s, PublishOutcome::Failed(StorageError::TransientFailure))
    } else {
        let issue = IssueModel {
            issue_id,
            title: form.title,
            text_content: form.text_content,
            html_content: form.html_content,
            published_at,
        };
        let response = see_other_model(success_location());
        let committed = StorageModel {
            sagas: s.sagas.push(
                crate::storage::SagaModel {
                    subject_id,
                    idempotency_key: form.idempotency_key,
                    response,
                },
            ),
            issues: s.issues.push(issue),
            delivery_queue: s.delivery_queue + delivery_snapshot(s.subscribers, issue_id),
            subscribers: s.subscribers,
        };
        (committed, PublishOutcome::Published(response))
    }
}

/// The executable result agrees with the transition's outcome.
pub open spec fn outcome_matches(
    r: Result<SavedResponse, PublishError>,
    o: PublishOutcome,
) -> bool {
    match o {
        PublishOutcome::Rejected(ve) => r == Err::<SavedResponse, PublishError>(
            PublishError::InvalidKey(ve),
        ),
        PublishOutcome::Replayed(m) => r matches Ok(resp) && resp@ == m,
        PublishOutcome::Failed(se) => r == Err::<SavedResponse, PublishError>(
            PublishError::Storage(se),
        ),
        PublishOutcome::Published(m) => r matches Ok(resp) && resp@ == m,
    }
}

/// Publishes a newsletter issue under a caller-chosen issue id.
///
/// The full state machine: validate the key, claim or replay, record the
/// issue, enqueue the delivery tasks, save the response, commit.  The
/// store moves exactly as [`publish_transition`] says, and the result is
/// the transition's outcome; in particular every failure leaves the store
/// unchanged, and a replay performs no domain write.
pub fn publish_newsletter_with_id(
    storage: &mut Storage,
    subject_id: u128,
    form: &FormData,
    issue_id: u128,
    published_at: u64,
    faults: StorageFaults,
) -> (r: Result<SavedResponse, PublishError>)
    requires
        old(storage)@.wf(),
    ensures
        final(storage)@.wf(),
        final(storage)@ == publish_transition(
            old(storage)@,
            subject_id,
            form@,
            issue_id,
            published_at,
            faults,
        ).0,
        outcome_matches(
            r,
            publish_transition(
                old(storage)@,
                subject_id,
                form@,
                issue_id,
                published_at,
                faults,
            ).1,
        ),
{
    let key: IdempotencyKey = match IdempotencyKey::parse(form.idempotency_key.clone()) {
        Ok(k) => k,
        Err(e) => {
            return Err(PublishError::InvalidKey(e));
        },
    };
    let mut transaction: Transaction = match try_processing(storage, subject_id, &key) {
        NextAction::ReturnSavedResponse(resp) => {
            return Ok(resp);
        },
        NextAction::StartProcessing(t) => t,
    };
    if faults.fail_issue_insert {
        return Err(PublishError::Storage(StorageError::TransientFailure));
    }
    match insert_newsletter_issue(
        &mut transaction,
        storage,
        issue_id,
        form.title.as_str(),
        form.text_content.as_str(),
        form.html_content.as_str(),
        published_at,
    ) {
        Ok(()) => {},
        Err(e) => {
            proof {
                assert(old(storage)@.has_issue(issue_id));
            }
            return Err(PublishError::Storage(e));
        },
    }
    if faults.fail_task_enqueue {
        return Err(PublishError::Storage(StorageError::TransientFailure));
    }
    match enqueue_delivery_tasks(&mut transaction, storage, issue_id) {
        Ok(()) => {},
        Err(e) => {
            proof {
                // unreachable: the issue was staged by the insert above
                assert(transaction@.staged_issues[transaction@.staged_issues.len() - 1].issue_id
                    == issue_id);
                assert(transaction@.has_staged_issue(issue_id));
                assert(false);
            }
            return Err(PublishError::Storage(e));
        },
    }
    if faults.fail_response_save {
        return Err(PublishError::Storage(StorageError::TransientFailure));
    }
    let response = see_other("/admin/newsletters");
    proof {
        lemma_delivery_snapshot_props(old(storage)@.subscribers, issue_id);
        lemma_delivery_snapshot_distinct(old(storage)@.subscribers, issue_id);
        assert(tx_fits(old(storage)@, transaction@));
    }
    match save_response(storage, transaction, response) {
        Ok(resp) => {
            proof {
                assert(final(storage)@ =~= publish_transition(
                    old(storage)@,
                    subject_id,
                    form@,
                    issue_id,
                    published_at,
                    faults,
                ).0);
            }
            Ok(resp)
        },
        Err(e) => Err(PublishError::Storage(e)),
    }
}

/// Relies on `uuid::Uuid::new_v4` for a fresh random version-4 id, taken
/// as its 128-bit value.  Nothing is promised of the value: the processor
/// is verified for every id, and rejects one that collides.
#[verifier::external_body]
fn generate_issue_id() -> u128 {
    uuid::Uuid::new_v4().as_u128()
}

/// Publishes a newsletter issue, drawing a fresh random issue id.
///
/// Behaves as [`publish_newsletter_with_id`] for the drawn id: the store
/// moves by [`publish_transition`] for some id, and the result is that
/// transition's outcome.
pub fn publish_newsletter(
    storage: &mut Storage,
    subject_id: u128,
    form: &FormData,
    published_at: u64,
    faults: StorageFaults,
) -> (r: Result<SavedResponse, PublishError>)
    requires
        old(storage)@.wf(),
    ensures
        final(storage)@.wf(),
        exists|issue_id: u128|
            {
                let t = #[trigger] publish_transition(
                    old(storage)@,
                    subject_id,
                    form@,
                    issue_id,
                    published_at,
                    faults,
                );
                final(storage)@ == t.0 && outcome_matches(r, t.1)
            },
{
    let issue_id = generate_issue_id();
    let r = publish_newsletter_with_id(storage, subject_id, form, issue_id, published_at, faults);
    proof {
        let t = publish_transition(
            old(storage)@,
            subject_id,
            form@,
            issue_id,
            published_at,
            faults,
        );
        assert(final(storage)@ == t.0 && outcome_matches(r, t.1));
    }
    r
}

/// The response a transition's outcome carries, when it carries one.
pub open spec fn outcome_response(o: PublishOutcome) -> Option<ResponseModel> {
    match o {
        PublishOutcome::Replayed(m) => Some(m),
        PublishOutcome::Published(m) => Some(m),
        PublishOutcome::Rejected(_) => None,
        PublishOutcome::Failed(_) => None,
    }
}

/// Every publish transition preserves the store's invariants.
pub proof fn lemma_publish_preserves_wf(
    s: StorageModel,
    subject_id: u128,
    form: FormModel,
    issue_id: u128,
    published_at: u64,
    faults: StorageFaults,
)
    requires
        s.wf(),
    ensures
        publish_transition(s, subject_id, form, issue_id, published_at, faults).0.wf(),
{
    let key = form.idempotency_key;
    if crate::idempotency::valid_key(key) && !s.has_saga(subject_id, key)
        && !faults.fail_issue_insert && !s.has_issue(issue_id) && !faults.fail_task_enqueue
        && !faults.fail_response_save {
        let issue = IssueModel {
            issue_id,
            title: form.title,
            text_content: form.text_content,
            html_content: form.html_content,
            published_at,
        };
        let t = TransactionModel {
            subject_id,
            idempotency_key: key,
            staged_issues: seq![issue],
            staged_tasks: delivery_snapshot(s.subscribers, issue_id),
            response: None,
        };
        lemma_delivery_snapshot_props(s.subscribers, issue_id);
        lemma_delivery_snapshot_distinct(s.subscribers, issue_id);
        assert(t.has_staged_issue(issue_id)) by {
            assert(t.staged_issues[0].issue_id == issue_id);
        }
        assert(tx_fits(s, t));
        let response = see_other_model(success_location());
        crate::idempotency::lemma_commit_wf(s, t, response);
        assert(publish_transition(s, subject_id, form, issue_id, published_at, faults).0
            =~= committed_model(s, t, response));
    }
}

/// At-most-once effect.  Once a publish for a `(subject, key)` pair has
/// committed, re-issuing the command — with any issue id, any clock and
/// any injected faults — moves the store nowhere and is answered by
/// replay: there is never a second issue row or a second set of delivery
/// tasks for the pair.  Concurrent attempts are serialised by the store's
/// unique constraint and row lock, so every history of N identical
/// commands is a sequence of transitions, of which this shows only the
/// first can commit a domain write.
pub proof fn lemma_at_most_once(
    s: StorageModel,
    subject_id: u128,
    form: FormModel,
    id1: u128,
    id2: u128,
    time1: u64,
    time2: u64,
    faults1: StorageFaults,
    faults2: StorageFaults,
)
    requires
        s.wf(),
        publish_transition(s, subject_id, form, id1, time1, faults1).1 is Published,
    ensures
        ({
            let s1 = publish_transition(s, subject_id, form, id1, time1, faults1).0;
            let second = publish_transition(s1, subject_id, form, id2, time2, faults2);
            &&& s1.issues.len() == s.issues.len() + 1
            &&& s1.has_saga(subject_id, form.idempotency_key)
            &&& second.0 == s1
            &&& second.1 is Replayed
        }),
{
    let key = form.idempotency_key;
    let s1 = publish_transition(s, subject_id, form, id1, time1, faults1).0;
    let row = SagaModel {
        subject_id,
        idempotency_key: key,
        response: see_other_model(success_location()),
    };
    assert(s1.sagas[s.sagas.len() as int] == row);
    assert(s1.has_saga(subject_id, key));
}

/// One retry of an already-completed command: its issue id, its clock
/// reading and its injected faults.
pub ghost struct RetryModel {
    pub issue_id: u128,
    pub published_at: u64,
    pub faults: StorageFaults,
}

/// The store after a whole sequence of retries of one command has been
/// processed, one transition after the other.
pub open spec fn run_retries(
    s: StorageModel,
    subject_id: u128,
    form: FormModel,
    retries: Seq<RetryModel>,
) -> StorageModel
    decreases retries.len(),
{
    if retries.len() == 0 {
        s
    } else {
        run_retries(
            publish_transition(
                s,
                subject_id,
                form,
                retries[0].issue_id,
                retries[0].published_at,
                retries[0].faults,
            ).0,
            subject_id,
            form,
            retries.drop_first(),
        )
    }
}

/// At-most-once effect, for any number of retries: once the pair is
/// completed, every further sequence of identical commands — N of them,
/// with any ids, clocks and faults — leaves the store exactly where it
/// stands.  With [`lemma_at_most_once`] this gives the N-command case:
/// one execution, N-1 replays.
pub proof fn lemma_retries_are_stationary(
    s: StorageModel,
    subject_id: u128,
    form: FormModel,
    retries: Seq<RetryModel>,
)
    requires
        crate::idempotency::valid_key(form.idempotency_key),
        s.has_saga(subject_id, form.idempotency_key),
    ensures
        run_retries(s, subject_id, form, retries) == s,
    decreases retries.len(),
{
    if retries.len() > 0 {
        assert(publish_transition(
            s,
            subject_id,
            form,
            retries[0].issue_id,
            retries[0].published_at,
            retries[0].faults,
        ).0 == s);
        lemma_retries_are_stationary(s, subject_id, form, retries.drop_first());
    }
}

/// Replay fidelity.  After a first command for the pair has produced a
/// response — by executing or by replaying — re-issuing the same command
/// returns exactly that response: same status, same headers, same body
/// bytes.
pub proof fn lemma_replay_fidelity(
    s: StorageModel,
    subject_id: u128,
    form: FormModel,
    id1: u128,
    id2: u128,
    time1: u64,
    time2: u64,
    faults1: StorageFaults,
    faults2: StorageFaults,
)
    requires
        s.wf(),
        publish_transition(s, subject_id, form, id1, time1, faults1).1 is Published
            || publish_transition(s, subject_id, form, id1, time1, faults1).1 is Replayed,
    ensures
        ({
            let first = publish_transition(s, subject_id, form, id1, time1, faults1);
            let second = publish_transition(first.0, subject_id, form, id2, time2, faults2);
            &&& second.1 is Replayed
            &&& outcome_response(second.1) == outcome_response(first.1)
        }),
{
    let key = form.idempotency_key;
    let first = publish_transition(s, subject_id, form, id1, time1, faults1);
    if first.1 is Published {
        lemma_publish_preserves_wf(s, subject_id, form, id1, time1, faults1);
        let row = SagaModel {
            subject_id,
            idempotency_key: key,
            response: see_other_model(success_location()),
        };
        assert(first.0.sagas[s.sagas.len() as int] == row);
        lemma_saga_response_unique(first.0, subject_id, key, s.sagas.len() as int);
    }
}

/// Atomic coupling.  A forced failure between the issue insert and the
/// delivery-task insert rolls the whole transaction back: the store is
/// unchanged, and in particular a fresh issue id leaves behind neither an
/// issue row nor any delivery task — no orphan issue without tasks, no
/// tasks without their issue.
pub proof fn lemma_atomic_coupling(
    s: StorageModel,
    subject_id: u128,
    form: FormModel,
    issue_id: u128,
    published_at: u64,
    faults: StorageFaults,
)
    requires
        s.wf(),
        faults.fail_task_enqueue,
    ensures
        publish_transition(s, subject_id, form, issue_id, published_at, faults).0 == s,
        !s.has_issue(issue_id) ==> !publish_transition(
            s,
            subject_id,
            form,
            issue_id,
            published_at,
            faults,
        ).0.has_issue(issue_id),
        !s.has_issue(issue_id) ==> forall|k: int|
            0 <= k < publish_transition(
                s,
                subject_id,
                form,
                issue_id,
                published_at,
                faults,
            ).0.delivery_queue.len() ==> (#[trigger] publish_transition(
                s,
                subject_id,
                form,
                issue_id,
                published_at,
                faults,
            ).0.delivery_queue[k]).issue_id != issue_id,
    {
    if !s.has_issue(issue_id) {
        assert forall|k: int| 0 <= k < s.delivery_queue.len() implies (
        #[trigger] s.delivery_queue[k]).issue_id != issue_id by {
            assert(s.has_issue(s.delivery_queue[k].issue_id));
        }
    }
}

/// Snapshot semantics.  A subscriber who is not confirmed when the
/// command executes receives no delivery task for the issue it publishes
/// — and since later confirmations touch only the subscriber directory
/// (see [`crate::storage::Storage::confirm_subscriber`]), confirming
/// afterwards never adds a task for an already-published issue.
pub proof fn lemma_snapshot_semantics(
    s: StorageModel,
    subject_id: u128,
    form: FormModel,
    issue_id: u128,
    published_at: u64,
    faults: StorageFaults,
    email: Seq<char>,
)
    requires
        s.wf(),
        publish_transition(s, subject_id, form, issue_id, published_at, faults).1 is Published,
        !seq_has_confirmed(s.subscribers, email),
    ensures
        !publish_transition(
            s,
            subject_id,
            form,
            issue_id,
            published_at,
            faults,
        ).0.has_task(issue_id, email),
{
    let s1 = publish_transition(s, subject_id, form, issue_id, published_at, faults).0;
    let snap = delivery_snapshot(s.subscribers, issue_id);
    let nt = s.delivery_queue.len() as int;
    lemma_delivery_snapshot_props(s.subscribers, issue_id);
    assert forall|k: int| 0 <= k < s1.delivery_queue.len() implies !((
    #[trigger] s1.delivery_queue[k]).issue_id == issue_id && s1.delivery_queue[k].recipient_email
        == email) by {
        if k < nt {
            // an existing task references an existing issue; this id is fresh
            assert(s1.delivery_queue[k] == s.delivery_queue[k]);
            assert(s.has_issue(s.delivery_queue[k].issue_id));
        } else {
            // a snapshot task goes to a subscriber confirmed at snapshot time
            assert(s1.delivery_queue[k] == snap[k - nt]);
            assert(seq_has_confirmed(s.subscribers, snap[k - nt].recipient_email));
        }
    }
}

} // verus!
