//! The persisted state that the command processor works against.
//!
//! [`Storage`] models the durable tables: the idempotency sagas, the
//! newsletter issues, the delivery queue and the subscriber directory.
//! All coordination is pushed into the storage layer: concurrent attempts
//! on one `(subject, key)` are serialised by the store's unique constraint
//! and row lock, so the verified model is the serialised history of
//! committed transactions.  A saga row exists here only in its completed
//! form: the null-response placeholder lives inside a still-open
//! [`crate::idempotency::Transaction`] and becomes durable in the same
//! commit that fills its response fields.

use vstd::prelude::*;

use crate::response::{ResponseModel, SavedResponse};

verus! {

/// A storage-level failure.  Either kind rolls the surrounding
/// transaction back in full, so retrying with the same key is safe.
#[derive(Clone, Copy, Debug, PartialEq, Eq, Structural)]
pub enum StorageError {
    /// Connection loss, transaction timeout: transient, safely retryable.
    TransientFailure,
    /// A uniqueness or referential constraint was violated.
    ConstraintViolation,
}

/// A subscriber's confirmation status.
#[derive(Clone, Copy, Debug, PartialEq, Eq, Structural)]
pub enum SubscriberStatus {
    PendingConfirmation,
    Confirmed,
}

/// One row of the subscriber directory.
pub struct Subscriber {
    pub email: String,
    pub status: SubscriberStatus,
}

/// Mathematical model of a subscriber row.
#[verifier::ext_equal]
pub ghost struct SubscriberModel {
    pub email: Seq<char>,
    pub status: SubscriberStatus,
}

impl View for Subscriber {
    type V = SubscriberModel;

    open spec fn view(&self) -> SubscriberModel {
        SubscriberModel { email: self.email@, status: self.status }
    }
}

/// One newsletter issue; created once per successful command execution,
/// never mutated or deleted.
pub struct NewsletterIssue {
    pub issue_id: u128,
    pub title: String,
    pub text_content: String,
    pub html_content: String,
    pub published_at: u64,
}

/// Mathematical model of a newsletter issue row.
#[verifier::ext_equal]
pub ghost struct IssueModel {
    pub issue_id: u128,
    pub title: Seq<char>,
    pub text_content: Seq<char>,
    pub html_content: Seq<char>,
    pub published_at: u64,
}

impl View for NewsletterIssue {
    type V = IssueModel;

    open spec fn view(&self) -> IssueModel {
        IssueModel {
            issue_id: self.issue_id,
            title: self.title@,
            text_content: self.text_content@,
            html_content: self.html_content@,
            published_at: self.published_at,
        }
    }
}

/// One unit of deferred delivery work: send the referenced issue to the
/// recipient.  Consumed exclusively by the external delivery worker.
pub struct DeliveryTask {
    pub issue_id: u128,
    pub recipient_email: String,
}

/// Mathematical model of a delivery-queue row.
#[verifier::ext_equal]
pub ghost struct TaskModel {
    pub issue_id: u128,
    pub recipient_email: Seq<char>,
}

impl View for DeliveryTask {
    type V = TaskModel;

    open spec fn view(&self) -> TaskModel {
        TaskModel { issue_id: self.issue_id, recipient_email: self.recipient_email@ }
    }
}

/// One completed idempotency saga: the canonical response for a
/// `(subject, key)` pair.  Uniqueness of the pair is a hard invariant — it
/// is the store's concurrency-control mechanism.
pub struct SagaRecord {
    pub subject_id: u128,
    pub idempotency_key: String,
    pub response: SavedResponse,
}

/// Mathematical model of a saga row.
#[verifier::ext_equal]
pub ghost struct SagaModel {
    pub subject_id: u128,
    pub idempotency_key: Seq<char>,
    pub response: ResponseModel,
}

impl View for SagaRecord {
    type V = SagaModel;

    open spec fn view(&self) -> SagaModel {
        SagaModel {
            subject_id: self.subject_id,
            idempotency_key: self.idempotency_key@,
            response: self.response@,
        }
    }
}

/// The models of a saga table, in insertion order.
pub open spec fn sagas_model(v: Seq<SagaRecord>) -> Seq<SagaModel> {
    v.map_values(|r: SagaRecord| r@)
}

/// The models of an issue table, in insertion order.
pub open spec fn issues_model(v: Seq<NewsletterIssue>) -> Seq<IssueModel> {
    v.map_values(|r: NewsletterIssue| r@)
}

/// The models of a delivery queue, in insertion order.
pub open spec fn tasks_model(v: Seq<DeliveryTask>) -> Seq<TaskModel> {
    v.map_values(|r: DeliveryTask| r@)
}

/// The models of a subscriber directory, in insertion order.
pub open spec fn subscribers_model(v: Seq<Subscriber>) -> Seq<SubscriberModel> {
    v.map_values(|r: Subscriber| r@)
}

/// The durable state: idempotency sagas, newsletter issues, the delivery
/// queue, and the subscriber directory.
pub struct Storage {
    pub sagas: Vec<SagaRecord>,
    pub issues: Vec<NewsletterIssue>,
    pub delivery_queue: Vec<DeliveryTask>,
    pub subscribers: Vec<Subscriber>,
}

/// Mathematical model of the durable state.
#[verifier::ext_equal]
pub ghost struct StorageModel {
    pub sagas: Seq<SagaModel>,
    pub issues: Seq<IssueModel>,
    pub delivery_queue: Seq<TaskModel>,
    pub subscribers: Seq<SubscriberModel>,
}

impl View for Storage {
    type V = StorageModel;

    open spec fn view(&self) -> StorageModel {
        StorageModel {
            sagas: sagas_model(self.sagas@),
            issues: issues_model(self.issues@),
            delivery_queue: tasks_model(self.delivery_queue@),
            subscribers: subscribers_model(self.subscribers@),
        }
    }
}

impl StorageModel {
    /// The empty store.
    pub open spec fn empty() -> StorageModel {
        StorageModel {
            sagas: Seq::empty(),
            issues: Seq::empty(),
            delivery_queue: Seq::empty(),
            subscribers: Seq::empty(),
        }
    }

    /// A completed saga exists for this `(subject, key)` pair.
    pub open spec fn has_saga(self, subject_id: u128, key: Seq<char>) -> bool {
        exists|i: int|
            0 <= i < self.sagas.len() && (#[trigger] self.sagas[i]).subject_id == subject_id
                && self.sagas[i].idempotency_key == key
    }

    /// The canonical response saved for this `(subject, key)` pair.
    /// Meaningful when [`Self::has_saga`] holds; under [`Self::wf`] the
    /// matching row is unique.
    pub open spec fn saga_response(self, subject_id: u128, key: Seq<char>) -> ResponseModel {
        let i = choose|i: int|
            0 <= i < self.sagas.len() && (#[trigger] self.sagas[i]).subject_id == subject_id
                && self.sagas[i].idempotency_key == key;
        self.sagas[i].response
    }

    /// An issue row with this id exists.
    pub open spec fn has_issue(self, issue_id: u128) -> bool {
        exists|i: int|
            0 <= i < self.issues.len() && (#[trigger] self.issues[i]).issue_id == issue_id
    }

    /// A delivery task for this issue and recipient exists.
    pub open spec fn has_task(self, issue_id: u128, email: Seq<char>) -> bool {
        exists|i: int|
            0 <= i < self.delivery_queue.len() && (#[trigger] self.delivery_queue[i]).issue_id
                == issue_id && self.delivery_queue[i].recipient_email == email
    }

    /// A subscriber row with this email exists.
    pub open spec fn has_subscriber(self, email: Seq<char>) -> bool {
        exists|i: int|
            0 <= i < self.subscribers.len() && (#[trigger] self.subscribers[i]).email == email
    }

    /// A subscriber row with this email exists and is confirmed.
    pub open spec fn has_confirmed_subscriber(self, email: Seq<char>) -> bool {
        exists|i: int|
            0 <= i < self.subscribers.len() && (#[trigger] self.subscribers[i]).email == email
                && self.subscribers[i].status is Confirmed
    }

    /// The store's hard invariants: `(subject, key)` pairs are unique,
    /// issue ids are unique, `(issue, recipient)` pairs are unique, every
    /// delivery task references an existing issue, and subscriber emails
    /// are unique.
    pub open spec fn wf(self) -> bool {
        &&& forall|i: int, j: int|
            #![trigger self.sagas[i], self.sagas[j]]
            0 <= i < j < self.sagas.len() ==> !(self.sagas[i].subject_id
                == self.sagas[j].subject_id && self.sagas[i].idempotency_key
                == self.sagas[j].idempotency_key)
        &&& forall|i: int, j: int|
            #![trigger self.issues[i], self.issues[j]]
            0 <= i < j < self.issues.len() ==> self.issues[i].issue_id != self.issues[j].issue_id
        &&& forall|i: int, j: int|
            #![trigger self.delivery_queue[i], self.delivery_queue[j]]
            0 <= i < j < self.delivery_queue.len() ==> !(self.delivery_queue[i].issue_id
                == self.delivery_queue[j].issue_id && self.delivery_queue[i].recipient_email
                == self.delivery_queue[j].recipient_email)
        &&& forall|i: int|
            0 <= i < self.delivery_queue.len() ==> self.has_issue(
                (#[trigger] self.delivery_queue[i]).issue_id,
            )
        &&& forall|i: int, j: int|
            #![trigger self.subscribers[i], self.subscribers[j]]
            0 <= i < j < self.subscribers.len() ==> self.subscribers[i].email
                != self.subscribers[j].email
    }
}

impl Storage {
    /// A fresh, empty store.
    pub fn new() -> (r: Storage)
        ensures
            r@ =~= StorageModel::empty(),
            r@.wf(),
    {
        Storage {
            sagas: Vec::new(),
            issues: Vec::new(),
            delivery_queue: Vec::new(),
            subscribers: Vec::new(),
        }
    }

    /// Adds a subscriber row.  Fails with a constraint violation, leaving
    /// the store unchanged, exactly when the email is already present.
    pub fn add_subscriber(&mut self, email: String, status: SubscriberStatus) -> (r: Result<
        (),
        StorageError,
    >)
        requires
            old(self)@.wf(),
        ensures
            final(self)@.wf(),
            r is Ok <==> !old(self)@.has_subscriber(email@),
            r is Ok ==> final(self)@ =~= (StorageModel {
                subscribers: old(self)@.subscribers.push(
                    SubscriberModel { email: email@, status },
                ),
                ..old(self)@
            }),
            r is Err ==> final(self)@ == old(self)@ && r == Err::<(), StorageError>(
                StorageError::ConstraintViolation,
            ),
    {
        let mut i: usize = 0;
        let n = self.subscribers.len();
        while i < n
            invariant
                i <= n,
                *self == *old(self),
                old(self)@.wf(),
                n == self.subscribers@.len(),
                forall|j: int| 0 <= j < i ==> (#[trigger] self.subscribers@[j])@.email != email@,
            decreases n - i,
        {
            if self.subscribers[i].email == email {
                proof {
                    assert(self@.subscribers[i as int] == self.subscribers@[i as int]@);
                    assert(self@.has_subscriber(email@));
                }
                return Err(StorageError::ConstraintViolation);
            }
            i += 1;
        }
        proof {
            assert forall|k: int| 0 <= k < self@.subscribers.len() implies (
            #[trigger] self@.subscribers[k]).email != email@ by {
                assert(self@.subscribers[k] == self.subscribers@[k]@);
            }
            assert(!self@.has_subscriber(email@));
        }
        let pushed = Subscriber { email, status };
        proof {
            lemma_push_view_subscribers(self.subscribers@, pushed);
        }
        self.subscribers.push(pushed);
        Ok(())
    }

    /// Marks the subscriber with this email as confirmed.  Returns whether
    /// such a row existed.  Touches nothing but that subscriber row: the
    /// sagas, the issues and the delivery queue are untouched, so an issue
    /// already published keeps exactly the delivery tasks it had.
    pub fn confirm_subscriber(&mut self, email: &str) -> (found: bool)
        requires
            old(self)@.wf(),
        ensures
            final(self)@.wf(),
            found <==> old(self)@.has_subscriber(email@),
            final(self)@.sagas == old(self)@.sagas,
            final(self)@.issues == old(self)@.issues,
            final(self)@.delivery_queue == old(self)@.delivery_queue,
            final(self)@.subscribers.len() == old(self)@.subscribers.len(),
            forall|j: int|
                0 <= j < old(self)@.subscribers.len() && (#[trigger] old(
                    self,
                )@.subscribers[j]).email != email@ ==> final(self)@.subscribers[j] == old(
                    self,
                )@.subscribers[j],
            forall|j: int|
                0 <= j < old(self)@.subscribers.len() && (#[trigger] old(
                    self,
                )@.subscribers[j]).email == email@ ==> final(self)@.subscribers[j]
                    == (SubscriberModel { email: email@, status: SubscriberStatus::Confirmed }),
    {
        let owned: String = email.to_owned();
        let mut i: usize = 0;
        let n = self.subscribers.len();
        while i < n
            invariant
                i <= n,
                *self == *old(self),
                old(self)@.wf(),
                n == self.subscribers@.len(),
                owned@ == email@,
                forall|j: int| 0 <= j < i ==> (#[trigger] self.subscribers@[j])@.email != email@,
            decreases n - i,
        {
            if self.subscribers[i].email == owned {
                let replacement = Subscriber { email: owned, status: SubscriberStatus::Confirmed };
                proof {
                    assert(self@.subscribers[i as int] == self.subscribers@[i as int]@);
                    assert(self@.has_subscriber(email@));
                    lemma_update_view_subscribers(self.subscribers@, i as int, replacement);
                }
                self.subscribers[i] = replacement;
                proof {
                    assert(self@.subscribers =~= old(self)@.subscribers.update(
                        i as int,
                        SubscriberModel { email: email@, status: SubscriberStatus::Confirmed },
                    ));
                    assert forall|j: int|
                        0 <= j < old(self)@.subscribers.len() && (#[trigger] old(
                        self,
                        )@.subscribers[j]).email != email@ implies self@.subscribers[j] == old(
                        self,
                    )@.subscribers[j] by {
                        assert(old(self)@.subscribers[j] == old(self).subscribers@[j]@);
                    }
                    assert(old(self)@.subscribers[i as int].email == email@);
                    assert forall|j: int|
                        0 <= j < old(self)@.subscribers.len() && (#[trigger] old(
                        self,
                        )@.subscribers[j]).email == email@ implies self@.subscribers[j]
                        == (SubscriberModel {
                        email: email@,
                        status: SubscriberStatus::Confirmed,
                    }) by {
                        // distinct rows with this email would contradict wf
                        assert(old(self)@.subscribers[j].email == email@);
                        assert(old(self)@.subscribers[i as int].email == email@);
                        assert(j == i as int);
                    }
                    assert forall|k: int, l: int|
                        #![trigger self@.subscribers[k], self@.subscribers[l]]
                        0 <= k < l < self@.subscribers.len() implies self@.subscribers[k].email
                        != self@.subscribers[l].email by {
                        assert(self@.subscribers[k].email == old(self)@.subscribers[k].email);
                        assert(self@.subscribers[l].email == old(self)@.subscribers[l].email);
                    }
                    assert(self@.sagas == old(self)@.sagas);
                    assert(self@.issues == old(self)@.issues);
                    assert(self@.delivery_queue == old(self)@.delivery_queue);
                    assert forall|k: int|
                        0 <= k < self@.delivery_queue.len() implies self@.has_issue(
                        (#[trigger] self@.delivery_queue[k]).issue_id,
                    ) by {
                        assert(old(self)@.has_issue(old(self)@.delivery_queue[k].issue_id));
                        let w = choose|w: int|
                            0 <= w < old(self)@.issues.len() && (#[trigger] old(
                            self,
                            )@.issues[w]).issue_id == old(self)@.delivery_queue[k].issue_id;
                        assert(self@.issues[w].issue_id == self@.delivery_queue[k].issue_id);
                    }
                    assert(self@.wf());
                }
                return true;
            }
            i += 1;
        }
        proof {
            assert forall|k: int| 0 <= k < self@.subscribers.len() implies (
            #[trigger] self@.subscribers[k]).email != email@ by {
                assert(self@.subscribers[k] == self.subscribers@[k]@);
            }
        }
        false
    }
}

/// The delivery tasks created for an issue: one per subscriber whose
/// status is `Confirmed` at the time of the snapshot read, in directory
/// order.  Subscribers confirmed later are not in the snapshot.
pub open spec fn delivery_snapshot(subs: Seq<SubscriberModel>, issue_id: u128) -> Seq<TaskModel>
    decreases subs.len(),
{
    if subs.len() == 0 {
        Seq::empty()
    } else {
        let rest = delivery_snapshot(subs.drop_last(), issue_id);
        if subs.last().status is Confirmed {
            rest.push(TaskModel { issue_id, recipient_email: subs.last().email })
        } else {
            rest
        }
    }
}

/// Under the store's invariants, the saved response for a pair is the
/// response of any row that matches it.
pub proof fn lemma_saga_response_unique(s: StorageModel, subject_id: u128, key: Seq<char>, i: int)
    requires
        s.wf(),
        0 <= i < s.sagas.len(),
        s.sagas[i].subject_id == subject_id,
        s.sagas[i].idempotency_key == key,
    ensures
        s.has_saga(subject_id, key),
        s.saga_response(subject_id, key) == s.sagas[i].response,
{
    assert(s.has_saga(subject_id, key));
    let j = choose|j: int|
        0 <= j < s.sagas.len() && (#[trigger] s.sagas[j]).subject_id == subject_id
            && s.sagas[j].idempotency_key == key;
    assert(j == i);
}

/// Some subscriber row with this email is confirmed.
pub open spec fn seq_has_confirmed(subs: Seq<SubscriberModel>, email: Seq<char>) -> bool {
    exists|i: int|
        0 <= i < subs.len() && (#[trigger] subs[i]).email == email && subs[i].status is Confirmed
}

/// What the snapshot contains: every task is for the given issue, every
/// recipient is a subscriber confirmed at snapshot time, and every
/// confirmed subscriber receives a task.
pub proof fn lemma_delivery_snapshot_props(subs: Seq<SubscriberModel>, issue_id: u128)
    ensures
        forall|k: int|
            0 <= k < delivery_snapshot(subs, issue_id).len() ==> (#[trigger] delivery_snapshot(
                subs,
                issue_id,
            )[k]).issue_id == issue_id,
        forall|k: int|
            0 <= k < delivery_snapshot(subs, issue_id).len() ==> seq_has_confirmed(
                subs,
                (#[trigger] delivery_snapshot(subs, issue_id)[k]).recipient_email,
            ),
        forall|i: int|
            0 <= i < subs.len() && (#[trigger] subs[i]).status is Confirmed
                ==> delivery_snapshot(subs, issue_id).contains(
                TaskModel { issue_id, recipient_email: subs[i].email },
            ),
    decreases subs.len(),
{
    if subs.len() > 0 {
        lemma_delivery_snapshot_props(subs.drop_last(), issue_id);
        let prev = delivery_snapshot(subs.drop_last(), issue_id);
        let snap = delivery_snapshot(subs, issue_id);
        let last = subs.len() - 1;
        assert forall|k: int| 0 <= k < snap.len() implies seq_has_confirmed(
            subs,
            (#[trigger] snap[k]).recipient_email,
        ) by {
            if k < prev.len() {
                assert(prev[k] == snap[k]);
                let i = choose|i: int|
                    0 <= i < subs.drop_last().len() && (#[trigger] subs.drop_last()[i]).email
                        == prev[k].recipient_email && subs.drop_last()[i].status is Confirmed;
                assert(subs[i].email == snap[k].recipient_email
                    && subs[i].status is Confirmed);
            } else {
                assert(subs[last].email == snap[k].recipient_email
                    && subs[last].status is Confirmed);
            }
        }
        assert forall|i: int|
            0 <= i < subs.len() && (#[trigger] subs[i]).status is Confirmed implies snap.contains(
            TaskModel { issue_id, recipient_email: subs[i].email },
        ) by {
            let t = TaskModel { issue_id, recipient_email: subs[i].email };
            if i < last {
                assert(subs.drop_last()[i].status is Confirmed);
                assert(prev.contains(t));
                let k = choose|k: int| 0 <= k < prev.len() && prev[k] == t;
                assert(snap[k] == t);
            } else {
                assert(snap[snap.len() - 1] == t);
            }
        }
    }
}

/// When subscriber emails are unique, the snapshot's recipients are
/// pairwise distinct.
pub proof fn lemma_delivery_snapshot_distinct(subs: Seq<SubscriberModel>, issue_id: u128)
    requires
        forall|i: int, j: int|
            #![trigger subs[i], subs[j]]
            0 <= i < j < subs.len() ==> subs[i].email != subs[j].email,
    ensures
        forall|k: int, l: int|
            #![trigger delivery_snapshot(subs, issue_id)[k], delivery_snapshot(subs, issue_id)[l]]
            0 <= k < l < delivery_snapshot(subs, issue_id).len() ==> delivery_snapshot(
                subs,
                issue_id,
            )[k].recipient_email != delivery_snapshot(subs, issue_id)[l].recipient_email,
    decreases subs.len(),
{
    if subs.len() > 0 {
        lemma_delivery_snapshot_distinct(subs.drop_last(), issue_id);
        lemma_delivery_snapshot_props(subs.drop_last(), issue_id);
        let prev = delivery_snapshot(subs.drop_last(), issue_id);
        let snap = delivery_snapshot(subs, issue_id);
        let last = subs.len() - 1;
        assert forall|k: int, l: int|
            #![trigger snap[k], snap[l]]
            0 <= k < l < snap.len() implies snap[k].recipient_email
            != snap[l].recipient_email by {
            if l < prev.len() {
                assert(prev[k].recipient_email != prev[l].recipient_email);
            } else {
                // `l` names the task pushed for the last subscriber; each
                // earlier recipient is an earlier subscriber's email, which
                // differs from the last subscriber's email.
                assert(prev[k] == snap[k]);
                assert(seq_has_confirmed(subs.drop_last(), prev[k].recipient_email));
                let i = choose|i: int|
                    0 <= i < subs.drop_last().len() && (#[trigger] subs.drop_last()[i]).email
                        == prev[k].recipient_email && subs.drop_last()[i].status is Confirmed;
                assert(subs[i].email != subs[last].email);
            }
        }
    }
}

/// Pushing a row and then taking models appends the row's model.
proof fn lemma_push_view_subscribers(v: Seq<Subscriber>, x: Subscriber)
    ensures
        subscribers_model(v.push(x)) =~= subscribers_model(v).push(x@),
{
}

/// Pushing an issue row and then taking models appends the row's model.
pub(crate) proof fn lemma_push_view_issues(v: Seq<NewsletterIssue>, x: NewsletterIssue)
    ensures
        issues_model(v.push(x)) =~= issues_model(v).push(x@),
{
}

/// Pushing a task row and then taking models appends the row's model.
pub(crate) proof fn lemma_push_view_tasks(v: Seq<DeliveryTask>, x: DeliveryTask)
    ensures
        tasks_model(v.push(x)) =~= tasks_model(v).push(x@),
{
}

/// Updating a row and then taking models updates the row's model.
proof fn lemma_update_view_subscribers(v: Seq<Subscriber>, i: int, x: Subscriber)
    requires
        0 <= i < v.len(),
    ensures
        subscribers_model(v.update(i, x)) =~= subscribers_model(v).update(i, x@),
{
}

} // verus!