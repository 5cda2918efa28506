//! The idempotency store: the key, the claim, and the commit.
//!
//! A key identifies one logical command instance, so that retries of the
//! same command are recognised as duplicates.  A key is accepted exactly
//! when it is non-empty, at most fifty characters long, and made of
//! characters that are safe as a natural storage key: ASCII alphanumerics
//! and the punctuation `-`, `_`, `.`, `~`.
//!
//! [`try_processing`] claims a `(subject, key)` pair or replays its saved
//! response; [`save_response`] completes the claim, committing the staged
//! domain writes and the response as one atomic unit.

use vstd::prelude::*;

use crate::response::{ResponseModel, SavedResponse};
use crate::storage::{
    DeliveryTask, IssueModel, NewsletterIssue, SagaModel, SagaRecord, Storage, StorageError,
    StorageModel, TaskModel,
};

verus! {

/// Longest accepted idempotency key, in characters.
pub const MAX_KEY_LENGTH: usize = 50;

/// Characters that may appear in an idempotency key: ASCII alphanumerics
/// and a small punctuation allowlist.
pub open spec fn allowed_key_char(c: char) -> bool {
    ||| 'a' <= c && c <= 'z'
    ||| 'A' <= c && c <= 'Z'
    ||| '0' <= c && c <= '9'
    ||| c == '-'
    ||| c == '_'
    ||| c == '.'
    ||| c == '~'
}

/// A character sequence is a well-formed idempotency key when it is
/// non-empty, within the length bound, and uses only allowed characters.
pub open spec fn valid_key(s: Seq<char>) -> bool {
    &&& 1 <= s.len() <= MAX_KEY_LENGTH
    &&& forall|i: int| 0 <= i < s.len() ==> allowed_key_char(#[trigger] s[i])
}

/// Why a raw idempotency key was rejected.
#[derive(Clone, Copy, Debug, PartialEq, Eq, Structural)]
pub enum ValidationError {
    /// The key was empty.
    EmptyKey,
    /// The key exceeded [`MAX_KEY_LENGTH`] characters.
    KeyTooLong,
    /// The key contained a character outside the allowlist.
    ForbiddenKeyCharacter,
}

/// The error that [`IdempotencyKey::parse`] reports for a rejected key:
/// emptiness is reported first, then excessive length, then a forbidden
/// character.
pub open spec fn expected_key_error(s: Seq<char>) -> ValidationError {
    if s.len() == 0 {
        ValidationError::EmptyKey
    } else if s.len() > MAX_KEY_LENGTH {
        ValidationError::KeyTooLong
    } else {
        ValidationError::ForbiddenKeyCharacter
    }
}

/// A validated idempotency key.  Values of this type can only be built by
/// [`IdempotencyKey::parse`], so every value satisfies [`valid_key`].
pub struct IdempotencyKey {
    key: String,
}

impl View for IdempotencyKey {
    type V = Seq<char>;

    closed spec fn view(&self) -> Seq<char> {
        self.key@
    }
}

impl IdempotencyKey {
    /// Validates a raw token.  Accepts exactly the well-formed keys, and
    /// reports the first failing check for the rest.  Pure value
    /// construction: no side effects.
    pub fn parse(key: String) -> (r: Result<IdempotencyKey, ValidationError>)
        ensures
            r is Ok <==> valid_key(key@),
            r matches Ok(k) ==> k@ == key@,
            r matches Err(e) ==> e == expected_key_error(key@),
    {
        let len = key.as_str().unicode_len();
        if len == 0 {
            return Err(ValidationError::EmptyKey);
        }
        if len > MAX_KEY_LENGTH {
            return Err(ValidationError::KeyTooLong);
        }
        let mut i: usize = 0;
        while i < len
            invariant
                i <= len,
                len == key@.len(),
                1 <= len <= MAX_KEY_LENGTH,
                forall|j: int| 0 <= j < i ==> allowed_key_char(#[trigger] key@[j]),
            decreases len - i,
        {
            let c = key.as_str().get_char(i);
            let u = c as u32;
            let allowed = (97 <= u && u <= 122)  // 'a'..='z'
                || (65 <= u && u <= 90)  // 'A'..='Z'
                || (48 <= u && u <= 57)  // '0'..='9'
                || u == 45  // '-'
                || u == 95  // '_'
                || u == 46  // '.'
                || u == 126;  // '~'
            if !allowed {
                return Err(ValidationError::ForbiddenKeyCharacter);
            }
            i += 1;
        }
        Ok(IdempotencyKey { key })
    }

    /// The key's text.
    pub fn as_str(&self) -> (r: &str)
        ensures
            r@ == self@,
    {
        self.key.as_str()
    }
}

/// An open transaction: the mutual-exclusion placeholder for one
/// `(subject, key)` pair together with the staged domain writes.  Nothing
/// in it is durable: dropping the transaction rolls every staged write
/// back, and only [`save_response`] makes it durable, all at once.
///
/// This is the saga's placeholder state: the response is absent until the
/// command has executed, and the row becomes visible to the store in the
/// same commit that fills the response in.
pub struct Transaction {
    pub subject_id: u128,
    pub idempotency_key: String,
    pub staged_issues: Vec<NewsletterIssue>,
    pub staged_tasks: Vec<DeliveryTask>,
    pub response: Option<SavedResponse>,
}

/// Mathematical model of an open transaction.
#[verifier::ext_equal]
pub ghost struct TransactionModel {
    pub subject_id: u128,
    pub idempotency_key: Seq<char>,
    pub staged_issues: Seq<IssueModel>,
    pub staged_tasks: Seq<TaskModel>,
    pub response: Option<ResponseModel>,
}

impl View for Transaction {
    type V = TransactionModel;

    open spec fn view(&self) -> TransactionModel {
        TransactionModel {
            subject_id: self.subject_id,
            idempotency_key: self.idempotency_key@,
            staged_issues: crate::storage::issues_model(self.staged_issues@),
            staged_tasks: crate::storage::tasks_model(self.staged_tasks@),
            response: match self.response {
                Some(r) => Some(r@),
                None => None,
            },
        }
    }
}

impl TransactionModel {
    /// A staged issue with this id exists.
    pub open spec fn has_staged_issue(self, issue_id: u128) -> bool {
        exists|i: int|
            0 <= i < self.staged_issues.len() && (#[trigger] self.staged_issues[i]).issue_id
                == issue_id
    }
}

/// The placeholder transaction that a fresh claim opens: no staged
/// writes, no response yet.
pub open spec fn placeholder_model(subject_id: u128, key: Seq<char>) -> TransactionModel {
    TransactionModel {
        subject_id,
        idempotency_key: key,
        staged_issues: Seq::empty(),
        staged_tasks: Seq::empty(),
        response: None,
    }
}

/// The staged writes apply cleanly to this store: the `(subject, key)`
/// pair is still unclaimed, the staged issue ids are fresh and pairwise
/// distinct, and every staged task references a staged issue and has a
/// distinct `(issue, recipient)` pair.  [`try_processing`] and the outbox
/// writer establish and preserve this for the transactions they hand out.
pub open spec fn tx_fits(s: StorageModel, t: TransactionModel) -> bool {
    &&& !s.has_saga(t.subject_id, t.idempotency_key)
    &&& forall|i: int|
        0 <= i < t.staged_issues.len() ==> !s.has_issue(
            (#[trigger] t.staged_issues[i]).issue_id,
        )
    &&& forall|i: int, j: int|
        #![trigger t.staged_issues[i], t.staged_issues[j]]
        0 <= i < j < t.staged_issues.len() ==> t.staged_issues[i].issue_id
            != t.staged_issues[j].issue_id
    &&& forall|i: int|
        0 <= i < t.staged_tasks.len() ==> t.has_staged_issue(
            (#[trigger] t.staged_tasks[i]).issue_id,
        )
    &&& forall|i: int, j: int|
        #![trigger t.staged_tasks[i], t.staged_tasks[j]]
        0 <= i < j < t.staged_tasks.len() ==> !(t.staged_tasks[i].issue_id
            == t.staged_tasks[j].issue_id && t.staged_tasks[i].recipient_email
            == t.staged_tasks[j].recipient_email)
}

/// The store after committing a transaction with this response: the
/// completed saga row, the staged issues and the staged delivery tasks
/// become durable together; the subscriber directory is untouched.
pub open spec fn committed_model(
    s: StorageModel,
    t: TransactionModel,
    response: ResponseModel,
) -> StorageModel {
    StorageModel {
        sagas: s.sagas.push(
            SagaModel {
                subject_id: t.subject_id,
                idempotency_key: t.idempotency_key,
                response,
            },
        ),
        issues: s.issues + t.staged_issues,
        delivery_queue: s.delivery_queue + t.staged_tasks,
        subscribers: s.subscribers,
    }
}

/// A clean commit preserves the store's invariants.
pub proof fn lemma_commit_wf(s: StorageModel, t: TransactionModel, response: ResponseModel)
    requires
        s.wf(),
        tx_fits(s, t),
    ensures
        committed_model(s, t, response).wf(),
{
    let c = committed_model(s, t, response);
    let ni = s.issues.len() as int;
    let nt = s.delivery_queue.len() as int;
    assert forall|i: int, j: int|
        #![trigger c.sagas[i], c.sagas[j]]
        0 <= i < j < c.sagas.len() implies !(c.sagas[i].subject_id == c.sagas[j].subject_id
        && c.sagas[i].idempotency_key == c.sagas[j].idempotency_key) by {
        if j < s.sagas.len() {
            assert(c.sagas[i] == s.sagas[i] && c.sagas[j] == s.sagas[j]);
        } else {
            assert(c.sagas[i] == s.sagas[i]);
            // a matching old row would mean the pair was already claimed
            assert(c.sagas[j].subject_id == t.subject_id);
        }
    }
    assert forall|i: int, j: int|
        #![trigger c.issues[i], c.issues[j]]
        0 <= i < j < c.issues.len() implies c.issues[i].issue_id != c.issues[j].issue_id by {
        if j < ni {
            assert(c.issues[i] == s.issues[i] && c.issues[j] == s.issues[j]);
        } else if i < ni {
            assert(c.issues[i] == s.issues[i] && c.issues[j] == t.staged_issues[j - ni]);
            assert(!s.has_issue(t.staged_issues[j - ni].issue_id));
        } else {
            assert(c.issues[i] == t.staged_issues[i - ni]);
            assert(c.issues[j] == t.staged_issues[j - ni]);
        }
    }
    assert forall|i: int, j: int|
        #![trigger c.delivery_queue[i], c.delivery_queue[j]]
        0 <= i < j < c.delivery_queue.len() implies !(c.delivery_queue[i].issue_id
        == c.delivery_queue[j].issue_id && c.delivery_queue[i].recipient_email
        == c.delivery_queue[j].recipient_email) by {
        if j < nt {
            assert(c.delivery_queue[i] == s.delivery_queue[i] && c.delivery_queue[j]
                == s.delivery_queue[j]);
        } else if i < nt {
            // an old task references an old issue; a staged task references
            // a staged issue, whose id is fresh — the ids differ
            assert(c.delivery_queue[i] == s.delivery_queue[i] && c.delivery_queue[j]
                == t.staged_tasks[j - nt]);
            if c.delivery_queue[i].issue_id == c.delivery_queue[j].issue_id {
                assert(s.has_issue(s.delivery_queue[i].issue_id));
                let w = choose|w: int|
                    0 <= w < s.issues.len() && (#[trigger] s.issues[w]).issue_id
                        == s.delivery_queue[i].issue_id;
                let v = choose|v: int|
                    0 <= v < t.staged_issues.len() && (#[trigger] t.staged_issues[v]).issue_id
                        == t.staged_tasks[j - nt].issue_id;
                assert(!s.has_issue(t.staged_issues[v].issue_id));
                assert(false);
            }
        } else {
            assert(c.delivery_queue[i] == t.staged_tasks[i - nt] && c.delivery_queue[j]
                == t.staged_tasks[j - nt]);
        }
    }
    assert forall|i: int|
        0 <= i < c.delivery_queue.len() implies c.has_issue(
        (#[trigger] c.delivery_queue[i]).issue_id,
    ) by {
        if i < nt {
            assert(c.delivery_queue[i] == s.delivery_queue[i]);
            assert(s.has_issue(s.delivery_queue[i].issue_id));
            let w = choose|w: int|
                0 <= w < s.issues.len() && (#[trigger] s.issues[w]).issue_id
                    == s.delivery_queue[i].issue_id;
            assert(c.issues[w] == s.issues[w]);
        } else {
            assert(c.delivery_queue[i] == t.staged_tasks[i - nt]);
            let v = choose|v: int|
                0 <= v < t.staged_issues.len() && (#[trigger] t.staged_issues[v]).issue_id
                    == t.staged_tasks[i - nt].issue_id;
            assert(c.issues[ni + v] == t.staged_issues[v]);
        }
    }
}

/// What the store tells a claimant: either the claim succeeded and the
/// command must be processed inside the returned transaction, or the key
/// was already completed and the saved response must be returned verbatim.
///
/// A concurrent in-flight execution never surfaces here: the store blocks
/// on the row lock until that execution commits or rolls back, so the
/// serialised outcome is always one of these two.
pub enum NextAction {
    /// The claim succeeded; the caller holds the exclusive right to
    /// complete this `(subject, key)` pair.
    StartProcessing(Transaction),
    /// The pair was already completed; here is the canonical response.
    ReturnSavedResponse(SavedResponse),
}

/// Claims `(subject_id, key)` or replays its saved response.
///
/// On a fresh pair this opens the placeholder transaction — the lock that
/// gives the caller exclusive rights to complete the pair.  On a
/// completed pair it returns the saved response, reconstructed exactly.
pub fn try_processing(storage: &Storage, subject_id: u128, key: &IdempotencyKey) -> (r:
    NextAction)
    requires
        storage@.wf(),
    ensures
        match r {
            NextAction::StartProcessing(t) => !storage@.has_saga(subject_id, key@) && t@
                == placeholder_model(subject_id, key@),
            NextAction::ReturnSavedResponse(resp) => storage@.has_saga(subject_id, key@)
                && resp@ == storage@.saga_response(subject_id, key@),
        },
{
    let owned: String = key.as_str().to_owned();
    let n = storage.sagas.len();
    let mut i: usize = 0;
    while i < n
        invariant
            i <= n,
            storage@.wf(),
            n == storage.sagas@.len(),
            owned@ == key@,
            forall|j: int|
                0 <= j < i ==> !((#[trigger] storage.sagas@[j])@.subject_id == subject_id
                    && storage.sagas@[j]@.idempotency_key == key@),
        decreases n - i,
    {
        let rec = &storage.sagas[i];
        if rec.subject_id == subject_id && rec.idempotency_key == owned {
            proof {
                assert(storage@.sagas[i as int] == storage.sagas@[i as int]@);
                assert(storage@.has_saga(subject_id, key@));
                let j = choose|j: int|
                    0 <= j < storage@.sagas.len() && (#[trigger] storage@.sagas[j]).subject_id
                        == subject_id && storage@.sagas[j].idempotency_key == key@;
                assert(j == i as int);
                assert(storage@.saga_response(subject_id, key@) == storage@.sagas[i as int].response);
            }
            return NextAction::ReturnSavedResponse(rec.response.duplicate());
        }
        i += 1;
    }
    proof {
        assert forall|k: int| 0 <= k < storage@.sagas.len() implies !((
        #[trigger] storage@.sagas[k]).subject_id == subject_id
            && storage@.sagas[k].idempotency_key == key@) by {
            assert(storage@.sagas[k] == storage.sagas@[k]@);
        }
    }
    let t = Transaction {
        subject_id,
        idempotency_key: owned,
        staged_issues: Vec::new(),
        staged_tasks: Vec::new(),
        response: None,
    };
    proof {
        assert(t@ =~= placeholder_model(subject_id, key@));
    }
    NextAction::StartProcessing(t)
}

/// Completes the saga and commits.
///
/// Fills the placeholder's response fields and makes the whole
/// transaction durable at once: the completed saga row, the staged issues
/// and the staged delivery tasks become visible together.  This must be
/// the last transactional operation; a failure anywhere before this call
/// is handled by dropping the transaction, which rolls every staged write
/// back.  Returns the response it saved, so the caller can answer with
/// the exact bytes that every future replay will see.
pub fn save_response(
    storage: &mut Storage,
    transaction: Transaction,
    response: SavedResponse,
) -> (r: Result<SavedResponse, StorageError>)
    requires
        old(storage)@.wf(),
        tx_fits(old(storage)@, transaction@),
    ensures
        final(storage)@.wf(),
        final(storage)@ == committed_model(old(storage)@, transaction@, response@),
        r is Ok,
        r matches Ok(resp) ==> resp@ == response@,
{
    let saved = response.duplicate();
    let Transaction { subject_id, idempotency_key, mut staged_issues, mut staged_tasks, response: _ } =
        transaction;
    proof {
        lemma_commit_wf(old(storage)@, transaction@, response@);
    }
    storage.sagas.push(SagaRecord { subject_id, idempotency_key, response: saved });
    storage.issues.append(&mut staged_issues);
    storage.delivery_queue.append(&mut staged_tasks);
    proof {
        assert(storage@.sagas =~= committed_model(old(storage)@, transaction@, response@).sagas);
        assert(storage@.issues =~= committed_model(old(storage)@, transaction@, response@).issues);
        assert(storage@.delivery_queue =~= committed_model(
            old(storage)@,
            transaction@,
            response@,
        ).delivery_queue);
        assert(storage@ =~= committed_model(old(storage)@, transaction@, response@));
    }
    Ok(response)
}

} // verus!
