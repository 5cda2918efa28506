//! Idempotent newsletter publishing with a transactional outbox.
//!
//! The heart of the crate is a command processor that executes a
//! side-effecting "publish newsletter issue" command at most once per
//! `(subject, idempotency key)` pair, answers every retry with the saved
//! response, and couples the domain write with the creation of delivery
//! tasks in one atomic commit.  The persisted state is modelled by
//! [`storage::Storage`]; every state transition is verified against a
//! mathematical transition function.

pub mod idempotency;
pub mod login;
pub mod response;
pub mod newsletter;
pub mod startup;
pub mod storage;
