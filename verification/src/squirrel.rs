//! The capability set every secret store offers, and the shared error and
//! result types of the library.

use vstd::prelude::*;

verus! {

/// The unified error carried out of every operation: a human-readable message
/// describing what failed (a remote-service failure, a missing record, a
/// malformed record, or a local cryptographic failure).
#[derive(Debug)]
pub struct SquirrelError {
    pub message: String,
}

impl SquirrelError {
    /// Builds an error from a fixed message.
    pub fn new(message: &str) -> (r: SquirrelError)
        ensures
            r.message@ == message@,
    {
        SquirrelError { message: message.to_owned() }
    }
}

/// Outcome of a `put`: either the record was written, or the record already
/// existed and overwriting was not requested. Both are normal outcomes, not
/// errors.
#[derive(Clone, Copy, Debug, PartialEq, Eq, Structural)]
pub enum PutResult {
    Stored,
    DidNotOverwrite,
}

/// Outcome of a `delete`: either an existing record was removed, or there was
/// no record under the identifier. Both are normal outcomes, not errors.
#[derive(Clone, Copy, Debug, PartialEq, Eq, Structural)]
pub enum DeletionResult {
    Deleted,
    NotFound,
}

/// Outcome of idempotently provisioning a remote resource: it was created
/// now, or it was already there.
#[derive(Clone, Copy, Debug, PartialEq, Eq, Structural)]
pub enum CreateOutcome {
    Created,
    AlreadyExisted,
}

/// The capability set of a secret store: idempotent bootstrap of its
/// remote resources, and list/get/put/delete of secrets. One backend pair
/// implements it here; alternate backends can implement the same contract.
pub trait Squirrel {
    /// Provisions the remote resources idempotently; the summary names
    /// which were created and which already existed.
    fn setup(&mut self) -> Result<String, SquirrelError>;

    /// Every stored identifier, in no particular order.
    fn list(&self) -> Result<Vec<String>, SquirrelError>;

    /// The secret stored under `id`.
    fn get(&self, id: String) -> Result<Vec<u8>, SquirrelError>;

    /// Stores `value` under `id`; without `overwrite` an existing record
    /// is left untouched, as a normal outcome.
    fn put(&mut self, id: String, value: Vec<u8>, overwrite: bool) -> (r: Result<
        PutResult,
        SquirrelError,
    >)
        requires
            value@.len() + 16 <= usize::MAX,
    ;

    /// Deletes the record under `id`; a missing identifier is a normal
    /// outcome, not an error.
    fn delete(&mut self, id: String) -> Result<DeletionResult, SquirrelError>;
}

} // verus!
