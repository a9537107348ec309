//! The failures that an operation on the store can report.

use vstd::prelude::*;

use crate::uuid::Uuid;

verus! {

/// Why an operation did not succeed.
#[derive(Clone, Copy, Debug, PartialEq, Eq)]
pub enum RepoError {
    /// No record of the asked kind is stored under the identifier.
    NotFound(Uuid),
    /// A record is already stored under the identifier.
    AlreadyExists(Uuid),
    /// A text does not spell an identifier.
    InvalidIdentifier,
    /// A backend could not reach its storage. The store in memory never
    /// reports this.
    BackendFailure,
}

} // verus!
