//! The ways in which an operation of the store fails.

use vstd::prelude::*;

verus! {

/// Why an operation of the store did not take place.
#[derive(Clone, Copy, Debug, PartialEq, Eq, Structural)]
pub enum StoreError {
    /// No entity carries the id or name that was asked for.
    NotFound,
    /// An email, id, group or tag of that name exists already.
    DuplicateKey,
    /// Data that was read does not have the form it must have.
    Validation,
    /// The file system refused an operation.
    Io,
}

impl StoreError {
    /// A short text for the error, for messages to a user.
    pub fn message(&self) -> (r: String)
        ensures
            r@ == match *self {
                StoreError::NotFound => "not found"@,
                StoreError::DuplicateKey => "already exists"@,
                StoreError::Validation => "invalid data"@,
                StoreError::Io => "file system failure"@,
            },
    {
        match self {
            StoreError::NotFound => "not found".to_string(),
            StoreError::DuplicateKey => "already exists".to_string(),
            StoreError::Validation => "invalid data".to_string(),
            StoreError::Io => "file system failure".to_string(),
        }
    }
}

} // verus!
