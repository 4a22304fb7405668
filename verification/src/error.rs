//! The closed error taxonomy of the storage layer.

use vstd::prelude::*;
use vstd::string::StringExecFns;

verus! {

/// What a repository operation can fail with.  Every error is converted to a
/// presentation string only at the outermost boundary, so callers can still
/// branch on the kind.
#[derive(Debug, Clone, PartialEq)]
pub enum StoreError {
    /// A read, update or delete referenced a rowid that no row has.
    NotFound,
    /// A write broke a uniqueness or foreign-key rule of the schema.
    Constraint(String),
    /// The storage engine failed for another reason (an I/O fault, a missing
    /// table, a busy handle).
    Storage(String),
    /// The exclusive storage handle could not be acquired.
    Unavailable,
}

impl StoreError {
    /// The human-readable message handed to the caller at the boundary.
    pub fn message(&self) -> String {
        match self {
            StoreError::NotFound => String::from_str("no row matches the requested id"),
            StoreError::Constraint(m) => m.clone(),
            StoreError::Storage(m) => m.clone(),
            StoreError::Unavailable => String::from_str("the storage handle is unavailable"),
        }
    }
}

} // verus!
