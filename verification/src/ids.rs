//! Identifier narrowing between the platform's unsigned 64-bit ids and
//! the signed 64-bit ids the persisted store uses.
//!
//! The platform hands out ids as `u64`; the store keeps them as `i64`.
//! A value that does not fit the target range is a schema mismatch: the
//! event that carried it cannot be processed, but the failure is surfaced
//! as an error rather than a panic.

use vstd::prelude::*;

verus! {

/// An unrecoverable fault while processing one event.
#[derive(Clone, Copy, Debug, PartialEq, Eq, Structural)]
pub enum EngineError {
    /// An externally supplied id does not fit the range the store or the
    /// platform requires.
    SchemaMismatch,
}

impl EngineError {
    /// A short description of the error, for callers that log or reply.
    pub fn describe(&self) -> (s: &'static str)
        ensures
            s@.len() > 0,
    {
        proof {
            reveal_strlit("id out of range for storage");
        }
        match self {
            EngineError::SchemaMismatch => "id out of range for storage",
        }
    }
}

/// Narrows a platform id to the signed form the store persists.
pub fn narrow_id(id: u64) -> (r: Result<i64, EngineError>)
    ensures
        id <= i64::MAX ==> r == Ok::<i64, EngineError>(id as i64),
        id > i64::MAX ==> r == Err::<i64, EngineError>(EngineError::SchemaMismatch),
{
    if id <= i64::MAX as u64 {
        Ok(id as i64)
    } else {
        Err(EngineError::SchemaMismatch)
    }
}

/// Widens a stored id back to the unsigned form the platform expects.
pub fn widen_id(id: i64) -> (r: Result<u64, EngineError>)
    ensures
        id >= 0 ==> r == Ok::<u64, EngineError>(id as u64),
        id < 0 ==> r == Err::<u64, EngineError>(EngineError::SchemaMismatch),
{
    if id >= 0 {
        Ok(id as u64)
    } else {
        Err(EngineError::SchemaMismatch)
    }
}

} // verus!
