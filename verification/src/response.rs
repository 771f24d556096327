//! HTTP status mapping.
//!
//! Each route turns the outcome of its database operations into a status
//! code: a malformed identifier is bad-request before any database work, a
//! missing document is not-found, a failed operation is internal-error, and
//! a deletion that matched nothing is not-found. These functions are the
//! exact mapping; the serving layer only performs the operations and hands
//! the outcomes in.

use vstd::prelude::*;
use crate::object_id::{oid_of, parse_object_id, valid_object_id_hex, ObjectId};

verus! {

pub const STATUS_OK: u16 = 200;

pub const STATUS_NO_CONTENT: u16 = 204;

pub const STATUS_BAD_REQUEST: u16 = 400;

pub const STATUS_NOT_FOUND: u16 = 404;

pub const STATUS_INTERNAL_ERROR: u16 = 500;

/// A failed database operation (network or server fault). It carries no
/// detail: every such fault maps to the same internal-error status.
pub struct DbError {}

/// Validate a path parameter before any database access: the identifier on
/// exactly the well-formed inputs, bad-request on every other.
pub fn parse_id_or_bad_request(raw: &[u8]) -> (r: Result<ObjectId, u16>)
    ensures
        match r {
            Ok(o) => valid_object_id_hex(raw@) && o == oid_of(raw@) && o.wf(),
            Err(code) => !valid_object_id_hex(raw@) && code == STATUS_BAD_REQUEST,
        },
{
    match parse_object_id(raw) {
        Some(o) => Ok(o),
        None => Err(STATUS_BAD_REQUEST),
    }
}

/// Map a single-document fetch to a response: the document on a hit,
/// not-found on a miss, internal-error on a failed operation.
pub fn fetch_response<T>(fetched: Result<Option<T>, DbError>) -> (r: Result<T, u16>)
    ensures
        match fetched {
            Ok(Some(v)) => r matches Ok(u) && u == v,
            Ok(None) => r matches Err(c) && c == STATUS_NOT_FOUND,
            Err(_) => r matches Err(c) && c == STATUS_INTERNAL_ERROR,
        },
{
    match fetched {
        Ok(Some(v)) => Ok(v),
        Ok(None) => Err(STATUS_NOT_FOUND),
        Err(_) => Err(STATUS_INTERNAL_ERROR),
    }
}

/// Map an insertion to its assigned identifier, or internal-error on a
/// failed operation.
pub fn insert_outcome(res: Result<ObjectId, DbError>) -> (r: Result<ObjectId, u16>)
    ensures
        match res {
            Ok(id) => r matches Ok(o) && o == id,
            Err(_) => r matches Err(c) && c == STATUS_INTERNAL_ERROR,
        },
{
    match res {
        Ok(id) => Ok(id),
        Err(_) => Err(STATUS_INTERNAL_ERROR),
    }
}

/// Map a deletion's matched count to a response: no-content when something
/// was deleted, not-found when nothing matched, internal-error on a failed
/// operation.
pub fn delete_response(res: Result<u64, DbError>) -> (r: Result<u16, u16>)
    ensures
        match res {
            Ok(n) => (if n == 0 {
                r matches Err(c) && c == STATUS_NOT_FOUND
            } else {
                r matches Ok(c) && c == STATUS_NO_CONTENT
            }),
            Err(_) => r matches Err(c) && c == STATUS_INTERNAL_ERROR,
        },
{
    match res {
        Ok(n) => if n == 0 {
            Err(STATUS_NOT_FOUND)
        } else {
            Ok(STATUS_NO_CONTENT)
        },
        Err(_) => Err(STATUS_INTERNAL_ERROR),
    }
}

/// Map a full listing to a response: the rows as they came (an empty
/// collection is an empty array, never an error), internal-error only on a
/// failed operation.
pub fn list_response<T>(res: Result<Vec<T>, DbError>) -> (r: Result<Vec<T>, u16>)
    ensures
        match res {
            Ok(v) => r matches Ok(w) && w == v,
            Err(_) => r matches Err(c) && c == STATUS_INTERNAL_ERROR,
        },
{
    match res {
        Ok(v) => Ok(v),
        Err(_) => Err(STATUS_INTERNAL_ERROR),
    }
}

} // verus!
