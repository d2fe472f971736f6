//! The envelope wrapped around successful and failed reads.

use vstd::prelude::*;

verus! {

/// A response envelope: a human-readable message, the records read (if any),
/// and the underlying error texts (if any).
#[derive(Debug)]
pub struct Response<T> {
    pub message: &'static str,
    pub content: Option<Vec<T>>,
    pub error_bug: Option<Vec<String>>,
}

} // verus!
