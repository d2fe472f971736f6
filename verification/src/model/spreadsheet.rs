//! Payloads that address cells and ranges of the backing grid, and the write
//! orders the record stores hand back to the caller.

use vstd::prelude::*;

verus! {

/// A cell range to clear, as a pair of corner cell addresses.
#[derive(Debug)]
pub struct DataRange {
    pub range: (String, String),
}

/// A cell range to clear, with an optional index into a packed list held in
/// the addressed cell.
#[derive(Debug)]
pub struct SpecificDataRange {
    pub range: (String, String),
    pub index: Option<i64>,
}

/// A whole-cell overwrite: write `content` at `cell`.
#[derive(Debug, Clone, PartialEq)]
pub struct Patch {
    pub content: String,
    pub cell: String,
}

/// A cell overwrite with an optional index into a packed list held in the
/// addressed cell.
#[derive(Debug, Clone, PartialEq)]
pub struct SpecificPatch {
    pub content: String,
    pub cell: String,
    pub index: Option<usize>,
}

/// A sheet named by a provisioning request.
#[derive(Debug, Clone, PartialEq)]
pub struct SheetName {
    pub sheet_name: String,
}

/// One row write against the grid: the range to address and the cell values
/// to put there, in column order.
#[derive(Debug, Clone, PartialEq)]
pub struct RowWrite {
    pub range: String,
    pub values: Vec<String>,
}

} // verus!
