//! The project entity: the top-level record every other entity is scoped to.

use vstd::prelude::*;

use crate::util::Status;

verus! {

/// The fields a caller supplies to create a project.
#[derive(Debug, Clone, PartialEq)]
pub struct InsertProjectData {
    pub denomination: String,
    pub description: String,
    pub owner: String,
    pub status: Status,
    pub created_at: i64,
}

/// A project as read back from the grid.
#[derive(Debug, Clone, PartialEq)]
pub struct Project {
    pub id: String,
    pub denomination: String,
    pub description: String,
    pub owner: String,
    pub status: Status,
    pub created_at: i64,
    pub updated_at: i64,
    pub row: String,
}

/// A project rename payload.
#[derive(Debug, Clone, PartialEq)]
pub struct Denomination {
    pub denomination: String,
}

} // verus!
