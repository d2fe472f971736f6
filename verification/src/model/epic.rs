//! The epic entity: a large unit of work scoped to one project.

use vstd::prelude::*;

use crate::util::Status;

verus! {

/// The fields a caller supplies to create an epic.
#[derive(Debug, Clone, PartialEq)]
pub struct InsertEpicData {
    pub project_id: String,
    pub title: String,
    pub description: String,
    pub status: Status,
    pub owner: String,
    pub created_at: i64,
}

/// An epic as read back from the grid.  `row` is the range of the grid row
/// the record occupies, recomputed at read time; it is never stored.
#[derive(Debug, Clone, PartialEq)]
pub struct Epic {
    pub id: String,
    pub project_id: String,
    pub title: String,
    pub description: String,
    pub status: Status,
    pub owner: String,
    pub created_at: i64,
    pub updated_at: i64,
    pub row: String,
}

/// The mathematical shape of an epic record.
pub ghost struct EpicView {
    pub id: Seq<char>,
    pub project_id: Seq<char>,
    pub title: Seq<char>,
    pub description: Seq<char>,
    pub status: Status,
    pub owner: Seq<char>,
    pub created_at: int,
    pub updated_at: int,
    pub row: Seq<char>,
}

impl View for Epic {
    type V = EpicView;

    open spec fn view(&self) -> EpicView {
        EpicView {
            id: self.id@,
            project_id: self.project_id@,
            title: self.title@,
            description: self.description@,
            status: self.status,
            owner: self.owner@,
            created_at: self.created_at as int,
            updated_at: self.updated_at as int,
            row: self.row@,
        }
    }
}

} // verus!
