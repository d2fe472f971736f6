//! The sprint entity: a time-boxed iteration scoped to one project.

use vstd::prelude::*;

use crate::util::Status;

verus! {

/// A sprint as read back from the grid.
#[derive(Debug, Clone, PartialEq)]
pub struct Sprint {
    pub id: String,
    pub project_id: String,
    pub epic_id: String,
    pub denomination: String,
    pub description: Option<String>,
    pub goal: String,
    pub owner: String,
    pub estimated_points: i64,
    pub status: Status,
    pub completed_at: i64,
    pub start_date: i64,
    pub end_date: i64,
    pub created_at: i64,
    pub updated_at: i64,
    pub row: String,
}

/// The fields a caller supplies to create a sprint.
#[derive(Debug, Clone, PartialEq)]
pub struct InsertSprint {
    pub project_id: String,
    pub epic_id: String,
    pub denomination: String,
    pub description: Option<String>,
    pub goal: String,
    pub owner: String,
    pub estimated_points: i64,
    pub status: Status,
    pub completed_at: i64,
    pub start_date: i64,
    pub end_date: i64,
    pub created_at: i64,
}

/// The mathematical shape of a sprint record.
pub ghost struct SprintView {
    pub id: Seq<char>,
    pub project_id: Seq<char>,
    pub epic_id: Seq<char>,
    pub denomination: Seq<char>,
    pub description: Option<Seq<char>>,
    pub goal: Seq<char>,
    pub owner: Seq<char>,
    pub estimated_points: int,
    pub status: Status,
    pub completed_at: int,
    pub start_date: int,
    pub end_date: int,
    pub created_at: int,
    pub updated_at: int,
    pub row: Seq<char>,
}

impl View for Sprint {
    type V = SprintView;

    open spec fn view(&self) -> SprintView {
        SprintView {
            id: self.id@,
            project_id: self.project_id@,
            epic_id: self.epic_id@,
            denomination: self.denomination@,
            description: match self.description {
                Some(ref d) => Some(d@),
                None => None,
            },
            goal: self.goal@,
            owner: self.owner@,
            estimated_points: self.estimated_points as int,
            status: self.status,
            completed_at: self.completed_at as int,
            start_date: self.start_date as int,
            end_date: self.end_date as int,
            created_at: self.created_at as int,
            updated_at: self.updated_at as int,
            row: self.row@,
        }
    }
}

} // verus!
