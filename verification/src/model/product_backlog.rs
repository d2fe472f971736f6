//! Product-backlog items: stories, bugs and tasks scoped to one project.

use vstd::prelude::*;

use crate::text::str_eq;

verus! {

/// Which kind of backlog item a record is.
#[derive(Debug, Clone, Copy, PartialEq, Eq, Structural)]
pub enum ItemType {
    Story,
    Bug,
    Task,
}

impl ItemType {
    /// The exact tag text this kind is stored as.
    pub open spec fn spec_text(self) -> Seq<char> {
        match self {
            ItemType::Story => "Story"@,
            ItemType::Bug => "Bug"@,
            ItemType::Task => "Task"@,
        }
    }

    /// The kind a stored tag text denotes, if any.
    pub open spec fn spec_of_text(s: Seq<char>) -> Option<ItemType> {
        if s == "Story"@ {
            Some(ItemType::Story)
        } else if s == "Bug"@ {
            Some(ItemType::Bug)
        } else if s == "Task"@ {
            Some(ItemType::Task)
        } else {
            None
        }
    }

    /// Renders the tag text, as the grid stores it.
    pub fn text(&self) -> (r: &'static str)
        ensures
            r@ == self.spec_text(),
    {
        match self {
            ItemType::Story => "Story",
            ItemType::Bug => "Bug",
            ItemType::Task => "Task",
        }
    }

    /// Parses a stored tag text; unknown tags are rejected.
    pub fn from_str(input: &str) -> (r: Result<ItemType, ()>)
        ensures
            r is Ok <==> ItemType::spec_of_text(input@) is Some,
            r is Ok ==> ItemType::spec_of_text(input@) == Some(r->Ok_0),
    {
        if str_eq(input, "Story") {
            Ok(ItemType::Story)
        } else if str_eq(input, "Bug") {
            Ok(ItemType::Bug)
        } else if str_eq(input, "Task") {
            Ok(ItemType::Task)
        } else {
            Err(())
        }
    }
}

/// A backlog item as read back from the grid.
#[derive(Debug, Clone, PartialEq)]
pub struct ProductBacklogItem {
    pub id: String,
    pub project_id: String,
    pub epic_id: String,
    pub title: String,
    pub priority: String,
    pub description: Option<String>,
    pub points: Option<i64>,
    pub kind: ItemType,
    pub assigned_at: i64,
    pub created_at: i64,
    pub updated_at: i64,
    pub row: String,
}

/// The fields a caller supplies to create a backlog item.
#[derive(Debug, Clone, PartialEq)]
pub struct InsertProductBacklogItem {
    pub project_id: String,
    pub epic_id: String,
    pub title: String,
    pub priority: String,
    pub description: Option<String>,
    pub points: Option<i64>,
    pub kind: ItemType,
    pub assigned_at: i64,
    pub created_at: i64,
}

/// The mathematical shape of a backlog-item record.
pub ghost struct ProductBacklogItemView {
    pub id: Seq<char>,
    pub project_id: Seq<char>,
    pub epic_id: Seq<char>,
    pub title: Seq<char>,
    pub priority: Seq<char>,
    pub description: Option<Seq<char>>,
    pub points: Option<int>,
    pub kind: ItemType,
    pub assigned_at: int,
    pub created_at: int,
    pub updated_at: int,
    pub row: Seq<char>,
}

impl View for ProductBacklogItem {
    type V = ProductBacklogItemView;

    open spec fn view(&self) -> ProductBacklogItemView {
        ProductBacklogItemView {
            id: self.id@,
            project_id: self.project_id@,
            epic_id: self.epic_id@,
            title: self.title@,
            priority: self.priority@,
            description: match self.description {
                Some(ref d) => Some(d@),
                None => None,
            },
            points: match self.points {
                Some(p) => Some(p as int),
                None => None,
            },
            kind: self.kind,
            assigned_at: self.assigned_at as int,
            created_at: self.created_at as int,
            updated_at: self.updated_at as int,
            row: self.row@,
        }
    }
}

} // verus!
