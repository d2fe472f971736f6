//! The user-story entity: scoped to a project and an epic, and carrying two
//! nested sub-record lists packed into single grid cells.

use vstd::prelude::*;

use crate::text::str_eq;

verus! {

/// Whether an acceptance scenario describes the happy path or a failure.
#[derive(Debug, Clone, Copy, PartialEq, Eq, Structural)]
pub enum ScenarioType {
    Success,
    Failure,
}

impl ScenarioType {
    /// The exact tag text this scenario kind is stored as.
    pub open spec fn spec_text(self) -> Seq<char> {
        match self {
            ScenarioType::Success => "Success"@,
            ScenarioType::Failure => "Failure"@,
        }
    }

    /// The scenario kind a stored tag text denotes, if any.
    pub open spec fn spec_of_text(s: Seq<char>) -> Option<ScenarioType> {
        if s == "Success"@ {
            Some(ScenarioType::Success)
        } else if s == "Failure"@ {
            Some(ScenarioType::Failure)
        } else {
            None
        }
    }

    /// Renders the tag text, as the grid stores it.
    pub fn text(&self) -> (r: &'static str)
        ensures
            r@ == self.spec_text(),
    {
        match self {
            ScenarioType::Success => "Success",
            ScenarioType::Failure => "Failure",
        }
    }

    /// Parses a stored tag text; unknown tags are rejected.
    pub fn from_str(input: &str) -> (r: Result<ScenarioType, ()>)
        ensures
            r is Ok <==> ScenarioType::spec_of_text(input@) is Some,
            r is Ok ==> ScenarioType::spec_of_text(input@) == Some(r->Ok_0),
    {
        if str_eq(input, "Success") {
            Ok(ScenarioType::Success)
        } else if str_eq(input, "Failure") {
            Ok(ScenarioType::Failure)
        } else {
            Err(())
        }
    }
}

/// One acceptance scenario: how things begin, the action taken, and the
/// outcome of taking it.
#[derive(Debug, Clone, PartialEq)]
pub struct Scenario {
    pub kind: ScenarioType,
    pub given_text: String,
    pub when_text: String,
    pub then_text: String,
}

/// The mathematical shape of a scenario.
pub ghost struct ScenarioView {
    pub kind: ScenarioType,
    pub given_text: Seq<char>,
    pub when_text: Seq<char>,
    pub then_text: Seq<char>,
}

impl View for Scenario {
    type V = ScenarioView;

    open spec fn view(&self) -> ScenarioView {
        ScenarioView {
            kind: self.kind,
            given_text: self.given_text@,
            when_text: self.when_text@,
            then_text: self.then_text@,
        }
    }
}

/// The narrative core of a user story: as a `role`, I want `functionality`,
/// so that `benefit`.
#[derive(Debug, Clone, PartialEq)]
pub struct UserStory {
    pub role: String,
    pub functionality: String,
    pub benefit: String,
}

/// The mathematical shape of a user-story narrative.
pub ghost struct UserStoryView {
    pub role: Seq<char>,
    pub functionality: Seq<char>,
    pub benefit: Seq<char>,
}

impl View for UserStory {
    type V = UserStoryView;

    open spec fn view(&self) -> UserStoryView {
        UserStoryView { role: self.role@, functionality: self.functionality@, benefit: self.benefit@ }
    }
}

/// A user story as read back from the grid, with its decoded acceptance
/// criteria: the scenario list and the free-text detail list.
#[derive(Debug)]
pub struct UserStoryBox {
    pub id: String,
    pub project_id: String,
    pub epic_id: String,
    pub title: String,
    pub priority: String,
    pub story_points: i32,
    pub user_story: UserStory,
    pub acceptance_criteria: (Vec<Scenario>, Vec<String>),
    pub created_at: i64,
    pub updated_at: i64,
    pub row: String,
}

/// The fields a caller supplies to create a user story.
#[derive(Debug)]
pub struct InsertUserStoryBox {
    pub project_id: String,
    pub epic_id: String,
    pub title: String,
    pub priority: String,
    pub story_points: i32,
    pub user_story: UserStory,
    pub acceptance_criteria: (Vec<Scenario>, Vec<String>),
    pub created_at: i64,
}

/// The mathematical shape of a user-story record.
pub ghost struct UserStoryBoxView {
    pub id: Seq<char>,
    pub project_id: Seq<char>,
    pub epic_id: Seq<char>,
    pub title: Seq<char>,
    pub priority: Seq<char>,
    pub story_points: int,
    pub user_story: UserStoryView,
    pub scenarios: Seq<ScenarioView>,
    pub details: Seq<Seq<char>>,
    pub created_at: int,
    pub updated_at: int,
    pub row: Seq<char>,
}

impl View for UserStoryBox {
    type V = UserStoryBoxView;

    open spec fn view(&self) -> UserStoryBoxView {
        UserStoryBoxView {
            id: self.id@,
            project_id: self.project_id@,
            epic_id: self.epic_id@,
            title: self.title@,
            priority: self.priority@,
            story_points: self.story_points as int,
            user_story: self.user_story@,
            scenarios: self.acceptance_criteria.0@.map_values(|s: Scenario| s@),
            details: self.acceptance_criteria.1@.map_values(|s: String| s@),
            created_at: self.created_at as int,
            updated_at: self.updated_at as int,
            row: self.row@,
        }
    }
}

} // verus!
