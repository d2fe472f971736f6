//! Tests for the per-entity record stores.

use sheetplan::model::epic::InsertEpicData;
use sheetplan::model::product_backlog::{InsertProductBacklogItem, ItemType};
use sheetplan::model::spreadsheet::{DataRange, Patch, SpecificDataRange, SpecificPatch};
use sheetplan::model::sprint::InsertSprint;
use sheetplan::model::user_story::{
    InsertUserStoryBox, Scenario, ScenarioType, UserStory,
};
use sheetplan::service::epic::EpicService;
use sheetplan::service::product_backlog::ProductBacklogService;
use sheetplan::service::sprint::SprintService;
use sheetplan::service::user_story::{DeleteAction, UpdateAction, UserStoryService};
use sheetplan::util::{DoubleIdentificator, Identificator, Status};

fn band(rows: &[&[&str]]) -> Vec<Vec<Option<String>>> {
    rows.iter().map(|r| r.iter().map(|s| Some(s.to_string())).collect()).collect()
}

fn epic_payload() -> InsertEpicData {
    InsertEpicData {
        project_id: "P1".to_string(),
        title: "Login".to_string(),
        description: "Auth flow".to_string(),
        status: Status::Pending,
        owner: "Ada".to_string(),
        created_at: 1700000000,
    }
}

#[test]
fn first_epic_for_a_project_is_seeded_at_row_one() {
    let rows: Vec<Vec<Option<String>>> = Vec::new();
    let plan = EpicService::create(&epic_payload(), &rows).unwrap();
    assert_eq!(plan.range, "Projects!I1:P1");
    assert_eq!(
        plan.values,
        vec![
            "E1",
            "P1",
            "Login",
            "Auth flow",
            "Pending",
            "Ada",
            "1700000000",
            "1700000000",
        ]
    );
}

#[test]
fn later_epic_increments_the_last_sibling() {
    let rows = band(&[&["E1", "P1"], &["E2", "P1"], &["E7", "P2"]]);
    let plan = EpicService::create(&epic_payload(), &rows).unwrap();
    assert_eq!(plan.values[0], "E3");
    assert_eq!(plan.range, "Projects!I3:P3");
}

#[test]
fn epic_create_fails_on_a_digitless_sibling_identifier() {
    let rows = band(&[&["EPIC", "P1"]]);
    assert!(EpicService::create(&epic_payload(), &rows).is_err());
}

#[test]
fn epic_read_decodes_matching_rows_with_locations() {
    let rows = band(&[
        &["E1", "P1", "Login", "Auth", "Pending", "Ada", "100", "100"],
        &["E2", "P2", "Search", "Find", "Done", "Bea", "200", "200"],
        &["E3", "P1", "Sync", "Push", "InProgress", "Cyd", "300", "400"],
    ]);
    let out = EpicService::read(&rows, &Identificator { id: "P1".to_string() });
    assert_eq!(out.message, "Data was obtained successfully");
    let content = out.content.unwrap();
    assert_eq!(content.len(), 2);
    assert_eq!(content[0].id, "E1");
    assert_eq!(content[0].row, "I0:R0");
    assert_eq!(content[1].id, "E3");
    assert_eq!(content[1].status, Status::InProgress);
    assert_eq!(content[1].created_at, 300);
    assert_eq!(content[1].updated_at, 400);
    assert_eq!(content[1].row, "I2:R2");
}

#[test]
fn epic_read_with_no_match_is_an_empty_success() {
    let rows = band(&[&["E1", "P1", "Login", "Auth", "Pending", "Ada", "100", "100"]]);
    let out = EpicService::read(&rows, &Identificator { id: "P9".to_string() });
    assert_eq!(out.message, "Data was obtained successfully");
    assert_eq!(out.content.unwrap().len(), 0);
    assert!(out.error_bug.is_none());
}

#[test]
fn epic_read_drops_undecodable_and_blank_rows() {
    let rows = band(&[
        &["E1", "P1", "Login", "Auth", "Pending", "Ada", "100", "100"],
        &["E2", "P1", "Bad", "Tag", "Unknown", "Bea", "100", "100"],
        &["E3", "P1", "Bad", "Stamp", "Done", "Cyd", "soon", "100"],
        &["", "P1", "Blank", "Id", "Done", "Dee", "100", "100"],
        &["E5", "P1", "Short", "Row"],
    ]);
    let out = EpicService::read(&rows, &Identificator { id: "P1".to_string() });
    let content = out.content.unwrap();
    assert_eq!(content.len(), 1);
    assert_eq!(content[0].id, "E1");
}

#[test]
fn epic_update_addresses_one_cell() {
    let plan = EpicService::update(&Patch { content: "New title".to_string(), cell: "K2".to_string() });
    assert_eq!(plan.range, "Projects!K2:K2");
    assert_eq!(plan.values, vec!["New title"]);
}

#[test]
fn epic_delete_addresses_the_whole_range() {
    let range = EpicService::delete(&DataRange { range: ("I2".to_string(), "R2".to_string()) });
    assert_eq!(range, "Projects!I2:R2");
}

#[test]
fn epic_ranges_come_from_the_registry() {
    assert_eq!(EpicService::allocator_read_range(), "Projects!I:J");
    assert_eq!(EpicService::band_read_range(), "Projects!I:R");
}

#[test]
fn first_backlog_item_is_seeded_and_defaults_fill_in() {
    let data = InsertProductBacklogItem {
        project_id: "P1".to_string(),
        epic_id: "E1".to_string(),
        title: "Fix crash".to_string(),
        priority: "High".to_string(),
        description: None,
        points: None,
        kind: ItemType::Bug,
        assigned_at: 5,
        created_at: 9,
    };
    let rows: Vec<Vec<Option<String>>> = Vec::new();
    let plan = ProductBacklogService::create(&data, &rows).unwrap();
    assert_eq!(plan.range, "Projects!AF1:AP1");
    assert_eq!(
        plan.values,
        vec!["PB1", "P1", "E1", "Fix crash", "High", "", "0", "Bug", "5", "9", "9"]
    );
}

#[test]
fn backlog_read_decodes_a_full_row() {
    let rows = band(&[
        &["PB1", "P1", "E1", "Fix", "High", "Crash on load", "3", "Bug", "5", "9", "9"],
    ]);
    let out = ProductBacklogService::read(&rows, &Identificator { id: "P1".to_string() });
    let content = out.content.unwrap();
    assert_eq!(content.len(), 1);
    assert_eq!(content[0].kind, ItemType::Bug);
    assert_eq!(content[0].points, Some(3));
    assert_eq!(content[0].row, "AF0:AP0");
}

#[test]
fn backlog_ranges_come_from_the_registry() {
    assert_eq!(ProductBacklogService::allocator_read_range(), "Projects!AF:AG");
    assert_eq!(ProductBacklogService::band_read_range(), "Projects!AF:AP");
}

#[test]
fn first_sprint_is_seeded_with_a_numbered_identifier() {
    let data = InsertSprint {
        project_id: "P1".to_string(),
        epic_id: "E1".to_string(),
        denomination: "Iteration one".to_string(),
        description: None,
        goal: "Ship login".to_string(),
        owner: "Ada".to_string(),
        estimated_points: 21,
        status: Status::Standby,
        completed_at: 0,
        start_date: 10,
        end_date: 20,
        created_at: 5,
    };
    let rows: Vec<Vec<Option<String>>> = Vec::new();
    let plan = SprintService::create(&data, &rows).unwrap();
    assert_eq!(plan.range, "Projects!AR1:BE1");
    assert_eq!(
        plan.values,
        vec![
            "S1",
            "P1",
            "E1",
            "Iteration one",
            "",
            "Ship login",
            "Ada",
            "21",
            "Standby",
            "0",
            "10",
            "20",
            "5",
            "5",
        ]
    );
}

#[test]
fn sprint_read_uses_absolute_row_locations() {
    let rows = band(&[
        &["S1", "P2", "A", "B", "C", "D", "E", "1", "Done", "2", "3", "4", "5", "6"],
        &["S1", "P1", "A", "B", "C", "D", "E", "1", "Done", "2", "3", "4", "5", "6"],
    ]);
    let out = SprintService::read(&rows, &Identificator { id: "P1".to_string() });
    let content = out.content.unwrap();
    assert_eq!(content.len(), 1);
    assert_eq!(content[0].row, "AR1:BE1");
    assert_eq!(content[0].status, Status::Done);
}

#[test]
fn sprint_ranges_come_from_the_registry() {
    assert_eq!(SprintService::allocator_read_range(), "Projects!AR:AS");
    assert_eq!(SprintService::band_read_range(), "Projects!AR:BE");
}

fn story_payload() -> InsertUserStoryBox {
    InsertUserStoryBox {
        project_id: "P1".to_string(),
        epic_id: "E1".to_string(),
        title: "Login".to_string(),
        priority: "High".to_string(),
        story_points: 5,
        user_story: UserStory {
            role: "visitor".to_string(),
            functionality: "sign in".to_string(),
            benefit: "see my board".to_string(),
        },
        acceptance_criteria: (
            vec![
                Scenario {
                    kind: ScenarioType::Success,
                    given_text: "a registered user".to_string(),
                    when_text: "they sign in".to_string(),
                    then_text: "the board loads".to_string(),
                },
                Scenario {
                    kind: ScenarioType::Failure,
                    given_text: "a wrong password".to_string(),
                    when_text: "they sign in".to_string(),
                    then_text: "an error shows".to_string(),
                },
            ],
            vec!["audit the attempt".to_string(), "rate-limit retries".to_string()],
        ),
        created_at: 42,
    }
}

#[test]
fn first_user_story_packs_both_nested_lists() {
    let rows: Vec<Vec<Option<String>>> = Vec::new();
    let plan = UserStoryService::create(&story_payload(), &rows).unwrap();
    assert_eq!(plan.range, "Projects!R1:AD1");
    assert_eq!(plan.values.len(), 13);
    assert_eq!(plan.values[0], "US1");
    assert_eq!(plan.values[5], "5");
    let want_scenarios = String::from("0:Success^a registered user^they sign in^the board loads")
        + "|1:Failure^a wrong password^they sign in^an error shows";
    assert_eq!(plan.values[9], want_scenarios);
    assert_eq!(plan.values[10], "0:audit the attempt|1:rate-limit retries");
}

#[test]
fn user_story_read_unpacks_both_nested_lists() {
    let rows = band(&[&[
        "US1",
        "P1",
        "E1",
        "Login",
        "High",
        "5",
        "visitor",
        "sign in",
        "see my board",
        "0:Success^a^b^c|1:Failure^x^y^z",
        "0:first note|1:second note",
        "42",
        "42",
    ]]);
    let param = DoubleIdentificator { project_id: "P1".to_string(), epic_id: "E1".to_string() };
    let out = UserStoryService::read(&rows, &param);
    let content = out.content.unwrap();
    assert_eq!(content.len(), 1);
    let story = &content[0];
    assert_eq!(story.story_points, 5);
    assert_eq!(story.row, "R0:AD0");
    let (scenarios, details) = &story.acceptance_criteria;
    assert_eq!(scenarios.len(), 2);
    assert_eq!(scenarios[0].kind, ScenarioType::Success);
    assert_eq!(scenarios[0].given_text, "a");
    assert_eq!(scenarios[1].kind, ScenarioType::Failure);
    assert_eq!(scenarios[1].then_text, "z");
    assert_eq!(details, &vec!["first note".to_string(), "second note".to_string()]);
}

#[test]
fn user_story_read_treats_empty_packed_cells_as_empty_lists() {
    let rows = band(&[&[
        "US1", "P1", "E1", "T", "High", "1", "r", "f", "b", "", "", "1", "1",
    ]]);
    let param = DoubleIdentificator { project_id: "P1".to_string(), epic_id: "E1".to_string() };
    let out = UserStoryService::read(&rows, &param);
    let content = out.content.unwrap();
    assert_eq!(content.len(), 1);
    assert!(content[0].acceptance_criteria.0.is_empty());
    assert!(content[0].acceptance_criteria.1.is_empty());
}

#[test]
fn user_story_read_drops_rows_with_malformed_packed_cells() {
    let rows = band(&[
        &["US1", "P1", "E1", "T", "High", "1", "r", "f", "b", "0:Nope^a^b^c", "0:n", "1", "1"],
        &["US2", "P1", "E1", "T", "High", "1", "r", "f", "b", "0:Success^a^b", "0:n", "1", "1"],
        &["US3", "P1", "E1", "T", "High", "1", "r", "f", "b", "", "note without prefix", "1", "1"],
        &["US4", "P1", "E1", "T", "High", "1", "r", "f", "b", "0:Success^a^b^c", "0:ok", "1", "1"],
    ]);
    let param = DoubleIdentificator { project_id: "P1".to_string(), epic_id: "E1".to_string() };
    let out = UserStoryService::read(&rows, &param);
    let content = out.content.unwrap();
    assert_eq!(content.len(), 1);
    assert_eq!(content[0].id, "US4");
}

#[test]
fn user_story_update_picks_the_packed_path_only_for_packed_columns() {
    let packed = UserStoryService::update(&SpecificPatch {
        content: "new".to_string(),
        cell: "AA5".to_string(),
        index: Some(1),
    });
    assert!(matches!(
        packed,
        UpdateAction::PackedReadModifyWrite { ref range } if range == "Projects!AA5:AA5"
    ));
    let whole = UserStoryService::update(&SpecificPatch {
        content: "new".to_string(),
        cell: "T5".to_string(),
        index: None,
    });
    match whole {
        UpdateAction::WholeCell { plan } => {
            assert_eq!(plan.range, "Projects!T5:T5");
            assert_eq!(plan.values, vec!["new"]);
        }
        _ => panic!("expected a whole-cell overwrite"),
    }
    let skipped = UserStoryService::update(&SpecificPatch {
        content: "new".to_string(),
        cell: "T5".to_string(),
        index: Some(1),
    });
    assert!(matches!(skipped, UpdateAction::Skip));
}

#[test]
fn packed_cell_set_at_matches_the_scenario() {
    let current = "0:Alpha|1:Beta".to_string();
    let updated = UserStoryService::apply_set_at(Some(&current), 1, &"Gamma".to_string());
    assert_eq!(updated, "0:Alpha|1:Gamma");
    let removed = UserStoryService::apply_remove_at(Some(&updated), 0);
    assert_eq!(removed, "1:Gamma");
}

#[test]
fn packed_cell_set_at_on_an_unwritten_cell_starts_the_list() {
    let updated = UserStoryService::apply_set_at(None, 3, &"Alpha".to_string());
    assert_eq!(updated, "0:Alpha");
}

#[test]
fn packed_cell_set_at_on_an_empty_cell_starts_the_list() {
    let current = String::new();
    let updated = UserStoryService::apply_set_at(Some(&current), 1, &"Alpha".to_string());
    assert_eq!(updated, "0:Alpha");
}

#[test]
fn packed_cell_remove_at_on_an_empty_cell_leaves_it_empty() {
    let current = String::new();
    assert_eq!(UserStoryService::apply_remove_at(Some(&current), 0), "");
}

#[test]
fn user_story_delete_picks_the_packed_path_only_with_an_index() {
    let packed = UserStoryService::delete(&SpecificDataRange {
        range: ("AA5".to_string(), "AA5".to_string()),
        index: Some(0),
    });
    assert!(matches!(
        packed,
        DeleteAction::PackedReadModifyWrite { ref range } if range == "Projects!AA5:AA5"
    ));
    let cleared = UserStoryService::delete(&SpecificDataRange {
        range: ("AA5".to_string(), "AA5".to_string()),
        index: None,
    });
    assert!(matches!(
        cleared,
        DeleteAction::Clear { ref range } if range == "Projects!AA5:AA5"
    ));
    let other = UserStoryService::delete(&SpecificDataRange {
        range: ("R2".to_string(), "AD2".to_string()),
        index: Some(0),
    });
    assert!(matches!(
        other,
        DeleteAction::Clear { ref range } if range == "Projects!R2:AD2"
    ));
}

#[test]
fn user_story_ranges_come_from_the_registry() {
    assert_eq!(UserStoryService::allocator_read_range(), "Projects!R:S");
    assert_eq!(UserStoryService::band_read_range(), "Projects!R:AD");
}

#[test]
fn epic_read_accepts_signed_timestamps() {
    let rows = band(&[&["E1", "P1", "T", "D", "Done", "O", "-5", "+7"]]);
    let out = EpicService::read(&rows, &Identificator { id: "P1".to_string() });
    let content = out.content.unwrap();
    assert_eq!(content[0].created_at, -5);
    assert_eq!(content[0].updated_at, 7);
}

#[test]
fn sprint_create_renders_negative_values_with_a_sign() {
    let data = InsertSprint {
        project_id: "P1".to_string(),
        epic_id: "E1".to_string(),
        denomination: "N".to_string(),
        description: Some("D".to_string()),
        goal: "G".to_string(),
        owner: "O".to_string(),
        estimated_points: -3,
        status: Status::Pending,
        completed_at: -1,
        start_date: 0,
        end_date: 1,
        created_at: 2,
    };
    let rows: Vec<Vec<Option<String>>> = Vec::new();
    let plan = SprintService::create(&data, &rows).unwrap();
    assert_eq!(plan.values[4], "D");
    assert_eq!(plan.values[7], "-3");
    assert_eq!(plan.values[9], "-1");
}
