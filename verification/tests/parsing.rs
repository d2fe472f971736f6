//! Tests for tag parsing, range building and integer round trips.

use sheetplan::addr::{column_range, column_span, split_prefix_and_number};
use sheetplan::model::product_backlog::ItemType;
use sheetplan::model::user_story::ScenarioType;
use sheetplan::util::Status;

#[test]
fn status_tags_round_trip() {
    for (text, status) in [
        ("Pending", Status::Pending),
        ("InProgress", Status::InProgress),
        ("Done", Status::Done),
        ("Standby", Status::Standby),
    ] {
        assert_eq!(Status::from_str(text).unwrap(), status);
        assert_eq!(status.text(), text);
    }
    assert!(Status::from_str("Paused").is_err());
    assert!(Status::from_str("pending").is_err());
}

#[test]
fn item_type_tags_round_trip() {
    for (text, kind) in [
        ("Story", ItemType::Story),
        ("Bug", ItemType::Bug),
        ("Task", ItemType::Task),
    ] {
        assert_eq!(ItemType::from_str(text).unwrap(), kind);
        assert_eq!(kind.text(), text);
    }
    assert!(ItemType::from_str("Chore").is_err());
}

#[test]
fn scenario_type_tags_round_trip() {
    assert_eq!(ScenarioType::from_str("Success").unwrap(), ScenarioType::Success);
    assert_eq!(ScenarioType::from_str("Failure").unwrap(), ScenarioType::Failure);
    assert!(ScenarioType::from_str("Maybe").is_err());
}

#[test]
fn range_strings_have_the_exact_shape() {
    assert_eq!(column_range("Projects", "I", "P", 4), "Projects!I4:P4");
    assert_eq!(column_range("Projects", "AR", "BE", 12), "Projects!AR12:BE12");
    assert_eq!(column_span("Projects", "I", "R"), "Projects!I:R");
    assert_eq!(column_span("Projects", "AA5", "AA5"), "Projects!AA5:AA5");
}

#[test]
fn split_handles_interleaved_characters_like_the_extractors() {
    let (prefix, number) = split_prefix_and_number("A1B2").unwrap();
    assert_eq!(prefix, "AB");
    assert_eq!(number, 12);
}
