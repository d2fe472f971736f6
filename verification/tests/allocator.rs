//! Tests for the identifier allocator and the prefix/number split.

use sheetplan::addr::split_prefix_and_number;
use sheetplan::grid::next_id;
use sheetplan::util::{extract_num, extract_string};

fn band(rows: &[&[&str]]) -> Vec<Vec<Option<String>>> {
    rows.iter().map(|r| r.iter().map(|s| Some(s.to_string())).collect()).collect()
}

#[test]
fn split_recovers_prefix_and_number() {
    let (prefix, number) = split_prefix_and_number("US17").unwrap();
    assert_eq!(prefix, "US");
    assert_eq!(number, 17);
}

#[test]
fn split_rejects_an_identifier_without_digits() {
    assert!(split_prefix_and_number("Epic").is_err());
    assert!(split_prefix_and_number("").is_err());
}

#[test]
fn split_rejects_a_number_too_large_for_i32() {
    assert!(split_prefix_and_number("E99999999999").is_err());
}

#[test]
fn extract_functions_take_their_character_classes() {
    assert_eq!(extract_string("PB41"), "PB");
    assert_eq!(extract_num("PB41"), 41);
    assert_eq!(extract_num(" E7 "), 7);
}

#[test]
fn next_id_on_an_empty_band_is_the_sentinel() {
    let rows: Vec<Vec<Option<String>>> = Vec::new();
    assert_eq!(next_id(&rows, None).unwrap(), "null");
}

#[test]
fn next_id_filtered_takes_the_last_matching_row() {
    let rows = band(&[&["E1", "P1"], &["E2", "P2"]]);
    let parent = "P1".to_string();
    assert_eq!(next_id(&rows, Some(&parent)).unwrap(), "E2");
}

#[test]
fn next_id_unfiltered_takes_the_last_live_row() {
    let rows = band(&[&["E1", "P1"], &["E2", "P2"]]);
    assert_eq!(next_id(&rows, None).unwrap(), "E3");
}

#[test]
fn next_id_with_no_matching_parent_is_the_sentinel() {
    let rows = band(&[&["E1", "P1"], &["E2", "P2"]]);
    let parent = "P9".to_string();
    assert_eq!(next_id(&rows, Some(&parent)).unwrap(), "null");
}

#[test]
fn next_id_skips_rows_with_blank_identifier_cells() {
    let rows = band(&[&["E1", "P1"], &["  ", "P1"], &["", "P1"]]);
    let parent = "P1".to_string();
    assert_eq!(next_id(&rows, Some(&parent)).unwrap(), "E2");
}

#[test]
fn next_id_strips_quote_characters_before_matching() {
    let rows = band(&[&["\"E4\"", "\"P1\""]]);
    let parent = "P1".to_string();
    assert_eq!(next_id(&rows, Some(&parent)).unwrap(), "E5");
}

#[test]
fn next_id_fails_when_the_last_identifier_has_no_digits() {
    let rows = band(&[&["EPIC", "P1"]]);
    let parent = "P1".to_string();
    assert!(next_id(&rows, Some(&parent)).is_err());
}

#[test]
fn next_id_treats_missing_parent_cells_as_no_match() {
    let rows: Vec<Vec<Option<String>>> = vec![vec![Some("E1".to_string())]];
    let parent = "P1".to_string();
    assert_eq!(next_id(&rows, Some(&parent)).unwrap(), "null");
}

#[test]
fn next_id_treats_non_text_cells_as_blank() {
    let rows: Vec<Vec<Option<String>>> = vec![vec![None, Some("P1".to_string())]];
    let parent = "P1".to_string();
    assert_eq!(next_id(&rows, Some(&parent)).unwrap(), "null");
}
