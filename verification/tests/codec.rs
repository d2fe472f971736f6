//! Tests for the two-level delimiter codec and its index-addressed mutations.

use sheetplan::codec::{convert_pattern_to_string, convert_pattern_to_vec, remove_at, set_at};

fn strings(rows: &[&[&str]]) -> Vec<Vec<String>> {
    rows.iter().map(|r| r.iter().map(|s| s.to_string()).collect()).collect()
}

#[test]
fn decode_splits_entries_and_fields() {
    let got = convert_pattern_to_vec("0:Success^a^b^c|1:Failure^x^y^z");
    let want = strings(&[&["0:Success", "a", "b", "c"], &["1:Failure", "x", "y", "z"]]);
    assert_eq!(got, want);
}

#[test]
fn decode_of_an_empty_cell_is_the_empty_list() {
    let got = convert_pattern_to_vec("");
    assert!(got.is_empty());
}

#[test]
fn encode_of_the_empty_list_is_the_empty_cell() {
    assert_eq!(convert_pattern_to_string(Vec::new()), "");
}

#[test]
fn encode_joins_fields_and_entries() {
    let list = strings(&[&["0:Alpha"], &["1:Beta"]]);
    assert_eq!(convert_pattern_to_string(list), "0:Alpha|1:Beta");
}

#[test]
fn round_trip_decode_of_encode() {
    let list = strings(&[&["0:Success", "given", "when", "outcome"], &["1:Beta"]]);
    let packed = convert_pattern_to_string(list.clone());
    assert_eq!(convert_pattern_to_vec(&packed), list);
}

#[test]
fn round_trip_encode_of_decode() {
    let packed = "0:Success^g^w^t|1:Alpha|2:Beta";
    let list = convert_pattern_to_vec(packed);
    assert_eq!(convert_pattern_to_string(list), packed);
}

#[test]
fn set_at_overwrites_inside_the_list() {
    let list = convert_pattern_to_vec("0:Alpha|1:Beta");
    let updated = set_at(list, 1, "Gamma");
    assert_eq!(convert_pattern_to_string(updated), "0:Alpha|1:Gamma");
}

#[test]
fn set_at_at_the_length_appends_with_the_old_length() {
    let list = convert_pattern_to_vec("0:Alpha|1:Beta");
    let updated = set_at(list, 2, "Gamma");
    assert_eq!(convert_pattern_to_string(updated), "0:Alpha|1:Beta|2:Gamma");
}

#[test]
fn set_at_beyond_the_length_still_appends_with_the_old_length() {
    let list = convert_pattern_to_vec("0:Alpha");
    let updated = set_at(list, 9, "Beta");
    assert_eq!(convert_pattern_to_string(updated), "0:Alpha|1:Beta");
}

#[test]
fn set_at_on_an_empty_list_appends_index_zero() {
    let updated = set_at(Vec::new(), 0, "Alpha");
    assert_eq!(convert_pattern_to_string(updated), "0:Alpha");
}

#[test]
fn set_at_on_a_decoded_empty_cell_starts_the_list_at_zero() {
    let list = convert_pattern_to_vec("");
    let updated = set_at(list, 1, "Alpha");
    assert_eq!(convert_pattern_to_string(updated), "0:Alpha");
}

#[test]
fn remove_at_drops_the_entry_with_the_embedded_index() {
    let list = convert_pattern_to_vec("0:Alpha|1:Gamma");
    let kept = remove_at(list, 0);
    assert_eq!(convert_pattern_to_string(kept), "1:Gamma");
}

#[test]
fn remove_at_does_not_renumber_survivors() {
    let list = convert_pattern_to_vec("0:A|1:B|2:C");
    let kept = remove_at(list, 1);
    assert_eq!(convert_pattern_to_string(kept), "0:A|2:C");
}

#[test]
fn remove_at_with_no_matching_index_keeps_everything() {
    let list = convert_pattern_to_vec("0:A|1:B");
    let kept = remove_at(list, 7);
    assert_eq!(convert_pattern_to_string(kept), "0:A|1:B");
}

#[test]
fn removed_index_never_reappears_after_re_decoding() {
    let list = convert_pattern_to_vec("0:A|1:B|2:C");
    let kept = remove_at(list, 2);
    let again = convert_pattern_to_vec(&convert_pattern_to_string(kept));
    for entry in again {
        let prefix: &str = entry[0].split(':').next().unwrap();
        assert_ne!(prefix, "2");
    }
}

#[test]
fn decode_preserves_source_order_without_sorting() {
    let got = convert_pattern_to_vec("1:B|0:A");
    assert_eq!(got, strings(&[&["1:B"], &["0:A"]]));
}
