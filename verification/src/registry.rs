//! The entity column-band registry: one backing sheet holds every entity,
//! each in a fixed span of columns.  This is the single source of truth for
//! sheet and column literals.

use vstd::prelude::*;

verus! {

/// One entity's column band inside the backing sheet: the identifier column,
/// the adjacent parent-identifier column, the span written on create, the
/// last column read back, and the seed identifier used when the band holds
/// no prior sibling.
pub struct Band {
    pub id_col: &'static str,
    pub parent_col: &'static str,
    pub first_col: &'static str,
    pub last_col: &'static str,
    pub read_last_col: &'static str,
    pub seed: &'static str,
}

/// The name of the single backing sheet.
pub fn sheet_name() -> (r: &'static str)
    ensures
        r@ == "Projects"@,
{
    "Projects"
}

/// The epic band: identifiers `E<n>` in column I, scoped by the project
/// identifier in column J.
pub fn epic_band() -> (b: Band)
    ensures
        b.id_col@ == "I"@,
        b.parent_col@ == "J"@,
        b.first_col@ == "I"@,
        b.last_col@ == "P"@,
        b.read_last_col@ == "R"@,
        b.seed@ == "E1"@,
{
    Band {
        id_col: "I",
        parent_col: "J",
        first_col: "I",
        last_col: "P",
        read_last_col: "R",
        seed: "E1",
    }
}

/// The user-story band: identifiers `US<n>` in column R, scoped by the
/// project identifier in column S; columns AA and AB hold the two packed
/// lists.
pub fn user_story_band() -> (b: Band)
    ensures
        b.id_col@ == "R"@,
        b.parent_col@ == "S"@,
        b.first_col@ == "R"@,
        b.last_col@ == "AD"@,
        b.read_last_col@ == "AD"@,
        b.seed@ == "US1"@,
{
    Band {
        id_col: "R",
        parent_col: "S",
        first_col: "R",
        last_col: "AD",
        read_last_col: "AD",
        seed: "US1",
    }
}

/// The backlog-item band: identifiers `PB<n>` in column AF, scoped by the
/// project identifier in column AG.
pub fn product_backlog_band() -> (b: Band)
    ensures
        b.id_col@ == "AF"@,
        b.parent_col@ == "AG"@,
        b.first_col@ == "AF"@,
        b.last_col@ == "AP"@,
        b.read_last_col@ == "AP"@,
        b.seed@ == "PB1"@,
{
    Band {
        id_col: "AF",
        parent_col: "AG",
        first_col: "AF",
        last_col: "AP",
        read_last_col: "AP",
        seed: "PB1",
    }
}

/// The sprint band: identifiers `S<n>` in column AR, scoped by the project
/// identifier in column AS.  The seed keeps the `<prefix>1` convention the
/// other bands use, so a seeded sprint identifier still splits into a prefix
/// and a number.
pub fn sprint_band() -> (b: Band)
    ensures
        b.id_col@ == "AR"@,
        b.parent_col@ == "AS"@,
        b.first_col@ == "AR"@,
        b.last_col@ == "BE"@,
        b.read_last_col@ == "BE"@,
        b.seed@ == "S1"@,
{
    Band {
        id_col: "AR",
        parent_col: "AS",
        first_col: "AR",
        last_col: "BE",
        read_last_col: "BE",
        seed: "S1",
    }
}

} // verus!
