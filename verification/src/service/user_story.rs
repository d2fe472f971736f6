//! The user-story record store: planning and decoding for the user-story
//! band, including the two packed sub-record lists (acceptance scenarios and
//! free-text details) held in single cells.

use vstd::prelude::*;

use crate::addr::{column_range, column_span, loc_view, range_view, row_location, span_view,
    FormatError};
use crate::codec::{convert_pattern_to_string, convert_pattern_to_vec, decode_packed,
    encode_packed, first_occur, join_with, remove_at, remove_at_spec, set_at, set_at_spec};
use crate::grid::{cell_at, cell_get, cell_text, resolved_id_spec, row_live, row_matches_parent};
use crate::model::response::Response;
use crate::model::spreadsheet::{RowWrite, SpecificDataRange, SpecificPatch};
use crate::model::user_story::{InsertUserStoryBox, Scenario, ScenarioType, ScenarioView,
    UserStory, UserStoryBox, UserStoryBoxView, UserStoryView};
use crate::num::{dec_rep, dec_rep_signed, dec_val, int_literal_val, parses_to_i32,
    parses_to_i64};
use crate::registry::{sheet_name, user_story_band};
use crate::text::{contains_seq, contains_sub, digits_of, is_blank_str, str_eq, str_to_chars,
    strip_quotes_str};
use crate::util::DoubleIdentificator;
use vstd::string::StringExecFns;

verus! {

/// CRUD planning for the user-story band.
pub struct UserStoryService;

/// The seed identifier's digit run is the single digit `1`.
proof fn lemma_user_story_seed()
    ensures
        digits_of("US1"@) == seq!['1'],
        dec_val(digits_of("US1"@)) == 1,
{
    reveal_strlit("US1");
    reveal_with_fuel(Seq::filter, 5);
    let s = "US1"@;
    assert(s =~= seq!['U', 'S', '1']);
    assert(seq!['U', 'S', '1'].drop_last() =~= seq!['U', 'S']);
    assert(seq!['U', 'S'].drop_last() =~= seq!['U']);
    assert(seq!['U'].drop_last() =~= Seq::<char>::empty());
    assert(seq!['U'].filter(crate::text::digit_pred()) =~= Seq::<char>::empty());
    assert(seq!['U', 'S'].filter(crate::text::digit_pred()) =~= Seq::<char>::empty());
    assert(seq!['U', 'S', '1'].filter(crate::text::digit_pred()) =~= seq!['1']);
    assert(digits_of(s) == seq!['1']);
    assert(dec_val(seq!['1']) == 1) by {
        assert(seq!['1'].drop_last() =~= Seq::<char>::empty());
        assert(dec_val(Seq::<char>::empty()) == 0);
        assert(seq!['1'].last() == '1');
        assert(crate::num::digit_val('1') == 1);
        assert(dec_val(seq!['1']) == dec_val(seq!['1'].drop_last()) * 10 + crate::num::digit_val(
            '1',
        ));
    }
}

/// One packed scenario entry: `<i>:<kind>^<given>^<when>^<then>`.
pub open spec fn scenario_entry(i: int, s: ScenarioView) -> Seq<char> {
    dec_rep(i) + seq![':'] + s.kind.spec_text() + seq!['^'] + s.given_text + seq!['^']
        + s.when_text + seq!['^'] + s.then_text
}

/// The packed scenario list: entries indexed from zero, joined by `|`.
pub open spec fn scenarios_packed(l: Seq<ScenarioView>) -> Seq<char> {
    join_with(Seq::new(l.len(), |i: int| scenario_entry(i, l[i])), '|')
}

/// One packed detail entry: `<i>:<text>`.
pub open spec fn detail_entry(i: int, d: Seq<char>) -> Seq<char> {
    dec_rep(i) + seq![':'] + d
}

/// The packed detail list: entries indexed from zero, joined by `|`.
pub open spec fn details_packed(l: Seq<Seq<char>>) -> Seq<char> {
    join_with(Seq::new(l.len(), |i: int| detail_entry(i, l[i])), '|')
}

/// The text after the first colon of a field: the field with its index
/// prefix stripped.
pub open spec fn after_colon(s: Seq<char>) -> Seq<char>
    recommends
        s.contains(':'),
{
    s.subrange(first_occur(s, ':') as int + 1, s.len() as int)
}

/// A well-formed packed scenario entry: exactly four fields, the first
/// carrying an index prefix and a known scenario tag.
pub open spec fn wf_scenario_entry(e: Seq<Seq<char>>) -> bool {
    e.len() == 4 && e[0].contains(':') && ScenarioType::spec_of_text(after_colon(e[0])) is Some
}

/// The scenario a well-formed packed entry denotes.
pub open spec fn scenario_of_entry(e: Seq<Seq<char>>) -> ScenarioView
    recommends
        wf_scenario_entry(e),
{
    ScenarioView {
        kind: ScenarioType::spec_of_text(after_colon(e[0]))->0,
        given_text: e[1],
        when_text: e[2],
        then_text: e[3],
    }
}

/// The scenario list a packed cell decodes to: the empty cell is the empty
/// list, and any malformed entry spoils the whole cell.
pub open spec fn scenario_list_of(s: Seq<char>) -> Option<Seq<ScenarioView>> {
    if s.len() == 0 {
        Some(Seq::empty())
    } else {
        let entries = decode_packed(s);
        if forall|i: int| 0 <= i < entries.len() ==> wf_scenario_entry(#[trigger] entries[i]) {
            Some(entries.map_values(|e: Seq<Seq<char>>| scenario_of_entry(e)))
        } else {
            None
        }
    }
}

/// A well-formed packed detail entry: one field carrying an index prefix.
pub open spec fn wf_detail_entry(e: Seq<Seq<char>>) -> bool {
    e.len() == 1 && e[0].contains(':')
}

/// The detail list a packed cell decodes to: the empty cell is the empty
/// list, and any malformed entry spoils the whole cell.
pub open spec fn details_list_of(s: Seq<char>) -> Option<Seq<Seq<char>>> {
    if s.len() == 0 {
        Some(Seq::empty())
    } else {
        let entries = decode_packed(s);
        if forall|i: int| 0 <= i < entries.len() ==> wf_detail_entry(#[trigger] entries[i]) {
            Some(entries.map_values(|e: Seq<Seq<char>>| after_colon(e[0])))
        } else {
            None
        }
    }
}

/// What a cell update becomes: a read-modify-write of a packed-list cell, a
/// plain overwrite, or nothing (an index aimed outside the packed columns).
pub enum UpdateAction {
    PackedReadModifyWrite { range: String },
    WholeCell { plan: RowWrite },
    Skip,
}

/// What a range delete becomes: a read-modify-write that removes one packed
/// entry, or a whole-range clear.
pub enum DeleteAction {
    PackedReadModifyWrite { range: String },
    Clear { range: String },
}

/// The text after the first colon of a field, as a fresh string.
fn after_colon_str(field: &String) -> (r: Option<String>)
    ensures
        r is Some <==> field@.contains(':'),
        r is Some ==> r->0@ == after_colon(field@),
{
    let chars = str_to_chars(field.as_str());
    match crate::codec::find_char(&chars, ':') {
        Some(p) => {
            proof {
                crate::codec::lemma_first_occur(chars@, ':');
            }
            let n = chars.len();
            let tail = crate::codec::sub_vec(&chars, p + 1, n);
            Some(crate::text::chars_to_string(&tail))
        },
        None => None,
    }
}

/// Decodes a packed scenario cell, or rejects it whole when any entry is
/// malformed.
fn decode_scenarios(cell: &String) -> (r: Option<Vec<Scenario>>)
    ensures
        r is Some <==> scenario_list_of(cell@) is Some,
        r is Some ==> scenario_list_of(cell@) == Some(
            r->0@.map_values(|s: Scenario| s@),
        ),
{
    if cell.as_str().unicode_len() == 0 {
        let out: Vec<Scenario> = Vec::new();
        proof {
            assert(out@.map_values(|s: Scenario| s@) =~= Seq::<ScenarioView>::empty());
        }
        return Some(out);
    }
    let entries = convert_pattern_to_vec(cell.as_str());
    let ghost dv = decode_packed(cell@);
    let mut out: Vec<Scenario> = Vec::new();
    let mut i: usize = 0;
    while i < entries.len()
        invariant
            cell@.len() != 0,
            entries.deep_view() == dv,
            dv == decode_packed(cell@),
            dv.len() == entries@.len(),
            i <= entries@.len(),
            out@.len() == i,
            forall|q: int| 0 <= q < i ==> wf_scenario_entry(#[trigger] dv[q]),
            forall|q: int| 0 <= q < i ==> (#[trigger] out@[q])@ == scenario_of_entry(dv[q]),
        decreases entries@.len() - i,
    {
        proof {
            assert(entries@[i as int].deep_view() == dv[i as int]);
        }
        let e = &entries[i];
        if e.len() != 4 {
            proof {
                assert(!wf_scenario_entry(dv[i as int]));
                assert(!(forall|q: int|
                    0 <= q < decode_packed(cell@).len() ==> wf_scenario_entry(
                        #[trigger] decode_packed(cell@)[q],
                    )));
            }
            return None;
        }
        proof {
            assert(e@[0]@ == dv[i as int][0]);
            assert(e@[1]@ == dv[i as int][1]);
            assert(e@[2]@ == dv[i as int][2]);
            assert(e@[3]@ == dv[i as int][3]);
        }
        let tag = match after_colon_str(&e[0]) {
            Some(t) => t,
            None => {
                proof {
                    assert(!wf_scenario_entry(dv[i as int]));
                    assert(!(forall|q: int|
                        0 <= q < decode_packed(cell@).len() ==> wf_scenario_entry(
                            #[trigger] decode_packed(cell@)[q],
                        )));
                }
                return None;
            },
        };
        let kind = match ScenarioType::from_str(tag.as_str()) {
            Ok(k) => k,
            Err(_) => {
                proof {
                    assert(!wf_scenario_entry(dv[i as int]));
                    assert(!(forall|q: int|
                        0 <= q < decode_packed(cell@).len() ==> wf_scenario_entry(
                            #[trigger] decode_packed(cell@)[q],
                        )));
                }
                return None;
            },
        };
        out.push(
            Scenario {
                kind,
                given_text: String::from_str(e[1].as_str()),
                when_text: String::from_str(e[2].as_str()),
                then_text: String::from_str(e[3].as_str()),
            },
        );
        i = i + 1;
    }
    proof {
        assert(out@.map_values(|s: Scenario| s@) =~= dv.map_values(
            |e: Seq<Seq<char>>| scenario_of_entry(e),
        ));
    }
    Some(out)
}

/// Decodes a packed detail cell, or rejects it whole when any entry is
/// malformed.
fn decode_details(cell: &String) -> (r: Option<Vec<String>>)
    ensures
        r is Some <==> details_list_of(cell@) is Some,
        r is Some ==> details_list_of(cell@) == Some(r->0@.map_values(|s: String| s@)),
{
    if cell.as_str().unicode_len() == 0 {
        let out: Vec<String> = Vec::new();
        proof {
            assert(out@.map_values(|s: String| s@) =~= Seq::<Seq<char>>::empty());
        }
        return Some(out);
    }
    let entries = convert_pattern_to_vec(cell.as_str());
    let ghost dv = decode_packed(cell@);
    let mut out: Vec<String> = Vec::new();
    let mut i: usize = 0;
    while i < entries.len()
        invariant
            cell@.len() != 0,
            entries.deep_view() == dv,
            dv == decode_packed(cell@),
            dv.len() == entries@.len(),
            i <= entries@.len(),
            out@.len() == i,
            forall|q: int| 0 <= q < i ==> wf_detail_entry(#[trigger] dv[q]),
            forall|q: int| 0 <= q < i ==> (#[trigger] out@[q])@ == after_colon(dv[q][0]),
        decreases entries@.len() - i,
    {
        proof {
            assert(entries@[i as int].deep_view() == dv[i as int]);
        }
        let e = &entries[i];
        if e.len() != 1 {
            proof {
                assert(!wf_detail_entry(dv[i as int]));
                assert(!(forall|q: int|
                    0 <= q < decode_packed(cell@).len() ==> wf_detail_entry(
                        #[trigger] decode_packed(cell@)[q],
                    )));
            }
            return None;
        }
        proof {
            assert(e@[0]@ == dv[i as int][0]);
        }
        let text = match after_colon_str(&e[0]) {
            Some(t) => t,
            None => {
                proof {
                    assert(!wf_detail_entry(dv[i as int]));
                    assert(!(forall|q: int|
                        0 <= q < decode_packed(cell@).len() ==> wf_detail_entry(
                            #[trigger] decode_packed(cell@)[q],
                        )));
                }
                return None;
            },
        };
        out.push(text);
        i = i + 1;
    }
    proof {
        assert(out@.map_values(|s: String| s@) =~= dv.map_values(
            |e: Seq<Seq<char>>| after_colon(e[0]),
        ));
    }
    Some(out)
}

/// Whether a read keeps a band row: a live identifier and matching project
/// and epic.
pub open spec fn us_row_kept(row: Seq<Option<Seq<char>>>, pid: Seq<char>, eid: Seq<char>) -> bool {
    row_live(row) && row_matches_parent(row, pid) && crate::text::strip_quotes(cell_text(row, 2))
        == crate::text::strip_quotes(eid)
}

/// The record decoded from one band row, if every required field decodes and
/// both packed cells decode; a row that does not is dropped from reads.
pub open spec fn us_of_row(row: Seq<Option<Seq<char>>>, idx: int) -> Option<UserStoryBoxView> {
    if cell_at(row, 0) is Some && cell_at(row, 1) is Some && cell_at(row, 2) is Some && cell_at(
        row,
        3,
    ) is Some && cell_at(row, 4) is Some && cell_at(row, 5) is Some && cell_at(row, 6) is Some
        && cell_at(row, 7) is Some && cell_at(row, 8) is Some && cell_at(row, 9) is Some
        && cell_at(row, 10) is Some && cell_at(row, 11) is Some && cell_at(row, 12) is Some {
        let sp = cell_at(row, 5)->0;
        let sc = scenario_list_of(cell_at(row, 9)->0);
        let dt = details_list_of(cell_at(row, 10)->0);
        let ca = cell_at(row, 11)->0;
        let ua = cell_at(row, 12)->0;
        if parses_to_i32(sp) && sc is Some && dt is Some && parses_to_i64(ca) && parses_to_i64(
            ua,
        ) {
            Some(
                UserStoryBoxView {
                    id: cell_at(row, 0)->0,
                    project_id: cell_at(row, 1)->0,
                    epic_id: cell_at(row, 2)->0,
                    title: cell_at(row, 3)->0,
                    priority: cell_at(row, 4)->0,
                    story_points: int_literal_val(sp),
                    user_story: UserStoryView {
                        role: cell_at(row, 6)->0,
                        functionality: cell_at(row, 7)->0,
                        benefit: cell_at(row, 8)->0,
                    },
                    scenarios: sc->0,
                    details: dt->0,
                    created_at: int_literal_val(ca),
                    updated_at: int_literal_val(ua),
                    row: loc_view("R"@, "AD"@, idx),
                },
            )
        } else {
            None
        }
    } else {
        None
    }
}

/// The records the first `n` band rows yield for one project and epic.
pub open spec fn us_rows_upto(
    rows: Seq<Seq<Option<Seq<char>>>>,
    pid: Seq<char>,
    eid: Seq<char>,
    n: int,
) -> Seq<UserStoryBoxView>
    decreases n,
{
    if n <= 0 {
        Seq::empty()
    } else {
        let head = us_rows_upto(rows, pid, eid, n - 1);
        if us_row_kept(rows[n - 1], pid, eid) {
            match us_of_row(rows[n - 1], n - 1) {
                Some(e) => head.push(e),
                None => head,
            }
        } else {
            head
        }
    }
}

/// Builds one packed scenario entry.
fn build_scenario_entry(i: u64, s: &Scenario) -> (r: Vec<char>)
    ensures
        r@ == scenario_entry(i as int, s@),
{
    let mut e = crate::num::fmt_u64(i);
    e.push(':');
    let ghost base = dec_rep(i as int) + seq![':'];
    proof {
        assert(e@ =~= base);
    }
    let kind = str_to_chars(s.kind.text());
    let mut k: usize = 0;
    while k < kind.len()
        invariant
            kind@ == s.kind.spec_text(),
            k <= kind@.len(),
            base == dec_rep(i as int) + seq![':'],
            e@ == base + kind@.subrange(0, k as int),
        decreases kind@.len() - k,
    {
        e.push(kind[k]);
        assert(e@ =~= base + kind@.subrange(0, k + 1 as int));
        k = k + 1;
    }
    proof {
        assert(e@ =~= base + s.kind.spec_text());
    }
    e.push('^');
    let given = str_to_chars(s.given_text.as_str());
    let ghost base2 = base + s.kind.spec_text() + seq!['^'];
    proof {
        assert(e@ =~= base2);
    }
    let mut k: usize = 0;
    while k < given.len()
        invariant
            given@ == s.given_text@,
            k <= given@.len(),
            e@ == base2 + given@.subrange(0, k as int),
        decreases given@.len() - k,
    {
        e.push(given[k]);
        assert(e@ =~= base2 + given@.subrange(0, k + 1 as int));
        k = k + 1;
    }
    proof {
        assert(e@ =~= base2 + s.given_text@);
    }
    e.push('^');
    let when_chars = str_to_chars(s.when_text.as_str());
    let ghost base3 = base2 + s.given_text@ + seq!['^'];
    proof {
        assert(e@ =~= base3);
    }
    let mut k: usize = 0;
    while k < when_chars.len()
        invariant
            when_chars@ == s.when_text@,
            k <= when_chars@.len(),
            e@ == base3 + when_chars@.subrange(0, k as int),
        decreases when_chars@.len() - k,
    {
        e.push(when_chars[k]);
        assert(e@ =~= base3 + when_chars@.subrange(0, k + 1 as int));
        k = k + 1;
    }
    proof {
        assert(e@ =~= base3 + s.when_text@);
    }
    e.push('^');
    let then_chars = str_to_chars(s.then_text.as_str());
    let ghost base4 = base3 + s.when_text@ + seq!['^'];
    proof {
        assert(e@ =~= base4);
    }
    let mut k: usize = 0;
    while k < then_chars.len()
        invariant
            then_chars@ == s.then_text@,
            k <= then_chars@.len(),
            e@ == base4 + then_chars@.subrange(0, k as int),
        decreases then_chars@.len() - k,
    {
        e.push(then_chars[k]);
        assert(e@ =~= base4 + then_chars@.subrange(0, k + 1 as int));
        k = k + 1;
    }
    proof {
        assert(e@ =~= scenario_entry(i as int, s@));
    }
    e
}

/// Packs the scenario list for one cell.
fn fmt_scenarios(scenarios: &Vec<Scenario>) -> (r: String)
    ensures
        r@ == scenarios_packed(scenarios@.map_values(|s: Scenario| s@)),
{
    let ghost lv = scenarios@.map_values(|s: Scenario| s@);
    let ghost target = Seq::new(lv.len(), |i: int| scenario_entry(i, lv[i]));
    let mut entries: Vec<Vec<char>> = Vec::new();
    let mut i: usize = 0;
    while i < scenarios.len()
        invariant
            lv == scenarios@.map_values(|s: Scenario| s@),
            lv.len() == scenarios@.len(),
            target == Seq::new(lv.len(), |i: int| scenario_entry(i, lv[i])),
            i <= scenarios@.len(),
            entries@.len() == i,
            forall|q: int| 0 <= q < i ==> (#[trigger] entries@[q])@ == target[q],
        decreases scenarios@.len() - i,
    {
        entries.push(build_scenario_entry(i as u64, &scenarios[i]));
        i = i + 1;
    }
    proof {
        assert(entries.deep_view() =~~= target);
    }
    let joined = crate::codec::join_chars(&entries, '|');
    crate::text::chars_to_string(&joined)
}

/// Builds one packed detail entry.
fn build_detail_entry(i: u64, d: &String) -> (r: Vec<char>)
    ensures
        r@ == detail_entry(i as int, d@),
{
    let mut e = crate::num::fmt_u64(i);
    e.push(':');
    let ghost base = dec_rep(i as int) + seq![':'];
    proof {
        assert(e@ =~= base);
    }
    let text = str_to_chars(d.as_str());
    let mut k: usize = 0;
    while k < text.len()
        invariant
            text@ == d@,
            k <= text@.len(),
            base == dec_rep(i as int) + seq![':'],
            e@ == base + text@.subrange(0, k as int),
        decreases text@.len() - k,
    {
        e.push(text[k]);
        assert(e@ =~= base + text@.subrange(0, k + 1 as int));
        k = k + 1;
    }
    proof {
        assert(e@ =~= detail_entry(i as int, d@));
    }
    e
}

/// Packs the detail list for one cell.
fn fmt_details(details: &Vec<String>) -> (r: String)
    ensures
        r@ == details_packed(details@.map_values(|s: String| s@)),
{
    let ghost lv = details@.map_values(|s: String| s@);
    let ghost target = Seq::new(lv.len(), |i: int| detail_entry(i, lv[i]));
    let mut entries: Vec<Vec<char>> = Vec::new();
    let mut i: usize = 0;
    while i < details.len()
        invariant
            lv == details@.map_values(|s: String| s@),
            lv.len() == details@.len(),
            target == Seq::new(lv.len(), |i: int| detail_entry(i, lv[i])),
            i <= details@.len(),
            entries@.len() == i,
            forall|q: int| 0 <= q < i ==> (#[trigger] entries@[q])@ == target[q],
        decreases details@.len() - i,
    {
        entries.push(build_detail_entry(i as u64, &details[i]));
        i = i + 1;
    }
    proof {
        assert(entries.deep_view() =~~= target);
    }
    let joined = crate::codec::join_chars(&entries, '|');
    crate::text::chars_to_string(&joined)
}


/// A band row with a blank identifier cell is excluded from read results:
/// it reads the same as an empty row in that slot.
pub proof fn lemma_blank_row_dropped_from_read(
    rows: Seq<Seq<Option<Seq<char>>>>,
    pid: Seq<char>,
    eid: Seq<char>,
    k: int,
    n: int,
)
    requires
        0 <= k < rows.len(),
        n <= rows.len(),
        !row_live(rows[k]),
    ensures
        us_rows_upto(rows, pid, eid, n) == us_rows_upto(
            rows.update(k, Seq::empty()),
            pid, eid,
            n,
        ),
    decreases n,
{
    if n > 0 {
        lemma_blank_row_dropped_from_read(rows, pid, eid, k, n - 1);
        let r2 = rows.update(k, Seq::<Option<Seq<char>>>::empty());
        if n - 1 == k {
            assert(!row_live(rows[k]));
            assert(cell_text(r2[k], 0) =~= Seq::<char>::empty());
            assert(!row_live(r2[k]));
        } else {
            assert(rows[n - 1] == r2[n - 1]);
        }
    }
}

/// Decodes one band row into a user story, dropping the row when any
/// required field or packed cell is missing or malformed.
fn decode_us_row(row: &Vec<Option<String>>, idx: usize) -> (r: Option<UserStoryBox>)
    ensures
        r is Some <==> us_of_row(row.deep_view(), idx as int) is Some,
        r is Some ==> us_of_row(row.deep_view(), idx as int) == Some(r->0@),
{
    let c0 = cell_get(row, 0);
    let c1 = cell_get(row, 1);
    let c2 = cell_get(row, 2);
    let c3 = cell_get(row, 3);
    let c4 = cell_get(row, 4);
    let c5 = cell_get(row, 5);
    let c6 = cell_get(row, 6);
    let c7 = cell_get(row, 7);
    let c8 = cell_get(row, 8);
    let c9 = cell_get(row, 9);
    let c10 = cell_get(row, 10);
    let c11 = cell_get(row, 11);
    let c12 = cell_get(row, 12);
    if c0.is_none() || c1.is_none() || c2.is_none() || c3.is_none() || c4.is_none()
        || c5.is_none() || c6.is_none() || c7.is_none() || c8.is_none() || c9.is_none()
        || c10.is_none() || c11.is_none() || c12.is_none() {
        return None;
    }
    let sp = match crate::num::parse_i32(c5.unwrap().as_str()) {
        Some(v) => v,
        None => {
            return None;
        },
    };
    let scenarios = match decode_scenarios(c9.unwrap()) {
        Some(v) => v,
        None => {
            return None;
        },
    };
    let details = match decode_details(c10.unwrap()) {
        Some(v) => v,
        None => {
            return None;
        },
    };
    let ca = match crate::num::parse_i64(c11.unwrap().as_str()) {
        Some(v) => v,
        None => {
            return None;
        },
    };
    let ua = match crate::num::parse_i64(c12.unwrap().as_str()) {
        Some(v) => v,
        None => {
            return None;
        },
    };
    let band = user_story_band();
    Some(
        UserStoryBox {
            id: String::from_str(c0.unwrap().as_str()),
            project_id: String::from_str(c1.unwrap().as_str()),
            epic_id: String::from_str(c2.unwrap().as_str()),
            title: String::from_str(c3.unwrap().as_str()),
            priority: String::from_str(c4.unwrap().as_str()),
            story_points: sp,
            user_story: UserStory {
                role: String::from_str(c6.unwrap().as_str()),
                functionality: String::from_str(c7.unwrap().as_str()),
                benefit: String::from_str(c8.unwrap().as_str()),
            },
            acceptance_criteria: (scenarios, details),
            created_at: ca,
            updated_at: ua,
            row: row_location(band.first_col, band.read_last_col, idx as u64),
        },
    )
}

impl UserStoryService {
    /// The range to read for the allocator scan: the identifier and parent
    /// columns of the whole band.
    pub fn allocator_read_range() -> (r: String)
        ensures
            r@ == span_view("Projects"@, "R"@, "S"@),
    {
        let band = user_story_band();
        column_span(sheet_name(), band.id_col, band.parent_col)
    }

    /// The range to read for a band scan: every column of the band.
    pub fn band_read_range() -> (r: String)
        ensures
            r@ == span_view("Projects"@, "R"@, "AD"@),
    {
        let band = user_story_band();
        column_span(sheet_name(), band.first_col, band.read_last_col)
    }

    /// Plans the append that creates a user story: allocates the identifier
    /// from the band read (seeding `US1` for a project's first story),
    /// addresses the row the identifier's number names, packs the scenario
    /// and detail lists into their single cells, and lays the fields out in
    /// band order, with `updated_at` starting equal to `created_at`.
    pub fn create(data: &InsertUserStoryBox, band_rows: &Vec<Vec<Option<String>>>) -> (r: Result<
        RowWrite,
        FormatError,
    >)
        ensures
            r is Ok <==> resolved_id_spec(band_rows.deep_view(), data.project_id@, "US1"@) is Ok,
            r is Ok ==> ({
                let id = resolved_id_spec(band_rows.deep_view(), data.project_id@, "US1"@)->Ok_0;
                let idx = dec_val(digits_of(id));
                &&& r->Ok_0.range@ == range_view("Projects"@, "R"@, "AD"@, idx)
                &&& r->Ok_0.values@.len() == 13
                &&& r->Ok_0.values@[0]@ == id
                &&& r->Ok_0.values@[1]@ == data.project_id@
                &&& r->Ok_0.values@[2]@ == data.epic_id@
                &&& r->Ok_0.values@[3]@ == data.title@
                &&& r->Ok_0.values@[4]@ == data.priority@
                &&& r->Ok_0.values@[5]@ == dec_rep_signed(data.story_points as int)
                &&& r->Ok_0.values@[6]@ == data.user_story.role@
                &&& r->Ok_0.values@[7]@ == data.user_story.functionality@
                &&& r->Ok_0.values@[8]@ == data.user_story.benefit@
                &&& r->Ok_0.values@[9]@ == scenarios_packed(
                    data.acceptance_criteria.0@.map_values(|s: Scenario| s@),
                )
                &&& r->Ok_0.values@[10]@ == details_packed(
                    data.acceptance_criteria.1@.map_values(|s: String| s@),
                )
                &&& r->Ok_0.values@[11]@ == dec_rep_signed(data.created_at as int)
                &&& r->Ok_0.values@[12]@ == dec_rep_signed(data.created_at as int)
            }),
    {
        proof {
            lemma_user_story_seed();
        }
        let band = user_story_band();
        let (id, idx) = match crate::grid::resolve_id(band_rows, &data.project_id, band.seed) {
            Ok(p) => p,
            Err(e) => {
                return Err(e);
            },
        };
        let range = column_range(sheet_name(), band.first_col, band.last_col, idx);
        let stamp = crate::text::chars_to_string(&crate::num::fmt_i64(data.created_at));
        let packed_scenarios = fmt_scenarios(&data.acceptance_criteria.0);
        let packed_details = fmt_details(&data.acceptance_criteria.1);
        let mut values: Vec<String> = Vec::new();
        values.push(id);
        values.push(String::from_str(data.project_id.as_str()));
        values.push(String::from_str(data.epic_id.as_str()));
        values.push(String::from_str(data.title.as_str()));
        values.push(String::from_str(data.priority.as_str()));
        values.push(crate::text::chars_to_string(&crate::num::fmt_i64(data.story_points as i64)));
        values.push(String::from_str(data.user_story.role.as_str()));
        values.push(String::from_str(data.user_story.functionality.as_str()));
        values.push(String::from_str(data.user_story.benefit.as_str()));
        values.push(packed_scenarios);
        values.push(packed_details);
        values.push(String::from_str(stamp.as_str()));
        values.push(stamp);
        Ok(RowWrite { range, values })
    }

    /// Decodes a band read into the user stories of one project and epic,
    /// dropping rows with blank identifiers and rows that fail to decode; a
    /// read that matches nothing yields a success envelope around an empty
    /// list.
    pub fn read(values: &Vec<Vec<Option<String>>>, param: &DoubleIdentificator) -> (r: Response<
        UserStoryBox,
    >)
        ensures
            r.message@ == "Data was obtained successfully"@,
            r.error_bug is None,
            r.content is Some,
            r.content->0@.map_values(|e: UserStoryBox| e@) == us_rows_upto(
                values.deep_view(),
                param.project_id@,
                param.epic_id@,
                values.deep_view().len() as int,
            ),
    {
        let ghost dv = values.deep_view();
        let mut out: Vec<UserStoryBox> = Vec::new();
        proof {
            assert(dv.len() == values@.len());
            assert(out@.map_values(|e: UserStoryBox| e@) =~= us_rows_upto(
                dv,
                param.project_id@,
                param.epic_id@,
                0,
            ));
        }
        let mut i: usize = 0;
        while i < values.len()
            invariant
                dv == values.deep_view(),
                dv.len() == values@.len(),
                i <= values@.len(),
                out@.map_values(|e: UserStoryBox| e@) == us_rows_upto(
                    dv,
                    param.project_id@,
                    param.epic_id@,
                    i as int,
                ),
            decreases values@.len() - i,
        {
            proof {
                assert(values@[i as int].deep_view() == dv[i as int]);
            }
            let row = &values[i];
            let c0 = crate::grid::cell_str(row, 0);
            let live = !is_blank_str(c0);
            let matched = if live {
                let c1 = crate::grid::cell_str(row, 1);
                let a = strip_quotes_str(c1);
                let b = strip_quotes_str(param.project_id.as_str());
                if str_eq(a.as_str(), b.as_str()) {
                    let c2 = crate::grid::cell_str(row, 2);
                    let x = strip_quotes_str(c2);
                    let y = strip_quotes_str(param.epic_id.as_str());
                    str_eq(x.as_str(), y.as_str())
                } else {
                    false
                }
            } else {
                false
            };
            if matched {
                match decode_us_row(row, i) {
                    Some(e) => {
                        let ghost prev = out@.map_values(|x: UserStoryBox| x@);
                        out.push(e);
                        proof {
                            assert(out@.map_values(|x: UserStoryBox| x@) =~= prev.push(e@));
                        }
                    },
                    None => {},
                }
            }
            i = i + 1;
        }
        Response { message: "Data was obtained successfully", content: Some(out), error_bug: None }
    }

    /// Decides what a cell update does: an index aimed at one of the two
    /// packed-list columns asks for a read-modify-write of that cell; a
    /// request without an index is a plain overwrite; an index aimed
    /// anywhere else does nothing.
    pub fn update(data: &SpecificPatch) -> (r: UpdateAction)
        ensures
            ({
                let packed = contains_seq(data.cell@, "AA"@) || contains_seq(data.cell@, "AB"@);
                if packed && data.index is Some {
                    r matches UpdateAction::PackedReadModifyWrite { range } && range@ == span_view(
                        "Projects"@,
                        data.cell@,
                        data.cell@,
                    )
                } else if data.index is None {
                    r matches UpdateAction::WholeCell { plan } && plan.range@ == span_view(
                        "Projects"@,
                        data.cell@,
                        data.cell@,
                    ) && plan.values@.len() == 1 && plan.values@[0]@ == data.content@
                } else {
                    r is Skip
                }
            }),
    {
        let packed = contains_sub(data.cell.as_str(), "AA") || contains_sub(data.cell.as_str(), "AB");
        let range = column_span(sheet_name(), data.cell.as_str(), data.cell.as_str());
        if packed && data.index.is_some() {
            UpdateAction::PackedReadModifyWrite { range }
        } else if data.index.is_none() {
            let mut values: Vec<String> = Vec::new();
            values.push(String::from_str(data.content.as_str()));
            UpdateAction::WholeCell { plan: RowWrite { range, values } }
        } else {
            UpdateAction::Skip
        }
    }

    /// Applies an indexed overwrite to the current packed cell value (absent
    /// when the cell has never been written): decode, set at the index, and
    /// re-encode.
    pub fn apply_set_at(current: Option<&String>, index: usize, content: &String) -> (r: String)
        ensures
            r@ == encode_packed(
                set_at_spec(
                    match current {
                        Some(c) => decode_packed(c@),
                        None => Seq::empty(),
                    },
                    index as int,
                    content@,
                ),
            ),
    {
        let list = match current {
            Some(c) => convert_pattern_to_vec(c.as_str()),
            None => Vec::new(),
        };
        proof {
            match current {
                Some(c) => {
                    assert(list.deep_view() == decode_packed(c@));
                },
                None => {
                    assert(list.deep_view() =~~= Seq::<Seq<Seq<char>>>::empty());
                },
            }
        }
        let updated = set_at(list, index, content.as_str());
        convert_pattern_to_string(updated)
    }

    /// Decides what a range delete does: an index with both corners in one
    /// of the two packed-list columns asks for a read-modify-write of that
    /// range; anything else is a whole-range clear.
    pub fn delete(data: &SpecificDataRange) -> (r: DeleteAction)
        ensures
            ({
                let packed = (contains_seq(data.range.0@, "AA"@) && contains_seq(
                    data.range.1@,
                    "AA"@,
                )) || (contains_seq(data.range.0@, "AB"@) && contains_seq(data.range.1@, "AB"@));
                let rv = span_view("Projects"@, data.range.0@, data.range.1@);
                if packed && data.index is Some {
                    r matches DeleteAction::PackedReadModifyWrite { range } && range@ == rv
                } else {
                    r matches DeleteAction::Clear { range } && range@ == rv
                }
            }),
    {
        let in_aa = contains_sub(data.range.0.as_str(), "AA") && contains_sub(
            data.range.1.as_str(),
            "AA",
        );
        let in_ab = contains_sub(data.range.0.as_str(), "AB") && contains_sub(
            data.range.1.as_str(),
            "AB",
        );
        let range = column_span(sheet_name(), data.range.0.as_str(), data.range.1.as_str());
        if (in_aa || in_ab) && data.index.is_some() {
            DeleteAction::PackedReadModifyWrite { range }
        } else {
            DeleteAction::Clear { range }
        }
    }

    /// Applies an indexed delete to the current packed cell value: decode,
    /// drop every entry carrying the index, and re-encode without
    /// renumbering the survivors.
    pub fn apply_remove_at(current: Option<&String>, index: i64) -> (r: String)
        ensures
            r@ == encode_packed(
                remove_at_spec(
                    match current {
                        Some(c) => decode_packed(c@),
                        None => Seq::empty(),
                    },
                    index as int,
                ),
            ),
    {
        let list = match current {
            Some(c) => convert_pattern_to_vec(c.as_str()),
            None => Vec::new(),
        };
        proof {
            match current {
                Some(c) => {
                    assert(list.deep_view() == decode_packed(c@));
                },
                None => {
                    assert(list.deep_view() =~~= Seq::<Seq<Seq<char>>>::empty());
                },
            }
        }
        let removed = remove_at(list, index);
        convert_pattern_to_string(removed)
    }
}

} // verus!
