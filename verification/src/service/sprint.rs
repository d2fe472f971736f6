//! The sprint record store: planning and decoding for the sprint band.

use vstd::prelude::*;

use crate::addr::{column_range, column_span, loc_view, range_view, row_location, span_view,
    FormatError};
use crate::grid::{cell_at, cell_get, cell_text, resolved_id_spec, row_live, row_matches_parent};
use crate::model::response::Response;
use crate::model::spreadsheet::{DataRange, Patch, RowWrite};
use crate::model::sprint::{InsertSprint, Sprint, SprintView};
use crate::num::{dec_rep_signed, dec_val, int_literal_val, parses_to_i64};
use crate::registry::{sheet_name, sprint_band};
use crate::text::{digits_of, is_blank_str, str_eq, strip_quotes_str};
use crate::util::{Identificator, Status};
use vstd::string::StringExecFns;

verus! {

/// CRUD planning for the sprint band.
pub struct SprintService;

/// The seed identifier's digit run is the single digit `1`.
proof fn lemma_sprint_seed()
    ensures
        digits_of("S1"@) == seq!['1'],
        dec_val(digits_of("S1"@)) == 1,
{
    reveal_strlit("S1");
    reveal_with_fuel(Seq::filter, 4);
    let s = "S1"@;
    assert(s =~= seq!['S', '1']);
    assert(seq!['S', '1'].drop_last() =~= seq!['S']);
    assert(seq!['S'].drop_last() =~= Seq::<char>::empty());
    assert(seq!['S'].filter(crate::text::digit_pred()) =~= Seq::<char>::empty());
    assert(seq!['S', '1'].filter(crate::text::digit_pred()) =~= seq!['1']);
    assert(digits_of(s) == seq!['1']);
    assert(dec_val(seq!['1']) == 1) by {
        assert(seq!['1'].drop_last() =~= Seq::<char>::empty());
        assert(dec_val(Seq::<char>::empty()) == 0);
        assert(seq!['1'].last() == '1');
        assert(crate::num::digit_val('1') == 1);
        assert(dec_val(seq!['1']) == dec_val(seq!['1'].drop_last()) * 10 + crate::num::digit_val(
            '1',
        ));
    }
}

/// Whether a read keeps a band row: a live identifier and a matching project.
pub open spec fn sprint_row_kept(row: Seq<Option<Seq<char>>>, pid: Seq<char>) -> bool {
    row_live(row) && row_matches_parent(row, pid)
}

/// The record decoded from one band row, if every required field decodes;
/// a row that does not decode is dropped from reads, never an error.
pub open spec fn sprint_of_row(row: Seq<Option<Seq<char>>>, idx: int) -> Option<SprintView> {
    if cell_at(row, 0) is Some && cell_at(row, 1) is Some && cell_at(row, 2) is Some && cell_at(
        row,
        3,
    ) is Some && cell_at(row, 4) is Some && cell_at(row, 5) is Some && cell_at(row, 6) is Some
        && cell_at(row, 7) is Some && cell_at(row, 8) is Some && cell_at(row, 9) is Some
        && cell_at(row, 10) is Some && cell_at(row, 11) is Some && cell_at(row, 12) is Some
        && cell_at(row, 13) is Some {
        let st = Status::spec_of_text(cell_at(row, 8)->0);
        let ep = cell_at(row, 7)->0;
        let co = cell_at(row, 9)->0;
        let sd = cell_at(row, 10)->0;
        let ed = cell_at(row, 11)->0;
        let ca = cell_at(row, 12)->0;
        let ua = cell_at(row, 13)->0;
        if st is Some && parses_to_i64(ep) && parses_to_i64(co) && parses_to_i64(sd)
            && parses_to_i64(ed) && parses_to_i64(ca) && parses_to_i64(ua) {
            Some(
                SprintView {
                    id: cell_at(row, 0)->0,
                    project_id: cell_at(row, 1)->0,
                    epic_id: cell_at(row, 2)->0,
                    denomination: cell_at(row, 3)->0,
                    description: Some(cell_at(row, 4)->0),
                    goal: cell_at(row, 5)->0,
                    owner: cell_at(row, 6)->0,
                    estimated_points: int_literal_val(ep),
                    status: st->0,
                    completed_at: int_literal_val(co),
                    start_date: int_literal_val(sd),
                    end_date: int_literal_val(ed),
                    created_at: int_literal_val(ca),
                    updated_at: int_literal_val(ua),
                    row: loc_view("AR"@, "BE"@, idx),
                },
            )
        } else {
            None
        }
    } else {
        None
    }
}

/// The records the first `n` band rows yield for one project, in row order.
pub open spec fn sprint_rows_upto(
    rows: Seq<Seq<Option<Seq<char>>>>,
    pid: Seq<char>,
    n: int,
) -> Seq<SprintView>
    decreases n,
{
    if n <= 0 {
        Seq::empty()
    } else {
        let head = sprint_rows_upto(rows, pid, n - 1);
        if sprint_row_kept(rows[n - 1], pid) {
            match sprint_of_row(rows[n - 1], n - 1) {
                Some(e) => head.push(e),
                None => head,
            }
        } else {
            head
        }
    }
}


/// A band row with a blank identifier cell is excluded from read results:
/// it reads the same as an empty row in that slot.
pub proof fn lemma_blank_row_dropped_from_read(
    rows: Seq<Seq<Option<Seq<char>>>>,
    pid: Seq<char>,
    k: int,
    n: int,
)
    requires
        0 <= k < rows.len(),
        n <= rows.len(),
        !row_live(rows[k]),
    ensures
        sprint_rows_upto(rows, pid, n) == sprint_rows_upto(
            rows.update(k, Seq::empty()),
            pid,
            n,
        ),
    decreases n,
{
    if n > 0 {
        lemma_blank_row_dropped_from_read(rows, pid, k, n - 1);
        let r2 = rows.update(k, Seq::<Option<Seq<char>>>::empty());
        if n - 1 == k {
            assert(!row_live(rows[k]));
            assert(cell_text(r2[k], 0) =~= Seq::<char>::empty());
            assert(!row_live(r2[k]));
        } else {
            assert(rows[n - 1] == r2[n - 1]);
        }
    }
}

/// Decodes one band row into a sprint, dropping the row when any required
/// field is missing or malformed.
fn decode_sprint_row(row: &Vec<Option<String>>, idx: usize) -> (r: Option<Sprint>)
    ensures
        r is Some <==> sprint_of_row(row.deep_view(), idx as int) is Some,
        r is Some ==> sprint_of_row(row.deep_view(), idx as int) == Some(r->0@),
{
    let c0 = cell_get(row, 0);
    let c1 = cell_get(row, 1);
    let c2 = cell_get(row, 2);
    let c3 = cell_get(row, 3);
    let c4 = cell_get(row, 4);
    let c5 = cell_get(row, 5);
    let c6 = cell_get(row, 6);
    let c7 = cell_get(row, 7);
    let c8 = cell_get(row, 8);
    let c9 = cell_get(row, 9);
    let c10 = cell_get(row, 10);
    let c11 = cell_get(row, 11);
    let c12 = cell_get(row, 12);
    let c13 = cell_get(row, 13);
    if c0.is_none() || c1.is_none() || c2.is_none() || c3.is_none() || c4.is_none()
        || c5.is_none() || c6.is_none() || c7.is_none() || c8.is_none() || c9.is_none()
        || c10.is_none() || c11.is_none() || c12.is_none() || c13.is_none() {
        return None;
    }
    let id = c0.unwrap();
    let pid = c1.unwrap();
    let eid = c2.unwrap();
    let denomination = c3.unwrap();
    let description = c4.unwrap();
    let goal = c5.unwrap();
    let owner = c6.unwrap();
    let st = match Status::from_str(c8.unwrap().as_str()) {
        Ok(s) => s,
        Err(_) => {
            return None;
        },
    };
    let ep = match crate::num::parse_i64(c7.unwrap().as_str()) {
        Some(v) => v,
        None => {
            return None;
        },
    };
    let co = match crate::num::parse_i64(c9.unwrap().as_str()) {
        Some(v) => v,
        None => {
            return None;
        },
    };
    let sd = match crate::num::parse_i64(c10.unwrap().as_str()) {
        Some(v) => v,
        None => {
            return None;
        },
    };
    let ed = match crate::num::parse_i64(c11.unwrap().as_str()) {
        Some(v) => v,
        None => {
            return None;
        },
    };
    let ca = match crate::num::parse_i64(c12.unwrap().as_str()) {
        Some(v) => v,
        None => {
            return None;
        },
    };
    let ua = match crate::num::parse_i64(c13.unwrap().as_str()) {
        Some(v) => v,
        None => {
            return None;
        },
    };
    let band = sprint_band();
    Some(
        Sprint {
            id: String::from_str(id.as_str()),
            project_id: String::from_str(pid.as_str()),
            epic_id: String::from_str(eid.as_str()),
            denomination: String::from_str(denomination.as_str()),
            description: Some(String::from_str(description.as_str())),
            goal: String::from_str(goal.as_str()),
            owner: String::from_str(owner.as_str()),
            estimated_points: ep,
            status: st,
            completed_at: co,
            start_date: sd,
            end_date: ed,
            created_at: ca,
            updated_at: ua,
            row: row_location(band.first_col, band.read_last_col, idx as u64),
        },
    )
}

impl SprintService {
    /// The range to read for the allocator scan: the identifier and parent
    /// columns of the whole band.
    pub fn allocator_read_range() -> (r: String)
        ensures
            r@ == span_view("Projects"@, "AR"@, "AS"@),
    {
        let band = sprint_band();
        column_span(sheet_name(), band.id_col, band.parent_col)
    }

    /// The range to read for a band scan: every column of the band.
    pub fn band_read_range() -> (r: String)
        ensures
            r@ == span_view("Projects"@, "AR"@, "BE"@),
    {
        let band = sprint_band();
        column_span(sheet_name(), band.first_col, band.read_last_col)
    }

    /// Plans the append that creates a sprint: allocates the identifier from
    /// the band read (seeding `S1` for a project's first sprint, keeping the
    /// `<prefix><number>` convention), addresses the row the identifier's
    /// number names, and lays the fields out in band order; a missing
    /// description writes as empty text, and `updated_at` starts equal to
    /// `created_at`.
    pub fn create(data: &InsertSprint, band_rows: &Vec<Vec<Option<String>>>) -> (r: Result<
        RowWrite,
        FormatError,
    >)
        ensures
            r is Ok <==> resolved_id_spec(band_rows.deep_view(), data.project_id@, "S1"@) is Ok,
            r is Ok ==> ({
                let id = resolved_id_spec(band_rows.deep_view(), data.project_id@, "S1"@)->Ok_0;
                let idx = dec_val(digits_of(id));
                &&& r->Ok_0.range@ == range_view("Projects"@, "AR"@, "BE"@, idx)
                &&& r->Ok_0.values@.len() == 14
                &&& r->Ok_0.values@[0]@ == id
                &&& r->Ok_0.values@[1]@ == data.project_id@
                &&& r->Ok_0.values@[2]@ == data.epic_id@
                &&& r->Ok_0.values@[3]@ == data.denomination@
                &&& r->Ok_0.values@[4]@ == (match data.description {
                    Some(ref d) => d@,
                    None => Seq::<char>::empty(),
                })
                &&& r->Ok_0.values@[5]@ == data.goal@
                &&& r->Ok_0.values@[6]@ == data.owner@
                &&& r->Ok_0.values@[7]@ == dec_rep_signed(data.estimated_points as int)
                &&& r->Ok_0.values@[8]@ == data.status.spec_text()
                &&& r->Ok_0.values@[9]@ == dec_rep_signed(data.completed_at as int)
                &&& r->Ok_0.values@[10]@ == dec_rep_signed(data.start_date as int)
                &&& r->Ok_0.values@[11]@ == dec_rep_signed(data.end_date as int)
                &&& r->Ok_0.values@[12]@ == dec_rep_signed(data.created_at as int)
                &&& r->Ok_0.values@[13]@ == dec_rep_signed(data.created_at as int)
            }),
    {
        proof {
            lemma_sprint_seed();
        }
        let band = sprint_band();
        let (id, idx) = match crate::grid::resolve_id(band_rows, &data.project_id, band.seed) {
            Ok(p) => p,
            Err(e) => {
                return Err(e);
            },
        };
        let range = column_range(sheet_name(), band.first_col, band.last_col, idx);
        let stamp = crate::text::chars_to_string(&crate::num::fmt_i64(data.created_at));
        let description = match &data.description {
            Some(d) => String::from_str(d.as_str()),
            None => String::new(),
        };
        let mut values: Vec<String> = Vec::new();
        values.push(id);
        values.push(String::from_str(data.project_id.as_str()));
        values.push(String::from_str(data.epic_id.as_str()));
        values.push(String::from_str(data.denomination.as_str()));
        values.push(description);
        values.push(String::from_str(data.goal.as_str()));
        values.push(String::from_str(data.owner.as_str()));
        values.push(crate::text::chars_to_string(&crate::num::fmt_i64(data.estimated_points)));
        values.push(String::from_str(data.status.text()));
        values.push(crate::text::chars_to_string(&crate::num::fmt_i64(data.completed_at)));
        values.push(crate::text::chars_to_string(&crate::num::fmt_i64(data.start_date)));
        values.push(crate::text::chars_to_string(&crate::num::fmt_i64(data.end_date)));
        values.push(String::from_str(stamp.as_str()));
        values.push(stamp);
        Ok(RowWrite { range, values })
    }

    /// Decodes a band read into the sprints of one project, dropping rows
    /// with blank identifiers and rows that fail to decode; a read that
    /// matches nothing yields a success envelope around an empty list.
    pub fn read(values: &Vec<Vec<Option<String>>>, param: &Identificator) -> (r: Response<Sprint>)
        ensures
            r.message@ == "Data was obtained successfully"@,
            r.error_bug is None,
            r.content is Some,
            r.content->0@.map_values(|e: Sprint| e@) == sprint_rows_upto(
                values.deep_view(),
                param.id@,
                values.deep_view().len() as int,
            ),
    {
        let ghost dv = values.deep_view();
        let mut out: Vec<Sprint> = Vec::new();
        proof {
            assert(dv.len() == values@.len());
            assert(out@.map_values(|e: Sprint| e@) =~= sprint_rows_upto(dv, param.id@, 0));
        }
        let mut i: usize = 0;
        while i < values.len()
            invariant
                dv == values.deep_view(),
                dv.len() == values@.len(),
                i <= values@.len(),
                out@.map_values(|e: Sprint| e@) == sprint_rows_upto(dv, param.id@, i as int),
            decreases values@.len() - i,
        {
            proof {
                assert(values@[i as int].deep_view() == dv[i as int]);
            }
            let row = &values[i];
            let c0 = crate::grid::cell_str(row, 0);
            let live = !is_blank_str(c0);
            let matched = if live {
                let c1 = crate::grid::cell_str(row, 1);
                let a = strip_quotes_str(c1);
                let b = strip_quotes_str(param.id.as_str());
                str_eq(a.as_str(), b.as_str())
            } else {
                false
            };
            if matched {
                match decode_sprint_row(row, i) {
                    Some(e) => {
                        let ghost prev = out@.map_values(|x: Sprint| x@);
                        out.push(e);
                        proof {
                            assert(out@.map_values(|x: Sprint| x@) =~= prev.push(e@));
                        }
                    },
                    None => {},
                }
            }
            i = i + 1;
        }
        Response { message: "Data was obtained successfully", content: Some(out), error_bug: None }
    }

    /// Plans a whole-cell overwrite: the content, addressed at its cell.
    pub fn update(data: &Patch) -> (r: RowWrite)
        ensures
            r.range@ == span_view("Projects"@, data.cell@, data.cell@),
            r.values@.len() == 1,
            r.values@[0]@ == data.content@,
    {
        let range = column_span(sheet_name(), data.cell.as_str(), data.cell.as_str());
        let mut values: Vec<String> = Vec::new();
        values.push(String::from_str(data.content.as_str()));
        RowWrite { range, values }
    }

    /// Plans a whole-range clear: the range string to blank out.
    pub fn delete(data: &DataRange) -> (r: String)
        ensures
            r@ == span_view("Projects"@, data.range.0@, data.range.1@),
    {
        column_span(sheet_name(), data.range.0.as_str(), data.range.1.as_str())
    }
}

} // verus!
