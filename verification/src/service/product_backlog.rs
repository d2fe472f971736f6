//! The backlog-item record store: planning and decoding for the backlog band.

use vstd::prelude::*;

use crate::addr::{column_range, column_span, loc_view, range_view, row_location, span_view,
    FormatError};
use crate::grid::{cell_at, cell_get, cell_text, resolved_id_spec, row_live, row_matches_parent};
use crate::model::product_backlog::{InsertProductBacklogItem, ItemType, ProductBacklogItem,
    ProductBacklogItemView};
use crate::model::response::Response;
use crate::model::spreadsheet::{DataRange, Patch, RowWrite};
use crate::num::{dec_rep_signed, dec_val, int_literal_val, parses_to_i64};
use crate::registry::{product_backlog_band, sheet_name};
use crate::text::{digits_of, is_blank_str, str_eq, strip_quotes_str};
use crate::util::Identificator;
use vstd::string::StringExecFns;

verus! {

/// CRUD planning for the product-backlog band.
pub struct ProductBacklogService;

/// The seed identifier's digit run is the single digit `1`.
proof fn lemma_backlog_seed()
    ensures
        digits_of("PB1"@) == seq!['1'],
        dec_val(digits_of("PB1"@)) == 1,
{
    reveal_strlit("PB1");
    reveal_with_fuel(Seq::filter, 5);
    let s = "PB1"@;
    assert(s =~= seq!['P', 'B', '1']);
    assert(seq!['P', 'B', '1'].drop_last() =~= seq!['P', 'B']);
    assert(seq!['P', 'B'].drop_last() =~= seq!['P']);
    assert(seq!['P'].drop_last() =~= Seq::<char>::empty());
    assert(seq!['P'].filter(crate::text::digit_pred()) =~= Seq::<char>::empty());
    assert(seq!['P', 'B'].filter(crate::text::digit_pred()) =~= Seq::<char>::empty());
    assert(seq!['P', 'B', '1'].filter(crate::text::digit_pred()) =~= seq!['1']);
    assert(digits_of(s) == seq!['1']);
    assert(dec_val(seq!['1']) == 1) by {
        assert(seq!['1'].drop_last() =~= Seq::<char>::empty());
        assert(dec_val(Seq::<char>::empty()) == 0);
        assert(seq!['1'].last() == '1');
        assert(crate::num::digit_val('1') == 1);
        assert(dec_val(seq!['1']) == dec_val(seq!['1'].drop_last()) * 10 + crate::num::digit_val(
            '1',
        ));
    }
}

/// Whether a read keeps a band row: a live identifier and a matching project.
pub open spec fn backlog_row_kept(row: Seq<Option<Seq<char>>>, pid: Seq<char>) -> bool {
    row_live(row) && row_matches_parent(row, pid)
}

/// The record decoded from one band row, if every required field decodes;
/// a row that does not decode is dropped from reads, never an error.
pub open spec fn backlog_of_row(row: Seq<Option<Seq<char>>>, idx: int) -> Option<
    ProductBacklogItemView,
> {
    if cell_at(row, 0) is Some && cell_at(row, 1) is Some && cell_at(row, 2) is Some && cell_at(
        row,
        3,
    ) is Some && cell_at(row, 4) is Some && cell_at(row, 5) is Some && cell_at(row, 6) is Some
        && cell_at(row, 7) is Some && cell_at(row, 8) is Some && cell_at(row, 9) is Some
        && cell_at(row, 10) is Some {
        let kd = ItemType::spec_of_text(cell_at(row, 7)->0);
        let pts = cell_at(row, 6)->0;
        let aa = cell_at(row, 8)->0;
        let ca = cell_at(row, 9)->0;
        let ua = cell_at(row, 10)->0;
        if kd is Some && parses_to_i64(pts) && parses_to_i64(aa) && parses_to_i64(ca)
            && parses_to_i64(ua) {
            Some(
                ProductBacklogItemView {
                    id: cell_at(row, 0)->0,
                    project_id: cell_at(row, 1)->0,
                    epic_id: cell_at(row, 2)->0,
                    title: cell_at(row, 3)->0,
                    priority: cell_at(row, 4)->0,
                    description: Some(cell_at(row, 5)->0),
                    points: Some(int_literal_val(pts)),
                    kind: kd->0,
                    assigned_at: int_literal_val(aa),
                    created_at: int_literal_val(ca),
                    updated_at: int_literal_val(ua),
                    row: loc_view("AF"@, "AP"@, idx),
                },
            )
        } else {
            None
        }
    } else {
        None
    }
}

/// The records the first `n` band rows yield for one project, in row order.
pub open spec fn backlog_rows_upto(
    rows: Seq<Seq<Option<Seq<char>>>>,
    pid: Seq<char>,
    n: int,
) -> Seq<ProductBacklogItemView>
    decreases n,
{
    if n <= 0 {
        Seq::empty()
    } else {
        let head = backlog_rows_upto(rows, pid, n - 1);
        if backlog_row_kept(rows[n - 1], pid) {
            match backlog_of_row(rows[n - 1], n - 1) {
                Some(e) => head.push(e),
                None => head,
            }
        } else {
            head
        }
    }
}


/// A band row with a blank identifier cell is excluded from read results:
/// it reads the same as an empty row in that slot.
pub proof fn lemma_blank_row_dropped_from_read(
    rows: Seq<Seq<Option<Seq<char>>>>,
    pid: Seq<char>,
    k: int,
    n: int,
)
    requires
        0 <= k < rows.len(),
        n <= rows.len(),
        !row_live(rows[k]),
    ensures
        backlog_rows_upto(rows, pid, n) == backlog_rows_upto(
            rows.update(k, Seq::empty()),
            pid,
            n,
        ),
    decreases n,
{
    if n > 0 {
        lemma_blank_row_dropped_from_read(rows, pid, k, n - 1);
        let r2 = rows.update(k, Seq::<Option<Seq<char>>>::empty());
        if n - 1 == k {
            assert(!row_live(rows[k]));
            assert(cell_text(r2[k], 0) =~= Seq::<char>::empty());
            assert(!row_live(r2[k]));
        } else {
            assert(rows[n - 1] == r2[n - 1]);
        }
    }
}

/// Decodes one band row into a backlog item, dropping the row when any
/// required field is missing or malformed.
fn decode_backlog_row(row: &Vec<Option<String>>, idx: usize) -> (r: Option<ProductBacklogItem>)
    ensures
        r is Some <==> backlog_of_row(row.deep_view(), idx as int) is Some,
        r is Some ==> backlog_of_row(row.deep_view(), idx as int) == Some(r->0@),
{
    let c0 = cell_get(row, 0);
    let c1 = cell_get(row, 1);
    let c2 = cell_get(row, 2);
    let c3 = cell_get(row, 3);
    let c4 = cell_get(row, 4);
    let c5 = cell_get(row, 5);
    let c6 = cell_get(row, 6);
    let c7 = cell_get(row, 7);
    let c8 = cell_get(row, 8);
    let c9 = cell_get(row, 9);
    let c10 = cell_get(row, 10);
    match (c0, c1, c2, c3, c4, c5, c6, c7, c8, c9, c10) {
        (
            Some(id),
            Some(pid),
            Some(eid),
            Some(title),
            Some(priority),
            Some(description),
            Some(points),
            Some(kind),
            Some(assigned),
            Some(created),
            Some(updated),
        ) => {
            let kd = match ItemType::from_str(kind.as_str()) {
                Ok(k) => k,
                Err(_) => {
                    return None;
                },
            };
            let pts = match crate::num::parse_i64(points.as_str()) {
                Some(v) => v,
                None => {
                    return None;
                },
            };
            let aa = match crate::num::parse_i64(assigned.as_str()) {
                Some(v) => v,
                None => {
                    return None;
                },
            };
            let ca = match crate::num::parse_i64(created.as_str()) {
                Some(v) => v,
                None => {
                    return None;
                },
            };
            let ua = match crate::num::parse_i64(updated.as_str()) {
                Some(v) => v,
                None => {
                    return None;
                },
            };
            let band = product_backlog_band();
            Some(
                ProductBacklogItem {
                    id: String::from_str(id.as_str()),
                    project_id: String::from_str(pid.as_str()),
                    epic_id: String::from_str(eid.as_str()),
                    title: String::from_str(title.as_str()),
                    priority: String::from_str(priority.as_str()),
                    description: Some(String::from_str(description.as_str())),
                    points: Some(pts),
                    kind: kd,
                    assigned_at: aa,
                    created_at: ca,
                    updated_at: ua,
                    row: row_location(band.first_col, band.read_last_col, idx as u64),
                },
            )
        },
        _ => None,
    }
}

impl ProductBacklogService {
    /// The range to read for the allocator scan: the identifier and parent
    /// columns of the whole band.
    pub fn allocator_read_range() -> (r: String)
        ensures
            r@ == span_view("Projects"@, "AF"@, "AG"@),
    {
        let band = product_backlog_band();
        column_span(sheet_name(), band.id_col, band.parent_col)
    }

    /// The range to read for a band scan: every column of the band.
    pub fn band_read_range() -> (r: String)
        ensures
            r@ == span_view("Projects"@, "AF"@, "AP"@),
    {
        let band = product_backlog_band();
        column_span(sheet_name(), band.first_col, band.read_last_col)
    }

    /// Plans the append that creates a backlog item: allocates the identifier
    /// from the band read (seeding `PB1` for a project's first item),
    /// addresses the row the identifier's number names, and lays the fields
    /// out in band order; a missing description writes as empty text, missing
    /// points write as `0`, and `updated_at` starts equal to `created_at`.
    pub fn create(data: &InsertProductBacklogItem, band_rows: &Vec<Vec<Option<String>>>) -> (r:
        Result<RowWrite, FormatError>)
        ensures
            r is Ok <==> resolved_id_spec(band_rows.deep_view(), data.project_id@, "PB1"@) is Ok,
            r is Ok ==> ({
                let id = resolved_id_spec(band_rows.deep_view(), data.project_id@, "PB1"@)->Ok_0;
                let idx = dec_val(digits_of(id));
                &&& r->Ok_0.range@ == range_view("Projects"@, "AF"@, "AP"@, idx)
                &&& r->Ok_0.values@.len() == 11
                &&& r->Ok_0.values@[0]@ == id
                &&& r->Ok_0.values@[1]@ == data.project_id@
                &&& r->Ok_0.values@[2]@ == data.epic_id@
                &&& r->Ok_0.values@[3]@ == data.title@
                &&& r->Ok_0.values@[4]@ == data.priority@
                &&& r->Ok_0.values@[5]@ == (match data.description {
                    Some(ref d) => d@,
                    None => Seq::<char>::empty(),
                })
                &&& r->Ok_0.values@[6]@ == (match data.points {
                    Some(p) => dec_rep_signed(p as int),
                    None => dec_rep_signed(0),
                })
                &&& r->Ok_0.values@[7]@ == data.kind.spec_text()
                &&& r->Ok_0.values@[8]@ == dec_rep_signed(data.assigned_at as int)
                &&& r->Ok_0.values@[9]@ == dec_rep_signed(data.created_at as int)
                &&& r->Ok_0.values@[10]@ == dec_rep_signed(data.created_at as int)
            }),
    {
        proof {
            lemma_backlog_seed();
        }
        let band = product_backlog_band();
        let (id, idx) = match crate::grid::resolve_id(band_rows, &data.project_id, band.seed) {
            Ok(p) => p,
            Err(e) => {
                return Err(e);
            },
        };
        let range = column_range(sheet_name(), band.first_col, band.last_col, idx);
        let stamp = crate::text::chars_to_string(&crate::num::fmt_i64(data.created_at));
        let description = match &data.description {
            Some(d) => String::from_str(d.as_str()),
            None => String::new(),
        };
        let points = match data.points {
            Some(p) => crate::text::chars_to_string(&crate::num::fmt_i64(p)),
            None => crate::text::chars_to_string(&crate::num::fmt_i64(0)),
        };
        let mut values: Vec<String> = Vec::new();
        values.push(id);
        values.push(String::from_str(data.project_id.as_str()));
        values.push(String::from_str(data.epic_id.as_str()));
        values.push(String::from_str(data.title.as_str()));
        values.push(String::from_str(data.priority.as_str()));
        values.push(description);
        values.push(points);
        values.push(String::from_str(data.kind.text()));
        values.push(crate::text::chars_to_string(&crate::num::fmt_i64(data.assigned_at)));
        values.push(String::from_str(stamp.as_str()));
        values.push(stamp);
        Ok(RowWrite { range, values })
    }

    /// Decodes a band read into the backlog items of one project, dropping
    /// rows with blank identifiers and rows that fail to decode; a read that
    /// matches nothing yields a success envelope around an empty list.
    pub fn read(values: &Vec<Vec<Option<String>>>, param: &Identificator) -> (r: Response<
        ProductBacklogItem,
    >)
        ensures
            r.message@ == "Data was obtained successfully"@,
            r.error_bug is None,
            r.content is Some,
            r.content->0@.map_values(|e: ProductBacklogItem| e@) == backlog_rows_upto(
                values.deep_view(),
                param.id@,
                values.deep_view().len() as int,
            ),
    {
        let ghost dv = values.deep_view();
        let mut out: Vec<ProductBacklogItem> = Vec::new();
        proof {
            assert(dv.len() == values@.len());
            assert(out@.map_values(|e: ProductBacklogItem| e@) =~= backlog_rows_upto(
                dv,
                param.id@,
                0,
            ));
        }
        let mut i: usize = 0;
        while i < values.len()
            invariant
                dv == values.deep_view(),
                dv.len() == values@.len(),
                i <= values@.len(),
                out@.map_values(|e: ProductBacklogItem| e@) == backlog_rows_upto(
                    dv,
                    param.id@,
                    i as int,
                ),
            decreases values@.len() - i,
        {
            proof {
                assert(values@[i as int].deep_view() == dv[i as int]);
            }
            let row = &values[i];
            let c0 = crate::grid::cell_str(row, 0);
            let live = !is_blank_str(c0);
            let matched = if live {
                let c1 = crate::grid::cell_str(row, 1);
                let a = strip_quotes_str(c1);
                let b = strip_quotes_str(param.id.as_str());
                str_eq(a.as_str(), b.as_str())
            } else {
                false
            };
            if matched {
                match decode_backlog_row(row, i) {
                    Some(e) => {
                        let ghost prev = out@.map_values(|x: ProductBacklogItem| x@);
                        out.push(e);
                        proof {
                            assert(out@.map_values(|x: ProductBacklogItem| x@) =~= prev.push(e@));
                        }
                    },
                    None => {},
                }
            }
            i = i + 1;
        }
        Response { message: "Data was obtained successfully", content: Some(out), error_bug: None }
    }

    /// Plans a whole-cell overwrite: the content, addressed at its cell.
    pub fn update(data: &Patch) -> (r: RowWrite)
        ensures
            r.range@ == span_view("Projects"@, data.cell@, data.cell@),
            r.values@.len() == 1,
            r.values@[0]@ == data.content@,
    {
        let range = column_span(sheet_name(), data.cell.as_str(), data.cell.as_str());
        let mut values: Vec<String> = Vec::new();
        values.push(String::from_str(data.content.as_str()));
        RowWrite { range, values }
    }

    /// Plans a whole-range clear: the range string to blank out.
    pub fn delete(data: &DataRange) -> (r: String)
        ensures
            r@ == span_view("Projects"@, data.range.0@, data.range.1@),
    {
        column_span(sheet_name(), data.range.0.as_str(), data.range.1.as_str())
    }
}

} // verus!
