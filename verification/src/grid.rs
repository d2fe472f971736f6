//! The grid model shared by the allocator and the record stores: a band read
//! is a sequence of rows, each a sequence of optional cell texts (a missing
//! or non-text cell is `None`), and the identifier allocator scans one.

use vstd::prelude::*;

use crate::addr::FormatError;
use crate::num::{dec_rep, dec_val, fmt_i64};
use crate::text::{
    alpha_of, digits_of, is_blank, is_blank_str, lemma_filter_push, str_eq, str_to_chars,
    strip_quotes, strip_quotes_str,
};
use vstd::string::StringExecFns;

verus! {

/// The text of cell `j`, treating missing cells and non-text cells as empty.
pub open spec fn cell_text(row: Seq<Option<Seq<char>>>, j: int) -> Seq<char> {
    if 0 <= j < row.len() && row[j] is Some {
        row[j]->0
    } else {
        Seq::empty()
    }
}

/// The cell `j` itself, `None` when missing.
pub open spec fn cell_at(row: Seq<Option<Seq<char>>>, j: int) -> Option<Seq<char>> {
    if 0 <= j < row.len() {
        row[j]
    } else {
        None
    }
}

/// A band row counts only when its identifier cell is non-blank.
pub open spec fn row_live(row: Seq<Option<Seq<char>>>) -> bool {
    !is_blank(cell_text(row, 0))
}

/// The parent cell matches a wanted parent, both taken without their quote
/// characters.
pub open spec fn row_matches_parent(row: Seq<Option<Seq<char>>>, parent: Seq<char>) -> bool {
    strip_quotes(cell_text(row, 1)) == strip_quotes(parent)
}

/// Whether a row takes part in an allocator scan with the given filter.
pub open spec fn scan_pred(parent: Option<Seq<char>>) -> spec_fn(Seq<Option<Seq<char>>>) -> bool {
    |row: Seq<Option<Seq<char>>>|
        row_live(row) && (parent is Some ==> row_matches_parent(row, parent->0))
}

/// The rows an allocator scan keeps, in order.
pub open spec fn scan_spec(
    rows: Seq<Seq<Option<Seq<char>>>>,
    parent: Option<Seq<char>>,
) -> Seq<Seq<Option<Seq<char>>>> {
    rows.filter(scan_pred(parent))
}

/// What the allocator answers: the sentinel `"null"` when no row survives
/// the scan, else the last surviving identifier with its number incremented;
/// a format error when that identifier has no digits or its number cannot
/// be incremented within an `i32`.
pub open spec fn next_id_spec(
    rows: Seq<Seq<Option<Seq<char>>>>,
    parent: Option<Seq<char>>,
) -> Result<Seq<char>, FormatError> {
    let kept = scan_spec(rows, parent);
    if kept.len() == 0 {
        Ok("null"@)
    } else {
        let last = strip_quotes(cell_text(kept.last(), 0));
        if digits_of(last).len() > 0 && dec_val(digits_of(last)) < i32::MAX {
            Ok(alpha_of(last) + dec_rep(dec_val(digits_of(last)) + 1))
        } else {
            Err(FormatError)
        }
    }
}

/// The identifier a new record gets: the allocator's answer, with the
/// band's seed identifier substituted for the sentinel `"null"`.
pub open spec fn resolved_id_spec(
    rows: Seq<Seq<Option<Seq<char>>>>,
    parent: Seq<char>,
    seed: Seq<char>,
) -> Result<Seq<char>, FormatError> {
    match next_id_spec(rows, Some(parent)) {
        Ok(idr) => Ok(
            if idr == "null"@ {
                seed
            } else {
                idr
            },
        ),
        Err(e) => Err(e),
    }
}

/// A band row with a blank identifier cell is excluded from allocator
/// scans: slipping one in anywhere leaves the scan, and so the allocated
/// identifier, unchanged.
pub proof fn lemma_blank_row_ignored_by_scan(
    a: Seq<Seq<Option<Seq<char>>>>,
    br: Seq<Option<Seq<char>>>,
    b: Seq<Seq<Option<Seq<char>>>>,
    parent: Option<Seq<char>>,
)
    requires
        !row_live(br),
    ensures
        scan_spec(a + seq![br] + b, parent) == scan_spec(a + b, parent),
        next_id_spec(a + seq![br] + b, parent) == next_id_spec(a + b, parent),
{
    let pred = scan_pred(parent);
    Seq::filter_distributes_over_add(a + seq![br], b, pred);
    Seq::filter_distributes_over_add(a, seq![br], pred);
    Seq::filter_distributes_over_add(a, b, pred);
    crate::text::lemma_filter_none(seq![br], pred);
    assert((a + seq![br] + b).filter(pred) =~= (a + b).filter(pred));
}

/// The view of an optional borrowed parent filter.
pub open spec fn parent_view(p: Option<&String>) -> Option<Seq<char>> {
    match p {
        Some(s) => Some(s@),
        None => None,
    }
}

/// The text of cell `j` of a row, missing and non-text cells reading as empty.
pub fn cell_str<'a>(row: &'a Vec<Option<String>>, j: usize) -> (r: &'a str)
    ensures
        r@ == cell_text(row.deep_view(), j as int),
{
    proof {
        reveal_strlit("");
        assert(""@ =~= Seq::<char>::empty());
    }
    if j < row.len() {
        proof {
            assert(row.deep_view()[j as int] == row@[j as int].deep_view());
        }
        match &row[j] {
            Some(s) => s.as_str(),
            None => "",
        }
    } else {
        ""
    }
}

/// The cell `j` of a row, when present and text.
pub fn cell_get<'a>(row: &'a Vec<Option<String>>, j: usize) -> (r: Option<&'a String>)
    ensures
        r is Some ==> cell_at(row.deep_view(), j as int) == Some(r->0@),
        r is None ==> cell_at(row.deep_view(), j as int) is None,
{
    if j < row.len() {
        proof {
            assert(row.deep_view()[j as int] == row@[j as int].deep_view());
        }
        match &row[j] {
            Some(s) => Some(s),
            None => None,
        }
    } else {
        None
    }
}

/// Whether one row survives the allocator's scan.
fn row_kept(row: &Vec<Option<String>>, parent: Option<&String>) -> (r: bool)
    ensures
        r == scan_pred(parent_view(parent))(row.deep_view()),
{
    let c0 = cell_str(row, 0);
    if is_blank_str(c0) {
        return false;
    }
    match parent {
        None => true,
        Some(p) => {
            let c1 = cell_str(row, 1);
            let a = strip_quotes_str(c1);
            let b = strip_quotes_str(p.as_str());
            str_eq(a.as_str(), b.as_str())
        },
    }
}

/// Scans a band read for the identifier to give the next record: `"null"`
/// when no row matches, else the last matching identifier incremented.
pub fn next_id(rows: &Vec<Vec<Option<String>>>, parent: Option<&String>) -> (r: Result<
    String,
    FormatError,
>)
    ensures
        r is Ok <==> next_id_spec(rows.deep_view(), parent_view(parent)) is Ok,
        r is Ok ==> r->Ok_0@ == next_id_spec(rows.deep_view(), parent_view(parent))->Ok_0,
{
    let ghost dv = rows.deep_view();
    let ghost pv = parent_view(parent);
    let ghost pred = scan_pred(pv);
    let mut last_cell: Option<String> = None;
    proof {
        assert(dv.len() == rows@.len());
        assert(dv.subrange(0, 0).filter(pred) =~= Seq::<Seq<Option<Seq<char>>>>::empty());
    }
    let mut i: usize = 0;
    while i < rows.len()
        invariant
            dv == rows.deep_view(),
            dv.len() == rows@.len(),
            i <= rows@.len(),
            pv == parent_view(parent),
            pred == scan_pred(pv),
            last_cell is None <==> dv.subrange(0, i as int).filter(pred).len() == 0,
            last_cell is Some ==> last_cell->0@ == cell_text(
                dv.subrange(0, i as int).filter(pred).last(),
                0,
            ),
        decreases rows@.len() - i,
    {
        proof {
            assert(rows@[i as int].deep_view() == dv[i as int]);
        }
        let row = &rows[i];
        let keep = row_kept(row, parent);
        if keep {
            let c0 = cell_str(row, 0);
            last_cell = Some(String::from_str(c0));
        }
        proof {
            lemma_filter_push(dv.subrange(0, i as int), pred, dv[i as int]);
            assert(dv.subrange(0, i + 1 as int) =~= dv.subrange(0, i as int).push(dv[i as int]));
            if keep {
                assert(dv.subrange(0, i + 1 as int).filter(pred) =~= dv.subrange(
                    0,
                    i as int,
                ).filter(pred).push(dv[i as int]));
            } else {
                assert(dv.subrange(0, i + 1 as int).filter(pred) =~= dv.subrange(
                    0,
                    i as int,
                ).filter(pred));
            }
        }
        i = i + 1;
    }
    proof {
        assert(dv.subrange(0, dv.len() as int) =~= dv);
    }
    match last_cell {
        None => Ok(String::from_str("null")),
        Some(cell) => {
            let stripped = strip_quotes_str(cell.as_str());
            let ghost last = strip_quotes(cell_text(scan_spec(dv, pv).last(), 0));
            proof {
                assert(stripped@ == last);
            }
            match crate::addr::split_prefix_and_number(stripped.as_str()) {
                Err(_) => Err(FormatError),
                Ok((prefix, num)) => {
                    proof {
                        broadcast use vstd::seq_lib::group_filter_ensures;

                        crate::num::lemma_dec_val_nonneg(digits_of(last));
                    }
                    if num == i32::MAX {
                        return Err(FormatError);
                    }
                    let digits = fmt_i64((num + 1) as i64);
                    let mut out = str_to_chars(prefix.as_str());
                    let mut k: usize = 0;
                    while k < digits.len()
                        invariant
                            digits@ == crate::num::dec_rep_signed(num + 1 as int),
                            k <= digits@.len(),
                            out@ == prefix@ + digits@.subrange(0, k as int),
                        decreases digits@.len() - k,
                    {
                        out.push(digits[k]);
                        assert(out@ =~= prefix@ + digits@.subrange(0, k + 1 as int));
                        k = k + 1;
                    }
                    proof {
                        assert(out@ =~= prefix@ + digits@);
                        assert(crate::num::dec_rep_signed(num + 1 as int) == dec_rep(
                            dec_val(digits_of(last)) + 1,
                        ));
                    }
                    Ok(crate::text::chars_to_string(&out))
                },
            }
        },
    }
}

/// An identifier with a digit run splits into its alphabetic prefix and its
/// number, and putting the prefix before the incremented number's rendering
/// gives an identifier whose digit run is exactly that rendering.
pub proof fn lemma_increment_shape(last: Seq<char>)
    requires
        digits_of(last).len() > 0,
    ensures
        ({
            let v = dec_val(digits_of(last));
            &&& v >= 0
            &&& digits_of(alpha_of(last) + dec_rep(v + 1)) == dec_rep(v + 1)
            &&& dec_rep(v + 1).len() >= 1
            &&& dec_val(digits_of(alpha_of(last) + dec_rep(v + 1))) == v + 1
        }),
{
    assert forall|q: int| 0 <= q < digits_of(last).len() implies crate::text::is_digit_char(
        #[trigger] digits_of(last)[q],
    ) by {
        last.lemma_filter_pred(crate::text::digit_pred(), q);
    }
    assert forall|q: int| 0 <= q < alpha_of(last).len() implies crate::text::is_alpha_char(
        #[trigger] alpha_of(last)[q],
    ) by {
        last.lemma_filter_pred(crate::text::alpha_pred(), q);
    }
    let v = dec_val(digits_of(last));
    crate::num::lemma_dec_val_nonneg(digits_of(last));
    crate::num::lemma_dec_rep_digits(v + 1);
    crate::text::lemma_filter_alpha_digit_runs(alpha_of(last), dec_rep(v + 1));
    crate::num::lemma_dec_val_of_rep(v + 1);
}

/// Resolves the identifier and band row number for a new record: runs the
/// allocator over the band read, seeds the first sibling, and extracts the
/// numeric suffix that addresses the row.
pub fn resolve_id(rows: &Vec<Vec<Option<String>>>, parent: &String, seed: &str) -> (r: Result<
    (String, i32),
    FormatError,
>)
    requires
        digits_of(seed@).len() > 0,
        dec_val(digits_of(seed@)) <= i32::MAX,
    ensures
        r is Ok <==> resolved_id_spec(rows.deep_view(), parent@, seed@) is Ok,
        r is Ok ==> ({
            let id = resolved_id_spec(rows.deep_view(), parent@, seed@)->Ok_0;
            r->Ok_0.0@ == id && r->Ok_0.1 == dec_val(digits_of(id))
        }),
{
    match next_id(rows, Some(parent)) {
        Err(_) => Err(FormatError),
        Ok(allocated) => {
            let ghost alloc_view = next_id_spec(rows.deep_view(), Some(parent@))->Ok_0;
            let id = if str_eq(allocated.as_str(), "null") {
                String::from_str(seed)
            } else {
                allocated
            };
            proof {
                if alloc_view != "null"@ {
                    let kept = scan_spec(rows.deep_view(), Some(parent@));
                    assert(kept.len() > 0);
                    let last = strip_quotes(cell_text(kept.last(), 0));
                    lemma_increment_shape(last);
                    assert(id@ == alloc_view);
                }
            }
            let n = crate::util::extract_num(id.as_str());
            Ok((id, n))
        },
    }
}

} // verus!
