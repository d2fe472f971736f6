//! Address algebra: range strings for the backing grid, and splitting an
//! identifier into its alphabetic prefix and numeric suffix.

use vstd::prelude::*;

use crate::num::{
    dec_rep, dec_rep_signed, dec_val, fmt_i64, lemma_dec_val_nonneg, lemma_dec_val_of_rep,
    lemma_dec_val_prefix, lemma_dec_rep_digits,
};
use crate::text::{
    alpha_of, chars_to_string, digits_of, is_alpha_char, is_digit_char,
    lemma_filter_alpha_digit_runs, str_to_chars,
};
use crate::util::extract_string;

verus! {

/// An identifier or packed value did not have the expected shape: no numeric
/// suffix, or a number too large to increment.
#[derive(Debug, Clone, Copy, PartialEq, Eq, Structural)]
pub struct FormatError;

/// `"<sheet>!<c1><row>:<c2><row>"`: one row of the band `c1..c2`.
pub open spec fn range_view(sheet: Seq<char>, c1: Seq<char>, c2: Seq<char>, row: int) -> Seq<
    char,
> {
    sheet + seq!['!'] + c1 + dec_rep_signed(row) + seq![':'] + c2 + dec_rep_signed(row)
}

/// `"<sheet>!<c1>:<c2>"`: the whole vertical span between two columns, or one
/// cell to itself.
pub open spec fn span_view(sheet: Seq<char>, c1: Seq<char>, c2: Seq<char>) -> Seq<char> {
    sheet + seq!['!'] + c1 + seq![':'] + c2
}

/// Builds `"<sheet>!<c1><row>:<c2><row>"`.
pub fn column_range(sheet: &str, c1: &str, c2: &str, row: i32) -> (r: String)
    ensures
        r@ == range_view(sheet@, c1@, c2@, row as int),
{
    let digits = fmt_i64(row as i64);
    let mut out = str_to_chars(sheet);
    out.push('!');
    let mut p1 = str_to_chars(c1);
    let mut k: usize = 0;
    while k < p1.len()
        invariant
            p1@ == c1@,
            k <= p1@.len(),
            out@ == sheet@ + seq!['!'] + c1@.subrange(0, k as int),
        decreases p1@.len() - k,
    {
        out.push(p1[k]);
        assert(out@ =~= sheet@ + seq!['!'] + c1@.subrange(0, k + 1 as int));
        k = k + 1;
    }
    proof {
        assert(out@ =~= sheet@ + seq!['!'] + c1@);
    }
    let mut k: usize = 0;
    while k < digits.len()
        invariant
            digits@ == dec_rep_signed(row as int),
            k <= digits@.len(),
            out@ == sheet@ + seq!['!'] + c1@ + digits@.subrange(0, k as int),
        decreases digits@.len() - k,
    {
        out.push(digits[k]);
        assert(out@ =~= sheet@ + seq!['!'] + c1@ + digits@.subrange(0, k + 1 as int));
        k = k + 1;
    }
    proof {
        assert(out@ =~= sheet@ + seq!['!'] + c1@ + dec_rep_signed(row as int));
    }
    out.push(':');
    let mut p2 = str_to_chars(c2);
    let mut k: usize = 0;
    while k < p2.len()
        invariant
            p2@ == c2@,
            k <= p2@.len(),
            out@ == sheet@ + seq!['!'] + c1@ + dec_rep_signed(row as int) + seq![':']
                + c2@.subrange(0, k as int),
        decreases p2@.len() - k,
    {
        out.push(p2[k]);
        assert(out@ =~= sheet@ + seq!['!'] + c1@ + dec_rep_signed(row as int) + seq![':']
            + c2@.subrange(0, k + 1 as int));
        k = k + 1;
    }
    proof {
        assert(out@ =~= sheet@ + seq!['!'] + c1@ + dec_rep_signed(row as int) + seq![':'] + c2@);
    }
    let mut k: usize = 0;
    while k < digits.len()
        invariant
            digits@ == dec_rep_signed(row as int),
            k <= digits@.len(),
            out@ == sheet@ + seq!['!'] + c1@ + dec_rep_signed(row as int) + seq![':'] + c2@
                + digits@.subrange(0, k as int),
        decreases digits@.len() - k,
    {
        out.push(digits[k]);
        assert(out@ =~= sheet@ + seq!['!'] + c1@ + dec_rep_signed(row as int) + seq![':'] + c2@
            + digits@.subrange(0, k + 1 as int));
        k = k + 1;
    }
    proof {
        assert(out@ =~= range_view(sheet@, c1@, c2@, row as int));
    }
    chars_to_string(&out)
}

/// Builds `"<sheet>!<c1>:<c2>"`.
pub fn column_span(sheet: &str, c1: &str, c2: &str) -> (r: String)
    ensures
        r@ == span_view(sheet@, c1@, c2@),
{
    let mut out = str_to_chars(sheet);
    out.push('!');
    let mut p1 = str_to_chars(c1);
    let mut k: usize = 0;
    while k < p1.len()
        invariant
            p1@ == c1@,
            k <= p1@.len(),
            out@ == sheet@ + seq!['!'] + c1@.subrange(0, k as int),
        decreases p1@.len() - k,
    {
        out.push(p1[k]);
        assert(out@ =~= sheet@ + seq!['!'] + c1@.subrange(0, k + 1 as int));
        k = k + 1;
    }
    proof {
        assert(out@ =~= sheet@ + seq!['!'] + c1@);
    }
    out.push(':');
    let mut p2 = str_to_chars(c2);
    let mut k: usize = 0;
    while k < p2.len()
        invariant
            p2@ == c2@,
            k <= p2@.len(),
            out@ == sheet@ + seq!['!'] + c1@ + seq![':'] + c2@.subrange(0, k as int),
        decreases p2@.len() - k,
    {
        out.push(p2[k]);
        assert(out@ =~= sheet@ + seq!['!'] + c1@ + seq![':'] + c2@.subrange(0, k + 1 as int));
        k = k + 1;
    }
    proof {
        assert(out@ =~= span_view(sheet@, c1@, c2@));
    }
    chars_to_string(&out)
}

/// `"<c1><row>:<c2><row>"`: the location of one band row, without the sheet.
pub open spec fn loc_view(c1: Seq<char>, c2: Seq<char>, idx: int) -> Seq<char>
    recommends
        idx >= 0,
{
    c1 + dec_rep(idx) + seq![':'] + c2 + dec_rep(idx)
}

/// Builds `"<c1><idx>:<c2><idx>"`, the location attached to a read record.
pub fn row_location(c1: &str, c2: &str, idx: u64) -> (r: String)
    ensures
        r@ == loc_view(c1@, c2@, idx as int),
{
    let digits = crate::num::fmt_u64(idx);
    let mut out = str_to_chars(c1);
    let mut k: usize = 0;
    while k < digits.len()
        invariant
            digits@ == dec_rep(idx as int),
            k <= digits@.len(),
            out@ == c1@ + digits@.subrange(0, k as int),
        decreases digits@.len() - k,
    {
        out.push(digits[k]);
        assert(out@ =~= c1@ + digits@.subrange(0, k + 1 as int));
        k = k + 1;
    }
    proof {
        assert(out@ =~= c1@ + dec_rep(idx as int));
    }
    out.push(':');
    let mut p2 = str_to_chars(c2);
    let mut k: usize = 0;
    while k < p2.len()
        invariant
            p2@ == c2@,
            k <= p2@.len(),
            out@ == c1@ + dec_rep(idx as int) + seq![':'] + c2@.subrange(0, k as int),
        decreases p2@.len() - k,
    {
        out.push(p2[k]);
        assert(out@ =~= c1@ + dec_rep(idx as int) + seq![':'] + c2@.subrange(0, k + 1 as int));
        k = k + 1;
    }
    proof {
        assert(out@ =~= c1@ + dec_rep(idx as int) + seq![':'] + c2@);
    }
    let mut k: usize = 0;
    while k < digits.len()
        invariant
            digits@ == dec_rep(idx as int),
            k <= digits@.len(),
            out@ == c1@ + dec_rep(idx as int) + seq![':'] + c2@ + digits@.subrange(0, k as int),
        decreases digits@.len() - k,
    {
        out.push(digits[k]);
        assert(out@ =~= c1@ + dec_rep(idx as int) + seq![':'] + c2@ + digits@.subrange(
            0,
            k + 1 as int,
        ));
        k = k + 1;
    }
    proof {
        assert(out@ =~= loc_view(c1@, c2@, idx as int));
    }
    chars_to_string(&out)
}

/// Splits an identifier into its alphabetic prefix and its number.  Returns
/// an error exactly when the identifier holds no digit, or its number does
/// not fit in an `i32`.
pub fn split_prefix_and_number(id: &str) -> (r: Result<(String, i32), FormatError>)
    ensures
        r is Ok <==> digits_of(id@).len() > 0 && dec_val(digits_of(id@)) <= i32::MAX,
        r is Ok ==> r->Ok_0.0@ == alpha_of(id@) && r->Ok_0.1 == dec_val(digits_of(id@)),
{
    broadcast use vstd::seq_lib::group_filter_ensures;

    let chars = str_to_chars(id);
    let ghost full = digits_of(id@);
    let mut ndigits: usize = 0;
    let mut acc: i64 = 0;
    let mut i: usize = 0;
    while i < chars.len()
        invariant
            chars@ == id@,
            i <= chars@.len(),
            full == digits_of(id@),
            forall|q: int| 0 <= q < full.len() ==> is_digit_char(#[trigger] full[q]),
            ndigits == digits_of(id@.subrange(0, i as int)).len(),
            acc == dec_val(digits_of(id@.subrange(0, i as int))),
            0 <= acc <= i32::MAX,
        decreases chars@.len() - i,
    {
        let c = chars[i];
        let ghost pre = digits_of(id@.subrange(0, i as int));
        proof {
            crate::text::lemma_filter_push(
                id@.subrange(0, i as int),
                crate::text::digit_pred(),
                id@[i as int],
            );
            assert(id@.subrange(0, i + 1 as int) =~= id@.subrange(0, i as int).push(
                id@[i as int],
            ));
        }
        if c >= '0' && c <= '9' {
            let d = (c as u32 - 48) as i64;
            let ghost ext = digits_of(id@.subrange(0, i + 1 as int));
            proof {
                assert(ext =~= pre.push(c));
                assert(ext.drop_last() =~= pre);
                assert(dec_val(ext) == dec_val(pre) * 10 + d);
                Seq::filter_distributes_over_add(
                    id@.subrange(0, i + 1 as int),
                    id@.subrange(i + 1 as int, id@.len() as int),
                    crate::text::digit_pred(),
                );
                assert(id@.subrange(0, i + 1 as int) + id@.subrange(
                    i + 1 as int,
                    id@.len() as int,
                ) =~= id@);
                assert(full == ext + digits_of(id@.subrange(i + 1 as int, id@.len() as int)));
                assert(full.subrange(0, ext.len() as int) =~= ext);
                lemma_dec_val_prefix(full, ext.len() as int);
                lemma_dec_val_nonneg(ext);
            }
            let wide: i64 = acc * 10 + d;
            if wide > 2147483647 {
                proof {
                    assert(dec_val(full) >= dec_val(ext) > i32::MAX);
                }
                return Err(FormatError);
            }
            acc = wide;
            proof {
                assert(pre.len() <= id@.subrange(0, i as int).len());
            }
            ndigits = ndigits + 1;
        }
        i = i + 1;
    }
    proof {
        assert(id@.subrange(0, id@.len() as int) =~= id@);
    }
    if ndigits == 0 {
        return Err(FormatError);
    }
    let prefix = extract_string(id);
    Ok((prefix, acc as i32))
}

/// Splitting a well-formed identifier recovers its prefix and number exactly:
/// for an alphabetic prefix `p` and a positive `n`, the identifier made of
/// `p` followed by the decimal rendering of `n` has alphabetic part `p` and
/// numeric part `n`.
pub proof fn lemma_split_identifier_round_trip(p: Seq<char>, n: int)
    requires
        forall|i: int| 0 <= i < p.len() ==> is_alpha_char(#[trigger] p[i]),
        n >= 1,
    ensures
        alpha_of(p + dec_rep(n)) == p,
        digits_of(p + dec_rep(n)) == dec_rep(n),
        dec_val(digits_of(p + dec_rep(n))) == n,
{
    lemma_dec_rep_digits(n);
    lemma_filter_alpha_digit_runs(p, dec_rep(n));
    lemma_dec_val_of_rep(n);
}

} // verus!
