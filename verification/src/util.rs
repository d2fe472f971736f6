//! Shared value types: lifecycle status tags and identifier payloads, and the
//! character-class extraction used by the identifier allocator.

use vstd::prelude::*;

use crate::text::{
    alpha_of, alpha_pred, digit_pred, digits_of, is_alpha_char, is_digit_char, lemma_filter_push,
    str_eq, str_to_chars,
};
use crate::num::{dec_val, lemma_dec_val_nonneg, lemma_dec_val_prefix};

verus! {

/// Lifecycle state of a project, epic or sprint:
///
/// - `Pending`: created but not yet advancing.
/// - `InProgress`: started.
/// - `Done`: completed.
/// - `Standby`: paused or waiting on something.
#[derive(Debug, Clone, Copy, PartialEq, Eq, Structural)]
pub enum Status {
    Pending,
    InProgress,
    Done,
    Standby,
}

impl Status {
    /// The exact tag text this status is stored as.
    pub open spec fn spec_text(self) -> Seq<char> {
        match self {
            Status::Pending => "Pending"@,
            Status::InProgress => "InProgress"@,
            Status::Done => "Done"@,
            Status::Standby => "Standby"@,
        }
    }

    /// The status a stored tag text denotes, if any.
    pub open spec fn spec_of_text(s: Seq<char>) -> Option<Status> {
        if s == "Pending"@ {
            Some(Status::Pending)
        } else if s == "InProgress"@ {
            Some(Status::InProgress)
        } else if s == "Done"@ {
            Some(Status::Done)
        } else if s == "Standby"@ {
            Some(Status::Standby)
        } else {
            None
        }
    }

    /// Renders the tag text, as the grid stores it.
    pub fn text(&self) -> (r: &'static str)
        ensures
            r@ == self.spec_text(),
    {
        match self {
            Status::Pending => "Pending",
            Status::InProgress => "InProgress",
            Status::Done => "Done",
            Status::Standby => "Standby",
        }
    }

    /// Parses a stored tag text; unknown tags are rejected.
    pub fn from_str(input: &str) -> (r: Result<Status, ()>)
        ensures
            r is Ok <==> Status::spec_of_text(input@) is Some,
            r is Ok ==> Status::spec_of_text(input@) == Some(r->Ok_0),
    {
        if str_eq(input, "Pending") {
            Ok(Status::Pending)
        } else if str_eq(input, "InProgress") {
            Ok(Status::InProgress)
        } else if str_eq(input, "Done") {
            Ok(Status::Done)
        } else if str_eq(input, "Standby") {
            Ok(Status::Standby)
        } else {
            Err(())
        }
    }
}

/// A single parent-identifier read filter.
#[derive(Debug, Clone)]
pub struct Identificator {
    pub id: String,
}

/// A composite parent filter: project and epic identifiers.
#[derive(Debug, Clone)]
pub struct DoubleIdentificator {
    pub project_id: String,
    pub epic_id: String,
}

/// The alphabetic characters of `input`, in order.
pub fn extract_string(input: &str) -> (r: String)
    ensures
        r@ == alpha_of(input@),
{
    let chars = str_to_chars(input);
    let mut out: Vec<char> = Vec::new();
    let mut i: usize = 0;
    while i < chars.len()
        invariant
            chars@ == input@,
            i <= chars@.len(),
            out@ == alpha_of(input@.subrange(0, i as int)),
        decreases chars@.len() - i,
    {
        let c = chars[i];
        if (c >= 'a' && c <= 'z') || (c >= 'A' && c <= 'Z') {
            out.push(c);
        }
        proof {
            lemma_filter_push(input@.subrange(0, i as int), alpha_pred(), input@[i as int]);
            assert(input@.subrange(0, i + 1 as int) =~= input@.subrange(0, i as int).push(
                input@[i as int],
            ));
            assert(out@ =~= alpha_of(input@.subrange(0, i + 1 as int)));
        }
        i = i + 1;
    }
    proof {
        assert(input@.subrange(0, input@.len() as int) =~= input@);
    }
    crate::text::chars_to_string(&out)
}

/// The value of the decimal digits of `input`, all other characters ignored.
/// The input must hold at least one digit and the value must fit in an `i32`;
/// `split_prefix_and_number` checks both and is the total entry point.
pub fn extract_num(input: &str) -> (r: i32)
    requires
        digits_of(input@).len() > 0,
        dec_val(digits_of(input@)) <= i32::MAX,
    ensures
        r == dec_val(digits_of(input@)),
{
    broadcast use vstd::seq_lib::group_filter_ensures;

    let chars = str_to_chars(input);
    let ghost full = digits_of(input@);
    let mut acc: i32 = 0;
    let mut i: usize = 0;
    while i < chars.len()
        invariant
            chars@ == input@,
            i <= chars@.len(),
            full == digits_of(input@),
            dec_val(full) <= i32::MAX,
            forall|q: int| 0 <= q < full.len() ==> is_digit_char(#[trigger] full[q]),
            acc == dec_val(digits_of(input@.subrange(0, i as int))),
            0 <= acc <= i32::MAX,
        decreases chars@.len() - i,
    {
        let c = chars[i];
        let ghost pre = digits_of(input@.subrange(0, i as int));
        proof {
            lemma_filter_push(input@.subrange(0, i as int), digit_pred(), input@[i as int]);
            assert(input@.subrange(0, i + 1 as int) =~= input@.subrange(0, i as int).push(
                input@[i as int],
            ));
        }
        if c >= '0' && c <= '9' {
            let d = (c as u32 - 48) as i64;
            let ghost ext = digits_of(input@.subrange(0, i + 1 as int));
            proof {
                assert(ext =~= pre.push(c));
                assert(ext.drop_last() =~= pre);
                assert(dec_val(ext) == dec_val(pre) * 10 + d);
                Seq::filter_distributes_over_add(
                    input@.subrange(0, i + 1 as int),
                    input@.subrange(i + 1 as int, input@.len() as int),
                    digit_pred(),
                );
                assert(input@.subrange(0, i + 1 as int) + input@.subrange(
                    i + 1 as int,
                    input@.len() as int,
                ) =~= input@);
                assert(full == ext + digits_of(
                    input@.subrange(i + 1 as int, input@.len() as int),
                ));
                assert(full.subrange(0, ext.len() as int) =~= ext);
                lemma_dec_val_prefix(full, ext.len() as int);
                assert(dec_val(ext) <= dec_val(full));
                lemma_dec_val_nonneg(ext);
            }
            let wide: i64 = (acc as i64) * 10 + d;
            assert(wide == dec_val(ext));
            acc = wide as i32;
        }
        i = i + 1;
    }
    proof {
        assert(input@.subrange(0, input@.len() as int) =~= input@);
    }
    acc
}

} // verus!
