//! The two-level delimiter codec.
//!
//! A packed cell is zero or more entries joined by `|`; each entry is a list
//! of fields joined by `^`.  An entry's first field starts with a decimal
//! index and a colon.  This module gives the split/join model, the executable
//! codec, and the index-addressed mutation operations on packed values.

use vstd::prelude::*;

use crate::num::{dec_rep, dec_rep_signed, fmt_u64};
use crate::text::{chars_to_string, str_to_chars};
use vstd::pervasive::VecAdditionalExecFns;
use vstd::string::StringExecFns;

verus! {

/// Position of the first occurrence of `d` in `s`.
pub open spec fn first_occur(s: Seq<char>, d: char) -> nat
    recommends
        s.contains(d),
    decreases s.len(),
{
    if s.len() == 0 {
        0
    } else if s[0] == d {
        0
    } else {
        1 + first_occur(s.drop_first(), d)
    }
}

pub proof fn lemma_first_occur(s: Seq<char>, d: char)
    requires
        s.contains(d),
    ensures
        first_occur(s, d) < s.len(),
        s[first_occur(s, d) as int] == d,
        forall|j: int| 0 <= j < first_occur(s, d) ==> s[j] != d,
    decreases s.len(),
{
    if s[0] == d {
    } else {
        let k = choose|k: int| 0 <= k < s.len() && s[k] == d;
        assert(s.drop_first()[k - 1] == d);
        assert(s.drop_first().contains(d));
        lemma_first_occur(s.drop_first(), d);
        let f = first_occur(s.drop_first(), d) as int;
        assert(s[f + 1] == s.drop_first()[f]);
        assert forall|j: int| 0 <= j < first_occur(s, d) implies s[j] != d by {
            if j > 0 {
                assert(s.drop_first()[j - 1] == s[j]);
            }
        }
    }
}

/// If `d` first appears at `i`, then `first_occur` is `i`.
pub proof fn lemma_first_occur_at(s: Seq<char>, d: char, i: int)
    requires
        0 <= i < s.len(),
        s[i] == d,
        forall|j: int| 0 <= j < i ==> s[j] != d,
    ensures
        s.contains(d),
        first_occur(s, d) == i,
{
    assert(s.contains(d));
    lemma_first_occur(s, d);
    let f = first_occur(s, d) as int;
    if f < i {
        assert(s[f] != d);
    } else if f > i {
        assert(s[i] != d);
    }
}

/// Splitting on a delimiter, as `str::split` does: the result always has at
/// least one part, and an empty input yields one empty part.
pub open spec fn split_on(s: Seq<char>, d: char) -> Seq<Seq<char>>
    decreases s.len(),
    via split_on_decreases
{
    if !s.contains(d) {
        seq![s]
    } else {
        let i = first_occur(s, d) as int;
        seq![s.subrange(0, i)] + split_on(s.subrange(i + 1, s.len() as int), d)
    }
}

#[via_fn]
proof fn split_on_decreases(s: Seq<char>, d: char) {
    if s.contains(d) {
        lemma_first_occur(s, d);
    }
}

/// Joining with a delimiter, as `[..].join` does.
pub open spec fn join_with(parts: Seq<Seq<char>>, d: char) -> Seq<char>
    decreases parts.len(),
{
    if parts.len() == 0 {
        Seq::empty()
    } else if parts.len() == 1 {
        parts[0]
    } else {
        parts[0] + seq![d] + join_with(parts.drop_first(), d)
    }
}

/// The first delimiter in `a + t` is at `a.len()` when `a` is delimiter-free
/// and `t` starts with the delimiter.
pub proof fn lemma_first_occur_concat(a: Seq<char>, t: Seq<char>, d: char)
    requires
        !a.contains(d),
        t.len() > 0,
        t[0] == d,
    ensures
        (a + t).contains(d),
        first_occur(a + t, d) == a.len(),
{
    let s = a + t;
    assert(s[a.len() as int] == d);
    assert forall|j: int| 0 <= j < a.len() implies s[j] != d by {
        assert(s[j] == a[j]);
        if a[j] == d {
            assert(a.contains(d));
        }
    }
    lemma_first_occur_at(s, d, a.len() as int);
}

/// Splitting undoes joining, for a non-empty list of delimiter-free parts.
pub proof fn lemma_split_of_join(parts: Seq<Seq<char>>, d: char)
    requires
        parts.len() >= 1,
        forall|i: int| 0 <= i < parts.len() ==> !(#[trigger] parts[i]).contains(d),
    ensures
        split_on(join_with(parts, d), d) == parts,
    decreases parts.len(),
{
    if parts.len() == 1 {
        assert(join_with(parts, d) == parts[0]);
        assert(split_on(parts[0], d) =~= parts);
    } else {
        let s = join_with(parts, d);
        let rest = parts.drop_first();
        let t = seq![d] + join_with(rest, d);
        assert(s =~= parts[0] + t);
        lemma_first_occur_concat(parts[0], t, d);
        let f = first_occur(s, d) as int;
        assert(f == parts[0].len());
        assert(s.subrange(0, f) =~= parts[0]);
        assert(s.subrange(f + 1, s.len() as int) =~= join_with(rest, d));
        assert(forall|i: int| 0 <= i < rest.len() ==> !(#[trigger] rest[i]).contains(d));
        lemma_split_of_join(rest, d);
        assert(split_on(s, d) =~= seq![parts[0]] + rest);
        assert(seq![parts[0]] + rest =~= parts);
    }
}

/// Joining undoes splitting: every split is lossless.
pub proof fn lemma_join_of_split(s: Seq<char>, d: char)
    ensures
        join_with(split_on(s, d), d) == s,
    decreases s.len(),
{
    if s.contains(d) {
        lemma_first_occur(s, d);
        let f = first_occur(s, d) as int;
        let head = s.subrange(0, f);
        let rest = s.subrange(f + 1, s.len() as int);
        lemma_join_of_split(rest, d);
        let parts = split_on(s, d);
        assert(split_on(rest, d).len() >= 1) by {
            if rest.contains(d) {
                lemma_first_occur(rest, d);
            }
        }
        assert(parts.drop_first() =~= split_on(rest, d));
        assert(join_with(parts, d) == head + seq![d] + join_with(split_on(rest, d), d));
        assert(head + seq![d] + rest =~= s);
    }
}

/// Re-encoding a decoded packed cell reproduces it exactly, so an
/// index-addressed mutation disturbs no other part of the cell.
pub proof fn lemma_encode_of_decode(s: Seq<char>)
    ensures
        encode_packed(decode_packed(s)) == s,
{
    if s.len() == 0 {
        assert(decode_packed(s).map_values(|e: Seq<Seq<char>>| join_with(e, '^')).len() == 0);
        assert(encode_packed(decode_packed(s)) =~= s);
    } else {
        let entries = split_on(s, '|');
        let back = decode_packed(s).map_values(|e: Seq<Seq<char>>| join_with(e, '^'));
        assert forall|i: int| 0 <= i < entries.len() implies back[i] == entries[i] by {
            lemma_join_of_split(entries[i], '^');
        }
        assert(back =~= entries);
        lemma_join_of_split(s, '|');
    }
}

/// Joining one more part appends a delimiter and the part.
pub proof fn lemma_join_push(parts: Seq<Seq<char>>, d: char, p: Seq<char>)
    requires
        parts.len() >= 1,
    ensures
        join_with(parts.push(p), d) == join_with(parts, d) + seq![d] + p,
    decreases parts.len(),
{
    if parts.len() == 1 {
        assert(parts.push(p).drop_first() =~= seq![p]);
        assert(join_with(parts.push(p), d) == parts[0] + seq![d] + p);
    } else {
        assert(parts.push(p).drop_first() =~= parts.drop_first().push(p));
        lemma_join_push(parts.drop_first(), d, p);
        assert(join_with(parts.push(p), d) == parts[0] + seq![d] + join_with(
            parts.drop_first().push(p),
            d,
        ));
        assert(join_with(parts.push(p), d) =~= join_with(parts, d) + seq![d] + p);
    }
}

/// A join of parts free of `c` is free of `c`, when the delimiter is not `c`.
pub proof fn lemma_join_free(parts: Seq<Seq<char>>, d: char, c: char)
    requires
        c != d,
        forall|i: int| 0 <= i < parts.len() ==> !(#[trigger] parts[i]).contains(c),
    ensures
        !join_with(parts, d).contains(c),
    decreases parts.len(),
{
    if parts.len() == 0 {
        if join_with(parts, d).contains(c) {
            let j = choose|j: int|
                0 <= j < join_with(parts, d).len() && join_with(parts, d)[j] == c;
            assert(false);
        }
    } else if parts.len() == 1 {
        assert(!parts[0].contains(c));
    } else {
        let rest = parts.drop_first();
        assert(forall|i: int| 0 <= i < rest.len() ==> !(#[trigger] rest[i]).contains(c));
        lemma_join_free(rest, d, c);
        let s = join_with(parts, d);
        if s.contains(c) {
            let j = choose|j: int| 0 <= j < s.len() && s[j] == c;
            let h = parts[0].len() as int;
            if j < h {
                assert(parts[0][j] == c);
                assert(parts[0].contains(c));
            } else if j == h {
                assert(s[j] == d);
            } else {
                assert(join_with(rest, d)[j - h - 1] == c);
                assert(join_with(rest, d).contains(c));
            }
        }
    }
}

/// First index of `d` in `v`, if any.
pub(crate) fn find_char(v: &Vec<char>, d: char) -> (r: Option<usize>)
    ensures
        r is Some ==> v@.contains(d) && r->0 == first_occur(v@, d),
        r is None ==> !v@.contains(d),
{
    let mut i: usize = 0;
    while i < v.len()
        invariant
            i <= v@.len(),
            forall|j: int| 0 <= j < i ==> v@[j] != d,
        decreases v@.len() - i,
    {
        if v[i] == d {
            proof {
                lemma_first_occur_at(v@, d, i as int);
            }
            return Some(i);
        }
        i = i + 1;
    }
    proof {
        if v@.contains(d) {
            let j = choose|j: int| 0 <= j < v@.len() && v@[j] == d;
            assert(false);
        }
    }
    None
}

/// A copy of `v[a..b]`.
pub(crate) fn sub_vec(v: &Vec<char>, a: usize, b: usize) -> (r: Vec<char>)
    requires
        a <= b <= v@.len(),
    ensures
        r@ == v@.subrange(a as int, b as int),
{
    let mut r: Vec<char> = Vec::new();
    let mut i = a;
    while i < b
        invariant
            a <= i <= b <= v@.len(),
            r@ == v@.subrange(a as int, i as int),
        decreases b - i,
    {
        r.push(v[i]);
        assert(r@ =~= v@.subrange(a as int, i + 1 as int));
        i = i + 1;
    }
    r
}

/// Appends all of `src` to `dst`.
fn push_all(dst: &mut Vec<char>, src: &Vec<char>)
    ensures
        final(dst)@ == old(dst)@ + src@,
{
    let mut i: usize = 0;
    while i < src.len()
        invariant
            i <= src@.len(),
            dst@ == old(dst)@ + src@.subrange(0, i as int),
        decreases src@.len() - i,
    {
        dst.push(src[i]);
        assert(dst@ =~= old(dst)@ + src@.subrange(0, i + 1 as int));
        i = i + 1;
    }
    assert(dst@ =~= old(dst)@ + src@);
}

/// Splits `v` on the delimiter `d`.
pub fn split_chars(v: &Vec<char>, d: char) -> (r: Vec<Vec<char>>)
    ensures
        r.deep_view() == split_on(v@, d),
    decreases v@.len(),
{
    match find_char(v, d) {
        None => {
            let whole = sub_vec(v, 0, v.len());
            assert(whole@ =~= v@);
            let mut r: Vec<Vec<char>> = Vec::new();
            r.push(whole);
            assert(r.deep_view() =~~= split_on(v@, d));
            r
        },
        Some(i) => {
            proof {
                lemma_first_occur(v@, d);
                assert(i as nat == first_occur(v@, d));
                assert(i < v@.len());
            }
            let n = v.len();
            let head = sub_vec(v, 0, i);
            let tail = sub_vec(v, i + 1, n);
            let mut r = split_chars(&tail, d);
            r.insert(0, head);
            assert(r.deep_view() =~~= split_on(v@, d));
            r
        },
    }
}

/// Joins `parts` with the delimiter `d`.
pub fn join_chars(parts: &Vec<Vec<char>>, d: char) -> (r: Vec<char>)
    ensures
        r@ == join_with(parts.deep_view(), d),
{
    let ghost dv = parts.deep_view();
    proof {
        assert(dv.len() == parts@.len());
    }
    let mut r: Vec<char> = Vec::new();
    let mut k: usize = 0;
    while k < parts.len()
        invariant
            k <= parts@.len(),
            dv == parts.deep_view(),
            dv.len() == parts@.len(),
            r@ == join_with(dv.subrange(0, k as int), d),
        decreases parts@.len() - k,
    {
        proof {
            assert(dv[k as int] == parts@[k as int]@);
        }
        if k > 0 {
            r.push(d);
        }
        push_all(&mut r, &parts[k]);
        proof {
            let pre = dv.subrange(0, k as int);
            assert(dv.subrange(0, k + 1 as int) =~= pre.push(dv[k as int]));
            if k == 0 {
                assert(join_with(dv.subrange(0, 1), d) == dv[0]);
                assert(r@ =~= dv[0]);
            } else {
                lemma_join_push(pre, d, dv[k as int]);
                assert(r@ =~= join_with(pre, d) + seq![d] + dv[k as int]);
            }
        }
        k = k + 1;
    }
    proof {
        assert(dv.subrange(0, dv.len() as int) =~= dv);
    }
    r
}

/// The decoded form of a packed cell: an empty cell decodes to the empty
/// list of entries; otherwise entries split on `|`, fields split on `^`.
pub open spec fn decode_packed(s: Seq<char>) -> Seq<Seq<Seq<char>>> {
    if s.len() == 0 {
        Seq::empty()
    } else {
        split_on(s, '|').map_values(|e: Seq<char>| split_on(e, '^'))
    }
}

/// The packed form of a list of entries.
pub open spec fn encode_packed(l: Seq<Seq<Seq<char>>>) -> Seq<char> {
    join_with(l.map_values(|e: Seq<Seq<char>>| join_with(e, '^')), '|')
}

/// The single-field entry `<i>:<content>`.
pub open spec fn indexed_entry(i: int, content: Seq<char>) -> Seq<Seq<char>> {
    seq![dec_rep(i) + seq![':'] + content]
}

/// The part of `s` before its first `d` (all of `s` when `d` does not occur).
pub open spec fn prefix_before(s: Seq<char>, d: char) -> Seq<char> {
    if s.contains(d) {
        s.subrange(0, first_occur(s, d) as int)
    } else {
        s
    }
}

/// The index prefix embedded in an entry: its first field up to the first colon.
pub open spec fn entry_index_prefix(e: Seq<Seq<char>>) -> Seq<char> {
    if e.len() == 0 {
        Seq::empty()
    } else {
        prefix_before(e[0], ':')
    }
}

/// Overwriting at an index inside the list, or appending one entry whose
/// embedded index is the old length when the index is not inside.
pub open spec fn set_at_spec(l: Seq<Seq<Seq<char>>>, index: int, content: Seq<char>) -> Seq<
    Seq<Seq<char>>,
> {
    if index < l.len() {
        l.update(index, indexed_entry(index, content))
    } else {
        l.push(indexed_entry(l.len() as int, content))
    }
}

/// Whether an entry survives `remove_at` for the given index.
pub open spec fn keeps(index: int) -> spec_fn(Seq<Seq<char>>) -> bool {
    |e: Seq<Seq<char>>| entry_index_prefix(e) != dec_rep_signed(index)
}

/// Keeping every entry whose embedded index prefix differs from the decimal
/// rendering of `index`.
pub open spec fn remove_at_spec(l: Seq<Seq<Seq<char>>>, index: int) -> Seq<Seq<Seq<char>>> {
    l.filter(keeps(index))
}

/// Unpacks one packed cell value into its entries' fields; an empty cell
/// value unpacks to the empty list.
pub fn convert_pattern_to_vec(input: &str) -> (r: Vec<Vec<String>>)
    ensures
        r.deep_view() == decode_packed(input@),
{
    if input.unicode_len() == 0 {
        let r: Vec<Vec<String>> = Vec::new();
        proof {
            assert(r.deep_view() =~= decode_packed(input@));
        }
        return r;
    }
    let chars = str_to_chars(input);
    let entries = split_chars(&chars, '|');
    let ghost es = split_on(input@, '|');
    let mut r: Vec<Vec<String>> = Vec::new();
    let mut i: usize = 0;
    while i < entries.len()
        invariant
            input@.len() != 0,
            entries.deep_view() == es,
            es == split_on(input@, '|'),
            es.len() == entries@.len(),
            i <= entries@.len(),
            r@.len() == i,
            forall|q: int| 0 <= q < i ==> (#[trigger] r@[q]).deep_view() == split_on(es[q], '^'),
        decreases entries@.len() - i,
    {
        proof {
            assert(entries@[i as int].deep_view() == es[i as int]);
            assert(entries@[i as int]@ =~= es[i as int]);
        }
        let fields = split_chars(&entries[i], '^');
        let ghost fs = split_on(es[i as int], '^');
        let mut row: Vec<String> = Vec::new();
        let mut j: usize = 0;
        while j < fields.len()
            invariant
                fields.deep_view() == fs,
                fs.len() == fields@.len(),
                j <= fields@.len(),
                row@.len() == j,
                forall|q: int| 0 <= q < j ==> (#[trigger] row@[q])@ == fs[q],
            decreases fields@.len() - j,
        {
            proof {
                assert(fields@[j as int].deep_view() == fs[j as int]);
                assert(fields@[j as int]@ =~= fs[j as int]);
            }
            row.push(chars_to_string(&fields[j]));
            j = j + 1;
        }
        proof {
            assert(row.deep_view() =~= fs);
        }
        r.push(row);
        i = i + 1;
    }
    proof {
        assert forall|q: int| 0 <= q < r@.len() implies r.deep_view()[q] == decode_packed(
            input@,
        )[q] by {
            assert(r@[q].deep_view() == split_on(es[q], '^'));
        }
        assert(r.deep_view() =~= decode_packed(input@));
    }
    r
}

/// Packs entries' fields back into one cell value.
pub fn convert_pattern_to_string(input: Vec<Vec<String>>) -> (r: String)
    ensures
        r@ == encode_packed(input.deep_view()),
{
    let ghost dv = input.deep_view();
    let mut rows: Vec<Vec<char>> = Vec::new();
    let mut i: usize = 0;
    while i < input.len()
        invariant
            dv == input.deep_view(),
            dv.len() == input@.len(),
            i <= input@.len(),
            rows@.len() == i,
            forall|q: int| 0 <= q < i ==> (#[trigger] rows@[q])@ == join_with(dv[q], '^'),
        decreases input@.len() - i,
    {
        let entry = &input[i];
        let ghost ev = dv[i as int];
        proof {
            assert(ev == entry.deep_view());
            assert(ev.len() == entry@.len());
        }
        let mut fields: Vec<Vec<char>> = Vec::new();
        let mut j: usize = 0;
        while j < entry.len()
            invariant
                ev == entry.deep_view(),
                ev.len() == entry@.len(),
                j <= entry@.len(),
                fields@.len() == j,
                forall|q: int| 0 <= q < j ==> (#[trigger] fields@[q])@ == ev[q],
            decreases entry@.len() - j,
        {
            proof {
                assert(entry@[j as int].deep_view() == ev[j as int]);
            }
            fields.push(str_to_chars(entry[j].as_str()));
            j = j + 1;
        }
        proof {
            assert(fields.deep_view() =~~= ev);
        }
        rows.push(join_chars(&fields, '^'));
        i = i + 1;
    }
    proof {
        assert(rows.deep_view() =~~= dv.map_values(|e: Seq<Seq<char>>| join_with(e, '^')));
    }
    let joined = join_chars(&rows, '|');
    chars_to_string(&joined)
}

/// The single-field entry `<i>:<content>` as a vector of one string.
fn build_indexed_entry(i: u64, content: &str) -> (r: Vec<String>)
    ensures
        r.deep_view() == indexed_entry(i as int, content@),
{
    let mut e = fmt_u64(i);
    e.push(':');
    let c = str_to_chars(content);
    proof {
        assert(e@ =~= dec_rep(i as int) + seq![':'] + content@.subrange(0, 0));
    }
    let mut k: usize = 0;
    while k < c.len()
        invariant
            c@ == content@,
            k <= c@.len(),
            e@ == dec_rep(i as int) + seq![':'] + content@.subrange(0, k as int),
        decreases c@.len() - k,
    {
        e.push(c[k]);
        assert(e@ =~= dec_rep(i as int) + seq![':'] + content@.subrange(0, k + 1 as int));
        k = k + 1;
    }
    proof {
        assert(e@ =~= dec_rep(i as int) + seq![':'] + content@);
    }
    let mut r: Vec<String> = Vec::new();
    r.push(chars_to_string(&e));
    assert(r.deep_view() =~~= indexed_entry(i as int, content@));
    r
}

/// Overwrites the entry at `index`, or appends a new entry carrying the old
/// length as its embedded index when `index` is not inside the list.
pub fn set_at(list: Vec<Vec<String>>, index: usize, content: &str) -> (r: Vec<Vec<String>>)
    ensures
        r.deep_view() == set_at_spec(list.deep_view(), index as int, content@),
{
    let ghost dv = list.deep_view();
    proof {
        assert(dv.len() == list@.len());
    }
    let mut list = list;
    if index < list.len() {
        let entry = build_indexed_entry(index as u64, content);
        list.set(index, entry);
        assert(list.deep_view() =~~= set_at_spec(dv, index as int, content@));
    } else {
        let entry = build_indexed_entry(list.len() as u64, content);
        list.push(entry);
        assert(list.deep_view() =~~= set_at_spec(dv, index as int, content@));
    }
    list
}

/// Whether two character vectors are equal.
fn chars_eq(a: &Vec<char>, b: &Vec<char>) -> (r: bool)
    ensures
        r == (a@ == b@),
{
    if a.len() != b.len() {
        return false;
    }
    let mut i: usize = 0;
    while i < a.len()
        invariant
            a@.len() == b@.len(),
            i <= a@.len(),
            forall|j: int| 0 <= j < i ==> a@[j] == b@[j],
        decreases a@.len() - i,
    {
        if a[i] != b[i] {
            return false;
        }
        i = i + 1;
    }
    proof {
        assert(a@ =~= b@);
    }
    true
}

/// A fresh copy of a row of fields.
fn copy_row(e: &Vec<String>) -> (r: Vec<String>)
    ensures
        r.deep_view() == e.deep_view(),
{
    let mut r: Vec<String> = Vec::new();
    let mut j: usize = 0;
    while j < e.len()
        invariant
            j <= e@.len(),
            r@.len() == j,
            forall|q: int| 0 <= q < j ==> (#[trigger] r@[q])@ == e@[q]@,
        decreases e@.len() - j,
    {
        r.push(String::from_str(e[j].as_str()));
        j = j + 1;
    }
    proof {
        assert(r.deep_view() =~= e.deep_view());
    }
    r
}

/// The embedded index prefix of one entry, as characters.
fn entry_prefix_chars(e: &Vec<String>) -> (r: Vec<char>)
    ensures
        r@ == entry_index_prefix(e.deep_view()),
{
    if e.len() == 0 {
        let r: Vec<char> = Vec::new();
        assert(r@ =~= entry_index_prefix(e.deep_view()));
        return r;
    }
    proof {
        assert(e@[0]@ == e.deep_view()[0]);
    }
    let c0 = str_to_chars(e[0].as_str());
    match find_char(&c0, ':') {
        Some(p) => {
            proof {
                lemma_first_occur(c0@, ':');
            }
            sub_vec(&c0, 0, p)
        },
        None => c0,
    }
}

/// Keeps every entry whose embedded index prefix differs from the decimal
/// rendering of `index`; entries are not renumbered.
pub fn remove_at(list: Vec<Vec<String>>, index: i64) -> (r: Vec<Vec<String>>)
    ensures
        r.deep_view() == remove_at_spec(list.deep_view(), index as int),
{
    let ghost dv = list.deep_view();
    let ghost pred = keeps(index as int);
    let needle = crate::num::fmt_i64(index);
    let mut r: Vec<Vec<String>> = Vec::new();
    proof {
        assert(r.deep_view() =~= dv.subrange(0, 0).filter(pred));
    }
    let mut i: usize = 0;
    while i < list.len()
        invariant
            dv == list.deep_view(),
            dv.len() == list@.len(),
            i <= list@.len(),
            needle@ == dec_rep_signed(index as int),
            pred == keeps(index as int),
            r.deep_view() == dv.subrange(0, i as int).filter(pred),
        decreases list@.len() - i,
    {
        proof {
            assert(list@[i as int].deep_view() == dv[i as int]);
        }
        let prefix = entry_prefix_chars(&list[i]);
        if !chars_eq(&prefix, &needle) {
            r.push(copy_row(&list[i]));
        }
        proof {
            crate::text::lemma_filter_push(dv.subrange(0, i as int), pred, dv[i as int]);
            assert(dv.subrange(0, i + 1 as int) =~= dv.subrange(0, i as int).push(dv[i as int]));
            assert(r.deep_view() =~~= dv.subrange(0, i + 1 as int).filter(pred));
        }
        i = i + 1;
    }
    proof {
        assert(dv.subrange(0, dv.len() as int) =~= dv);
    }
    r
}

/// Codec round trip: a non-empty list of entries, each with at least one
/// field and fields free of the reserved delimiters, decodes from its own
/// encoding unchanged.  The one list excluded is a single entry holding one
/// empty field: it encodes to the empty cell, which decodes to no entries.
pub proof fn lemma_decode_of_encode(l: Seq<Seq<Seq<char>>>)
    requires
        l.len() >= 1,
        forall|i: int| 0 <= i < l.len() ==> (#[trigger] l[i]).len() >= 1,
        forall|i: int, j: int|
            0 <= i < l.len() && 0 <= j < l[i].len() ==> !(#[trigger] l[i][j]).contains('|')
                && !l[i][j].contains('^'),
        l != seq![seq![Seq::<char>::empty()]],
    ensures
        decode_packed(encode_packed(l)) == l,
{
    let entries = l.map_values(|e: Seq<Seq<char>>| join_with(e, '^'));
    assert(encode_packed(l).len() != 0) by {
        if l.len() >= 2 {
            assert(join_with(entries, '|') == entries[0] + seq!['|'] + join_with(
                entries.drop_first(),
                '|',
            ));
        } else {
            assert(join_with(entries, '|') == entries[0]);
            assert(entries[0] == join_with(l[0], '^'));
            if l[0].len() >= 2 {
                assert(join_with(l[0], '^') == l[0][0] + seq!['^'] + join_with(
                    l[0].drop_first(),
                    '^',
                ));
            } else {
                assert(join_with(l[0], '^') == l[0][0]);
                if l[0][0].len() == 0 {
                    assert(l[0][0] =~= Seq::<char>::empty());
                    assert(l[0] =~= seq![Seq::<char>::empty()]);
                    assert(l =~= seq![seq![Seq::<char>::empty()]]);
                    assert(false);
                }
            }
        }
    }
    assert forall|i: int| 0 <= i < entries.len() implies !(#[trigger] entries[i]).contains(
        '|',
    ) by {
        assert(forall|j: int| 0 <= j < l[i].len() ==> !(#[trigger] l[i][j]).contains('|'));
        lemma_join_free(l[i], '^', '|');
    }
    lemma_split_of_join(entries, '|');
    assert forall|i: int| 0 <= i < entries.len() implies split_on(#[trigger] entries[i], '^')
        == l[i] by {
        assert(forall|j: int| 0 <= j < l[i].len() ==> !(#[trigger] l[i][j]).contains('^'));
        lemma_split_of_join(l[i], '^');
    }
    assert(decode_packed(encode_packed(l)) =~= l);
}

/// After removing an index from a well-formed packed list and re-encoding,
/// re-decoding never yields an entry whose embedded index is the removed one.
pub proof fn lemma_remove_at_excludes(l: Seq<Seq<Seq<char>>>, k: int)
    requires
        forall|i: int| 0 <= i < l.len() ==> (#[trigger] l[i]).len() >= 1,
        forall|i: int, j: int|
            0 <= i < l.len() && 0 <= j < l[i].len() ==> !(#[trigger] l[i][j]).contains('|')
                && !l[i][j].contains('^'),
    ensures
        forall|i: int|
            0 <= i < decode_packed(encode_packed(remove_at_spec(l, k))).len()
                ==> entry_index_prefix(
                #[trigger] decode_packed(encode_packed(remove_at_spec(l, k)))[i],
            ) != dec_rep_signed(k),
{
    let kept = remove_at_spec(l, k);
    let pred = keeps(k);
    broadcast use vstd::seq_lib::group_filter_ensures;

    let enc = encode_packed(kept);
    if enc.len() == 0 {
        assert(decode_packed(enc).len() == 0);
    } else {
        assert(kept.len() >= 1) by {
            if kept.len() == 0 {
                assert(kept.map_values(|e: Seq<Seq<char>>| join_with(e, '^')).len() == 0);
                assert(encode_packed(kept) == Seq::<char>::empty());
            }
        }
        crate::text::lemma_filter_subset(l, pred);
        assert(forall|i: int| 0 <= i < kept.len() ==> l.contains(#[trigger] kept[i]));
        assert forall|i: int| 0 <= i < kept.len() implies (#[trigger] kept[i]).len() >= 1 by {
            let w = choose|w: int| 0 <= w < l.len() && l[w] == kept[i];
        }
        assert forall|i: int, j: int|
            0 <= i < kept.len() && 0 <= j < kept[i].len() implies !(
        #[trigger] kept[i][j]).contains('|') && !kept[i][j].contains('^') by {
            let w = choose|w: int| 0 <= w < l.len() && l[w] == kept[i];
        }
        assert(kept != seq![seq![Seq::<char>::empty()]]) by {
            if kept == seq![seq![Seq::<char>::empty()]] {
                assert(kept.map_values(|e: Seq<Seq<char>>| join_with(e, '^')) =~= seq![
                    Seq::<char>::empty(),
                ]);
                assert(encode_packed(kept) == Seq::<char>::empty());
            }
        }
        lemma_decode_of_encode(kept);
        assert forall|i: int| 0 <= i < kept.len() implies entry_index_prefix(#[trigger] kept[i])
            != dec_rep_signed(k) by {
            assert(pred(kept[i]));
        }
    }
}

} // verus!
