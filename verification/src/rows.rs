//! Ordered key/value row lists, as used for environment variables and for a
//! request's headers, cookies and queries.
//!
//! The last row of such a list is a blank pair that the interface offers as
//! the "add new" slot. Editing the key or the value of that last row appends
//! a fresh blank row, so the slot never disappears.

use vstd::prelude::*;

verus! {

/// The rows as a sequence of character-sequence pairs.
pub open spec fn kv_view(rows: Seq<(String, String)>) -> Seq<(Seq<char>, Seq<char>)> {
    Seq::new(rows.len(), |i: int| (rows[i].0@, rows[i].1@))
}

/// A blank row.
pub open spec fn blank_row() -> (Seq<char>, Seq<char>) {
    (Seq::<char>::empty(), Seq::<char>::empty())
}

/// The rows after setting the key at `index` to `name`: out-of-range edits
/// change nothing, and an edit of the last row appends a blank row.
pub open spec fn rows_key_updated(
    rows: Seq<(Seq<char>, Seq<char>)>,
    index: int,
    name: Seq<char>,
) -> Seq<(Seq<char>, Seq<char>)> {
    if 0 <= index < rows.len() {
        let edited = rows.update(index, (name, rows[index].1));
        if index + 1 == rows.len() {
            edited.push(blank_row())
        } else {
            edited
        }
    } else {
        rows
    }
}

/// The rows after setting the value at `index` to `value`, with the same
/// trailing-blank rule as for key edits.
pub open spec fn rows_value_updated(
    rows: Seq<(Seq<char>, Seq<char>)>,
    index: int,
    value: Seq<char>,
) -> Seq<(Seq<char>, Seq<char>)> {
    if 0 <= index < rows.len() {
        let edited = rows.update(index, (rows[index].0, value));
        if index + 1 == rows.len() {
            edited.push(blank_row())
        } else {
            edited
        }
    } else {
        rows
    }
}

/// Trailing-blank law: a key or value edit on the last row grows the list by
/// exactly one row, and the new last row is blank.
pub proof fn lemma_trailing_blank(rows: Seq<(Seq<char>, Seq<char>)>, index: int, text: Seq<char>)
    requires
        0 <= index,
        index + 1 == rows.len(),
    ensures
        rows_key_updated(rows, index, text).len() == rows.len() + 1,
        rows_key_updated(rows, index, text).last() == blank_row(),
        rows_value_updated(rows, index, text).len() == rows.len() + 1,
        rows_value_updated(rows, index, text).last() == blank_row(),
{
}

/// Sets the key at `index` to `name`, appending a blank row after an edit of
/// the last row.
pub(crate) fn update_row_key(rows: &mut Vec<(String, String)>, index: usize, name: String)
    ensures
        kv_view(final(rows)@) == rows_key_updated(kv_view(old(rows)@), index as int, name@),
{
    if index < rows.len() {
        let value: String = rows[index].1.clone();
        let was_last: bool = index + 1 == rows.len();
        rows[index] = (name, value);
        if was_last {
            rows.push((String::new(), String::new()));
        }
        assert(kv_view(rows@) =~= rows_key_updated(kv_view(old(rows)@), index as int, name@));
    } else {
        assert(kv_view(rows@) =~= rows_key_updated(kv_view(old(rows)@), index as int, name@));
    }
}

/// Sets the value at `index` to `value`, appending a blank row after an edit
/// of the last row.
pub(crate) fn update_row_value(rows: &mut Vec<(String, String)>, index: usize, value: String)
    ensures
        kv_view(final(rows)@) == rows_value_updated(kv_view(old(rows)@), index as int, value@),
{
    if index < rows.len() {
        let key: String = rows[index].0.clone();
        let was_last: bool = index + 1 == rows.len();
        rows[index] = (key, value);
        if was_last {
            rows.push((String::new(), String::new()));
        }
        assert(kv_view(rows@) =~= rows_value_updated(kv_view(old(rows)@), index as int, value@));
    } else {
        assert(kv_view(rows@) =~= rows_value_updated(kv_view(old(rows)@), index as int, value@));
    }
}

/// A copy of a row list whose rows equal the source's, value for value.
pub(crate) fn clone_rows(rows: &Vec<(String, String)>) -> (r: Vec<(String, String)>)
    ensures
        r@ == rows@,
{
    let mut r: Vec<(String, String)> = Vec::new();
    let mut i: usize = 0;
    while i < rows.len()
        invariant
            i <= rows@.len(),
            r@ == rows@.take(i as int),
        decreases rows@.len() - i,
    {
        let key: String = rows[i].0.clone();
        let value: String = rows[i].1.clone();
        r.push((key, value));
        assert(rows@.take(i + 1 as int) =~= rows@.take(i as int).push(rows@[i as int]));
        i = i + 1;
    }
    assert(rows@.take(rows@.len() as int) =~= rows@);
    r
}

/// One blank row, the shape every fresh list starts with.
pub fn blank_rows() -> (rows: Vec<(String, String)>)
    ensures
        kv_view(rows@) =~= seq![blank_row()],
{
    let mut rows: Vec<(String, String)> = Vec::new();
    rows.push((String::new(), String::new()));
    rows
}

} // verus!
