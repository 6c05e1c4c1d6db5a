//! Row-major data: shapes, columns and copies.

use vstd::prelude::*;

verus! {

/// The rows of a matrix, each taken by its view.
pub open spec fn rows_view<T>(rows: Seq<Vec<T>>) -> Seq<Seq<T>> {
    rows.map_values(|r: Vec<T>| r@)
}

/// The length of the first row, or 0 when there is no row.
pub open spec fn first_len_of<T>(rows: Seq<Vec<T>>) -> nat {
    if rows.len() == 0 {
        0
    } else {
        rows[0]@.len()
    }
}

/// Every row has an entry at index `d`.
pub open spec fn all_rows_longer_than<T>(rows: Seq<Vec<T>>, d: int) -> bool {
    forall|i: int| 0 <= i < rows.len() ==> d < #[trigger] rows[i]@.len()
}

/// Column `d` of the rows: the entry at index `d` of each row, in row order.
pub open spec fn column_of<T>(rows: Seq<Vec<T>>, d: int) -> Seq<T> {
    rows.map_values(|r: Vec<T>| r@[d])
}

/// Viewing rows keeps their number and order: entry `i` is the view of row
/// `i`.
pub proof fn lemma_rows_view_entries<T>(rows: Seq<Vec<T>>)
    ensures
        rows_view(rows).len() == rows.len(),
        forall|i: int| 0 <= i < rows.len() ==> #[trigger] rows_view(rows)[i] == rows[i]@,
{
}

/// The first-row length is the length of row 0 when there is a row, and 0
/// when there is none.
pub proof fn lemma_first_len_of_rows<T>(rows: Seq<Vec<T>>)
    ensures
        rows.len() > 0 ==> first_len_of(rows) == rows[0]@.len(),
        rows.len() == 0 ==> first_len_of(rows) == 0,
{
}

/// A column has one entry per row, in row order: entry `i` is entry `d` of
/// row `i`.
pub proof fn lemma_column_entries<T>(rows: Seq<Vec<T>>, d: int)
    ensures
        column_of(rows, d).len() == rows.len(),
        forall|i: int| 0 <= i < rows.len() ==> #[trigger] column_of(rows, d)[i] == rows[i]@[d],
{
}

/// The length of the first row, or 0 for no rows.
pub fn first_len<T>(rows: &[Vec<T>]) -> (n: usize)
    ensures
        n == first_len_of(rows@),
        rows@.len() > 0 ==> n == rows@[0]@.len(),
        rows@.len() == 0 ==> n == 0,
{
    if rows.len() == 0 {
        0
    } else {
        rows[0].len()
    }
}

/// A fresh vector holding `v[start..end]`.
pub fn copy_range<T: Copy>(v: &[T], start: usize, end: usize) -> (res: Vec<T>)
    requires
        start <= end <= v@.len(),
    ensures
        res@ == v@.subrange(start as int, end as int),
{
    let mut res: Vec<T> = Vec::new();
    let mut i: usize = start;
    while i < end
        invariant
            start <= i <= end <= v@.len(),
            res@ == v@.subrange(start as int, i as int),
        decreases end - i,
    {
        res.push(v[i]);
        i = i + 1;
        assert(res@ =~= v@.subrange(start as int, i as int));
    }
    res
}

/// A fresh copy of every row, in order.
pub fn copy_rows<T: Copy>(rows: &[Vec<T>]) -> (res: Vec<Vec<T>>)
    ensures
        rows_view(res@) == rows_view(rows@),
        res@.len() == rows@.len(),
        forall|i: int| 0 <= i < rows@.len() ==> #[trigger] res@[i]@ == rows@[i]@,
{
    let mut res: Vec<Vec<T>> = Vec::new();
    let n: usize = rows.len();
    for i in 0..n
        invariant
            n == rows@.len(),
            res@.len() == i,
            forall|j: int| 0 <= j < i ==> #[trigger] res@[j]@ == rows@[j]@,
    {
        let row: &Vec<T> = &rows[i];
        let copied: Vec<T> = copy_range(row.as_slice(), 0, row.len());
        assert(copied@ =~= rows@[i as int]@);
        res.push(copied);
    }
    assert(rows_view(res@) =~= rows_view(rows@));
    res
}

/// Column `d` of the rows: the entry at index `d` of each row, in row order.
pub fn take_column<T: Copy>(rows: &[Vec<T>], d: usize) -> (col: Vec<T>)
    requires
        all_rows_longer_than(rows@, d as int),
    ensures
        col@ == column_of(rows@, d as int),
        col@.len() == rows@.len(),
        forall|i: int| 0 <= i < rows@.len() ==> #[trigger] col@[i] == rows@[i]@[d as int],
{
    let mut col: Vec<T> = Vec::new();
    let n: usize = rows.len();
    for i in 0..n
        invariant
            n == rows@.len(),
            all_rows_longer_than(rows@, d as int),
            col@.len() == i,
            forall|j: int| 0 <= j < i ==> #[trigger] col@[j] == rows@[j]@[d as int],
    {
        assert(d < rows@[i as int]@.len());
        col.push(rows[i][d]);
    }
    assert(col@ =~= column_of(rows@, d as int));
    col
}

} // verus!
