use vstd::prelude::*;

use crate::scalar::Scalar;

verus! {

/// The length of the longest row.
pub open spec fn rows_max_len<T>(rows: Seq<Vec<T>>) -> int
    decreases rows.len(),
{
    if rows.len() == 0 {
        0
    } else {
        let m = rows_max_len(rows.drop_last());
        if rows.last()@.len() > m {
            rows.last()@.len() as int
        } else {
            m
        }
    }
}

pub proof fn lemma_rows_max_len_ge<T>(rows: Seq<Vec<T>>, i: int)
    requires
        0 <= i < rows.len(),
    ensures
        rows[i]@.len() <= rows_max_len(rows),
    decreases rows.len(),
{
    if i < rows.len() - 1 {
        lemma_rows_max_len_ge(rows.drop_last(), i);
    }
}

/// Pads every row with the missing-data sentinel to the length of the
/// longest row, so that the per-metric table downstream has one column per
/// antenna position: an observation with fewer kept antennas gets trailing
/// sentinels. Every original value keeps its row and its index; everything
/// after a row's original length is the sentinel.
pub fn pad_results<T: Scalar>(results: &Vec<Vec<T>>) -> (r: Vec<Vec<T>>)
    ensures
        r@.len() == results@.len(),
        forall|i: int| 0 <= i < r@.len() ==> r@[i]@.len() == rows_max_len(results@),
        forall|i: int, j: int|
            0 <= i < r@.len() && 0 <= j < results@[i]@.len() ==> r@[i]@[j] == results@[i]@[j],
        forall|i: int, j: int|
            0 <= i < r@.len() && results@[i]@.len() <= j < rows_max_len(results@) ==> r@[i]@[j]
                == T::nan_s(),
{
    let mut max_len: usize = 0;
    let mut i: usize = 0;
    while i < results.len()
        invariant
            0 <= i <= results@.len(),
            max_len == rows_max_len(results@.take(i as int)),
        decreases results@.len() - i,
    {
        proof {
            assert(results@.take(i + 1).drop_last() =~= results@.take(i as int));
        }
        if results[i].len() > max_len {
            max_len = results[i].len();
        }
        i += 1;
    }
    proof {
        assert(results@.take(results@.len() as int) =~= results@);
    }

    let mut r: Vec<Vec<T>> = Vec::new();
    let mut i: usize = 0;
    while i < results.len()
        invariant
            0 <= i <= results@.len(),
            max_len == rows_max_len(results@),
            r@.len() == i,
            forall|k: int| 0 <= k < i ==> r@[k]@.len() == max_len,
            forall|k: int, j: int|
                0 <= k < i && 0 <= j < results@[k]@.len() ==> r@[k]@[j] == results@[k]@[j],
            forall|k: int, j: int|
                0 <= k < i && results@[k]@.len() <= j < max_len ==> r@[k]@[j] == T::nan_s(),
        decreases results@.len() - i,
    {
        proof {
            lemma_rows_max_len_ge(results@, i as int);
        }
        let mut row = crate::scalar::copy_vec(&results[i]);
        while row.len() < max_len
            invariant
                results@[i as int]@.len() <= row@.len() <= max_len,
                i < results@.len(),
                forall|j: int|
                    0 <= j < results@[i as int]@.len() ==> row@[j] == results@[i as int]@[j],
                forall|j: int|
                    results@[i as int]@.len() <= j < row@.len() ==> row@[j] == T::nan_s(),
            decreases max_len - row@.len(),
        {
            row.push(T::nan());
        }
        r.push(row);
        i += 1;
    }
    r
}

/// Replaces each unavailable per-tile score with the missing-data sentinel,
/// for the writer: an available score stays as it is.
pub fn fill_unavailable<T: Scalar>(scores: &Vec<Option<T>>) -> (r: Vec<T>)
    ensures
        r@.len() == scores@.len(),
        forall|i: int|
            0 <= i < r@.len() ==> r@[i] == match scores@[i] {
                Some(v) => v,
                None => T::nan_s(),
            },
        forall|i: int| 0 <= i < r@.len() && scores@[i] is None ==> r@[i].is_nan_s(),
{
    let mut r: Vec<T> = Vec::new();
    let mut i: usize = 0;
    while i < scores.len()
        invariant
            0 <= i <= scores@.len(),
            r@.len() == i,
            forall|k: int|
                0 <= k < i ==> r@[k] == match scores@[k] {
                    Some(v) => v,
                    None => T::nan_s(),
                },
            forall|k: int| 0 <= k < i && scores@[k] is None ==> r@[k].is_nan_s(),
        decreases scores@.len() - i,
    {
        match scores[i] {
            Some(v) => {
                r.push(v);
            },
            None => {
                r.push(T::nan());
            },
        }
        i += 1;
    }
    r
}

} // verus!
