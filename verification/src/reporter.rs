//! Diagnostics over the extracted matrices: a dense reconstruction for
//! human inspection and the sparsity percentage.  This performs no
//! validation; it assumes well-formed sparse input from the extraction.

use vstd::prelude::*;

use crate::field::{u64_bytes, Fe};
use crate::matrices::row_model;

verus! {

/// The value a dense cell takes: the coefficient of the last stored pair
/// naming the column, or zero where no pair names it.
pub open spec fn dense_cell(row: Seq<(nat, Seq<u8>)>, c: nat) -> Seq<u8>
    decreases row.len(),
{
    if row.len() == 0 {
        u64_bytes(0)
    } else if row.last().0 == c {
        row.last().1
    } else {
        dense_cell(row.drop_last(), c)
    }
}

/// Rebuilds a sparse matrix as a fully populated dense one: one row per
/// constraint, one column per slot, zero-filled except at recorded
/// positions.
pub fn prettify_matrix(num_cols: usize, matrix: &Vec<Vec<(usize, Fe)>>) -> (r: Vec<Vec<Fe>>)
    requires
        forall|i: int, j: int|
            0 <= i < matrix@.len() && 0 <= j < matrix@[i]@.len() ==> (#[trigger] matrix@[i]@[j]).0
                < num_cols,
    ensures
        r@.len() == matrix@.len(),
        forall|i: int| 0 <= i < r@.len() ==> (#[trigger] r@[i])@.len() == num_cols,
        forall|i: int, c: int|
            0 <= i < r@.len() && 0 <= c < num_cols ==> (#[trigger] r@[i]@[c])@ == dense_cell(
                row_model(matrix@[i]@),
                c as nat,
            ),
{
    let zero = Fe::from_u64(0);
    let mut out: Vec<Vec<Fe>> = Vec::new();
    let mut i: usize = 0;
    while i < matrix.len()
        invariant
            0 <= i <= matrix@.len(),
            zero@ == u64_bytes(0),
            forall|p: int, j: int|
                0 <= p < matrix@.len() && 0 <= j < matrix@[p]@.len() ==> (
                #[trigger] matrix@[p]@[j]).0 < num_cols,
            out@.len() == i,
            forall|p: int| 0 <= p < i ==> (#[trigger] out@[p])@.len() == num_cols,
            forall|p: int, c: int|
                0 <= p < i && 0 <= c < num_cols ==> (#[trigger] out@[p]@[c])@ == dense_cell(
                    row_model(matrix@[p]@),
                    c as nat,
                ),
        decreases matrix@.len() - i,
    {
        let mut dense: Vec<Fe> = Vec::new();
        let mut c: usize = 0;
        while c < num_cols
            invariant
                0 <= c <= num_cols,
                zero@ == u64_bytes(0),
                dense@.len() == c,
                forall|q: int| 0 <= q < c ==> (#[trigger] dense@[q])@ == u64_bytes(0),
            decreases num_cols - c,
        {
            dense.push(zero);
            c += 1;
        }
        let row = &matrix[i];
        proof {
            assert(row_model(row@).take(0) =~= row_model(row@.take(0)));
            assert forall|q: int| 0 <= q < num_cols implies (#[trigger] dense@[q])@ == dense_cell(
                row_model(row@.take(0)),
                q as nat,
            ) by {
                assert(row_model(row@.take(0)) =~= Seq::<(nat, Seq<u8>)>::empty());
            }
        }
        let mut j: usize = 0;
        while j < row.len()
            invariant
                0 <= j <= row@.len(),
                zero@ == u64_bytes(0),
                row@ == matrix@[i as int]@,
                i < matrix@.len(),
                forall|p: int, q: int|
                    0 <= p < matrix@.len() && 0 <= q < matrix@[p]@.len() ==> (
                    #[trigger] matrix@[p]@[q]).0 < num_cols,
                dense@.len() == num_cols,
                forall|q: int|
                    0 <= q < num_cols ==> (#[trigger] dense@[q])@ == dense_cell(
                        row_model(row@.take(j as int)),
                        q as nat,
                    ),
            decreases row@.len() - j,
        {
            let entry = row[j];
            dense[entry.0] = entry.1;
            proof {
                let pre = row_model(row@.take(j as int));
                let post = row_model(row@.take(j + 1));
                assert(post.drop_last() =~= pre);
                assert(post.last() == (entry.0 as nat, entry.1@));
                assert forall|q: int|
                    0 <= q < num_cols implies (#[trigger] dense@[q])@ == dense_cell(
                    post,
                    q as nat,
                ) by {
                    if q != entry.0 {
                        assert(dense_cell(post, q as nat) == dense_cell(pre, q as nat));
                    }
                }
            }
            j += 1;
        }
        proof {
            assert(row@.take(row@.len() as int) =~= row@);
        }
        out.push(dense);
        i += 1;
    }
    out
}

/// The sparsity of one matrix: the percentage of zero slots, rounded
/// down.
pub fn sparsity_percent(rows: usize, cols: usize, nnz: usize) -> (r: usize)
    requires
        rows * cols > 0,
        nnz <= rows * cols,
        rows * cols <= usize::MAX,
    ensures
        r == ((rows * cols - nnz) * 100) / (rows * cols),
{
    let total = (rows as u128) * (cols as u128);
    let zeros = total - (nnz as u128);
    let p = zeros * 100 / total;
    proof {
        assert((zeros as int) * 100 / (total as int) <= 100) by (nonlinear_arith)
            requires
                zeros <= total,
                total >= 1,
        ;
    }
    p as usize
}

} // verus!
