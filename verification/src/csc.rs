//! Compressed-column sparse structure: validity of the structural arrays
//! and structural singularity detection.
//!
//! A matrix of dimension `n` is given by a column pointer array of length
//! `n + 1` and a row index array holding one entry per nonzero, both as
//! 32-bit integers (the wire format of the binding layer).  Values are
//! never inspected here: every check in this module is purely structural.

use vstd::prelude::*;

use crate::Error;

verus! {

/// The row indices within each column are pairwise distinct.
pub open spec fn cols_unique(n: int, ap: Seq<i32>, ai: Seq<i32>) -> bool {
    forall|j: int, k1: int, k2: int|
        #![trigger ap[j], ai[k1], ai[k2]]
        0 <= j < n && ap[j] as int <= k1 < k2 < ap[j + 1] as int ==> ai[k1] != ai[k2]
}

/// Structural validity of a compressed-column pattern of dimension `n`:
/// the column pointers start at zero, never decrease, and end at the
/// number of nonzeros; every row index is in `[0, n)`; and no row index
/// repeats within a column.  Sortedness within a column is not required.
pub open spec fn valid_pattern(n: int, ap: Seq<i32>, ai: Seq<i32>) -> bool {
    &&& 0 <= n
    &&& ap.len() == n + 1
    &&& ap[0] == 0
    &&& (forall|j: int| 0 <= j < n ==> #[trigger] ap[j] <= ap[j + 1])
    &&& ap[n] as int == ai.len() as int
    &&& (forall|k: int| 0 <= k < ai.len() ==> 0 <= #[trigger] ai[k] && (ai[k] as int) < n)
    &&& cols_unique(n, ap, ai)
}

/// Some column holds no nonzero at all, which makes the matrix
/// structurally singular whatever its values are.
pub open spec fn has_empty_column(n: int, ap: Seq<i32>) -> bool {
    exists|j: int| 0 <= j < n && #[trigger] ap[j] == ap[j + 1]
}

/// `j` is the first column that holds no nonzero.
pub open spec fn first_empty_column_is(n: int, ap: Seq<i32>, j: int) -> bool {
    &&& 0 <= j < n
    &&& ap[j] == ap[j + 1]
    &&& forall|jj: int| 0 <= jj < j ==> #[trigger] ap[jj] != ap[jj + 1]
}

/// A non-decreasing pointer array is monotone over any index range, not
/// only between neighbours.
pub proof fn lemma_col_ptr_monotone(n: int, ap: Seq<i32>, j1: int, j2: int)
    requires
        ap.len() == n + 1,
        forall|j: int| 0 <= j < n ==> #[trigger] ap[j] <= ap[j + 1],
        0 <= j1 <= j2 <= n,
    ensures
        ap[j1] <= ap[j2],
    decreases j2 - j1,
{
    if j1 < j2 {
        lemma_col_ptr_monotone(n, ap, j1, j2 - 1);
        assert(ap[j2 - 1] <= ap[j2]);
    }
}

/// Without an empty column the pointers grow by at least one per column,
/// so a pattern whose columns are all inhabited holds at least `j`
/// nonzeros before column `j` — and at least `n` in all.
pub proof fn lemma_full_columns_need_n_nonzeros(n: int, ap: Seq<i32>, j: int)
    requires
        ap.len() == n + 1,
        ap[0] == 0,
        forall|jj: int| 0 <= jj < n ==> #[trigger] ap[jj] <= ap[jj + 1],
        !has_empty_column(n, ap),
        0 <= j <= n,
    ensures
        ap[j] as int >= j,
    decreases j,
{
    if j > 0 {
        lemma_full_columns_need_n_nonzeros(n, ap, j - 1);
        assert(ap[j - 1] != ap[j]);
    }
}

/// Checks every structural invariant of a compressed-column pattern and
/// reports `InvalidInput` exactly when one of them fails.
pub fn check_pattern(n: i32, col_ptr: &Vec<i32>, row_ind: &Vec<i32>) -> (r: Result<(), Error>)
    ensures
        r is Ok <==> valid_pattern(n as int, col_ptr@, row_ind@),
        r is Err ==> r == Err::<(), Error>(Error::InvalidInput),
{
    if n < 0 {
        return Err(Error::InvalidInput);
    }
    let nu: usize = n as usize;
    if col_ptr.len() != nu + 1 {
        return Err(Error::InvalidInput);
    }
    if col_ptr[0] != 0 {
        return Err(Error::InvalidInput);
    }
    let mut j: usize = 0;
    while j < nu
        invariant
            nu == n as int,
            col_ptr@.len() == nu + 1,
            j <= nu,
            forall|jj: int| 0 <= jj < j ==> #[trigger] col_ptr@[jj] <= col_ptr@[jj + 1],
        decreases nu - j,
    {
        if col_ptr[j] > col_ptr[j + 1] {
            return Err(Error::InvalidInput);
        }
        j += 1;
    }
    let nnz: i32 = col_ptr[nu];
    proof {
        lemma_col_ptr_monotone(n as int, col_ptr@, 0, n as int);
    }
    if nnz as usize != row_ind.len() {
        return Err(Error::InvalidInput);
    }
    let m: usize = row_ind.len();
    let mut k: usize = 0;
    while k < m
        invariant
            m == row_ind@.len(),
            k <= m,
            forall|kk: int| 0 <= kk < k
                ==> 0 <= #[trigger] row_ind@[kk] && (row_ind@[kk] as int) < n as int,
        decreases m - k,
    {
        if row_ind[k] < 0 || row_ind[k] >= n {
            return Err(Error::InvalidInput);
        }
        k += 1;
    }
    check_no_duplicates(n, col_ptr, row_ind)
}

/// Scans the columns with a last-seen marker per row and reports
/// `InvalidInput` exactly when some column repeats a row index.  The
/// remaining structural invariants must already hold.
fn check_no_duplicates(n: i32, col_ptr: &Vec<i32>, row_ind: &Vec<i32>) -> (r: Result<(), Error>)
    requires
        0 <= n,
        col_ptr@.len() == n as int + 1,
        col_ptr@[0] == 0,
        forall|j: int| 0 <= j < n as int ==> #[trigger] col_ptr@[j] <= col_ptr@[j + 1],
        col_ptr@[n as int] as int == row_ind@.len() as int,
        forall|k: int| 0 <= k < row_ind@.len()
            ==> 0 <= #[trigger] row_ind@[k] && (row_ind@[k] as int) < n as int,
    ensures
        r is Ok <==> cols_unique(n as int, col_ptr@, row_ind@),
        r is Err ==> r == Err::<(), Error>(Error::InvalidInput),
{
    let nu: usize = n as usize;
    let mut mark: Vec<i32> = Vec::new();
    let mut i: usize = 0;
    while i < nu
        invariant
            i <= nu,
            mark@.len() == i,
            forall|v: int| 0 <= v < i ==> #[trigger] mark@[v] == -1,
        decreases nu - i,
    {
        mark.push(-1);
        i += 1;
    }
    let mut j: usize = 0;
    while j < nu
        invariant
            nu == n as int,
            col_ptr@.len() == nu + 1,
            col_ptr@[0] == 0,
            forall|jj: int| 0 <= jj < nu ==> #[trigger] col_ptr@[jj] <= col_ptr@[jj + 1],
            col_ptr@[nu as int] as int == row_ind@.len() as int,
            forall|k: int| 0 <= k < row_ind@.len()
                ==> 0 <= #[trigger] row_ind@[k] && (row_ind@[k] as int) < nu as int,
            j <= nu,
            mark@.len() == nu,
            forall|v: int| 0 <= v < nu ==> -1 <= #[trigger] mark@[v] && mark@[v] < j as int,
            forall|jj: int, k1: int, k2: int|
                #![trigger col_ptr@[jj], row_ind@[k1], row_ind@[k2]]
                0 <= jj < j && col_ptr@[jj] as int <= k1 < k2 < col_ptr@[jj + 1] as int
                    ==> row_ind@[k1] != row_ind@[k2],
        decreases nu - j,
    {
        proof {
            lemma_col_ptr_monotone(n as int, col_ptr@, 0, j as int);
            lemma_col_ptr_monotone(n as int, col_ptr@, j as int + 1, n as int);
        }
        let start: usize = col_ptr[j] as usize;
        let end: usize = col_ptr[j + 1] as usize;
        let mut k: usize = start;
        while k < end
            invariant
                nu == n as int,
                col_ptr@.len() == nu + 1,
                j < nu,
                start == col_ptr@[j as int] as int,
                end == col_ptr@[j as int + 1] as int,
                start <= k <= end,
                end <= row_ind@.len(),
                forall|kk: int| 0 <= kk < row_ind@.len()
                    ==> 0 <= #[trigger] row_ind@[kk] && (row_ind@[kk] as int) < nu as int,
                mark@.len() == nu,
                forall|v: int| 0 <= v < nu ==> -1 <= #[trigger] mark@[v] && mark@[v] <= j as int,
                forall|v: int| 0 <= v < nu
                    ==> (#[trigger] mark@[v] == j as int
                        <==> exists|k2: int| start <= k2 < k && #[trigger] row_ind@[k2] as int == v),
                forall|k1: int, k2: int| start <= k1 < k2 < k ==> row_ind@[k1] != row_ind@[k2],
                forall|jj: int, k1: int, k2: int|
                    #![trigger col_ptr@[jj], row_ind@[k1], row_ind@[k2]]
                    0 <= jj < j && col_ptr@[jj] as int <= k1 < k2 < col_ptr@[jj + 1] as int
                        ==> row_ind@[k1] != row_ind@[k2],
            decreases end - k,
        {
            let row: usize = row_ind[k] as usize;
            if mark[row] == j as i32 {
                proof {
                    let kprev = choose|k2: int|
                        start <= k2 < k && #[trigger] row_ind@[k2] as int == row as int;
                    assert(row_ind@[kprev] == row_ind@[k as int]);
                    assert(!cols_unique(n as int, col_ptr@, row_ind@));
                }
                return Err(Error::InvalidInput);
            }
            mark.set(row, j as i32);
            k += 1;
        }
        j += 1;
    }
    Ok(())
}

/// Returns the first column that holds no nonzero, if any; such a column
/// makes the matrix structurally singular.
pub fn find_empty_column(n: i32, col_ptr: &Vec<i32>) -> (r: Option<usize>)
    requires
        0 <= n,
        col_ptr@.len() == n as int + 1,
    ensures
        match r {
            Some(j) => first_empty_column_is(n as int, col_ptr@, j as int),
            None => !has_empty_column(n as int, col_ptr@),
        },
{
    let nu: usize = n as usize;
    let mut j: usize = 0;
    while j < nu
        invariant
            nu == n as int,
            col_ptr@.len() == nu + 1,
            j <= nu,
            forall|jj: int| 0 <= jj < j ==> #[trigger] col_ptr@[jj] != col_ptr@[jj + 1],
        decreases nu - j,
    {
        if col_ptr[j] == col_ptr[j + 1] {
            return Some(j);
        }
        j += 1;
    }
    None
}

/// Admission check of the factorization stage: a matrix with an empty
/// column is structurally singular whatever its values are, and is
/// refused as `Singular`, naming the first such column; every other
/// pattern is admitted.
pub fn check_structurally_nonsingular(n: i32, col_ptr: &Vec<i32>) -> (r: Result<(), Error>)
    requires
        0 <= n,
        col_ptr@.len() == n as int + 1,
    ensures
        match r {
            Ok(()) => !has_empty_column(n as int, col_ptr@),
            Err(e) => (e matches Error::Singular(j) && first_empty_column_is(
                n as int,
                col_ptr@,
                j as int,
            )),
        },
{
    match find_empty_column(n, col_ptr) {
        Some(j) => Err(Error::Singular(j)),
        None => Ok(()),
    }
}

/// Checks that a values array carries exactly one scalar per structural
/// nonzero; a mismatch is an `InvalidInput` dimension error.
pub fn check_values_len(nnz: usize, values_len: usize) -> (r: Result<(), Error>)
    ensures
        r is Ok <==> values_len == nnz,
        r is Err ==> r == Err::<(), Error>(Error::InvalidInput),
{
    if values_len != nnz {
        return Err(Error::InvalidInput);
    }
    Ok(())
}

/// Checks that a batch of right-hand sides of total length `rhs_len`
/// splits evenly into vectors of length `n`, and returns how many; a
/// mismatch (or a zero dimension) is an `InvalidInput` dimension error.
pub fn check_rhs_len(n: usize, rhs_len: usize) -> (r: Result<usize, Error>)
    ensures
        match r {
            Ok(k) => n > 0 && rhs_len % n == 0 && k == rhs_len / n,
            Err(e) => e == Error::InvalidInput && (n == 0 || rhs_len % n != 0),
        },
{
    if n == 0 {
        return Err(Error::InvalidInput);
    }
    if rhs_len % n != 0 {
        return Err(Error::InvalidInput);
    }
    Ok(rhs_len / n)
}

} // verus!
