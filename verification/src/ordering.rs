//! Fill-reducing ordering stage.
//!
//! The heuristic itself — approximate minimum degree over the elimination
//! graph — is the `amd` crate's work and is reached through a trusted
//! wrapper.  Everything around the call is verified: the pattern is
//! validated before the call, and the returned table is checked to be a
//! bijection (and its inverse computed) rather than trusted.  The
//! heuristic is deterministic integer computation, so its table carries a
//! spec-level name, which lets callers state that ordering the same
//! pattern twice gives the same permutation.

use vstd::prelude::*;

use crate::csc::check_pattern;
use crate::csc::find_empty_column;
use crate::csc::first_empty_column_is;
use crate::csc::has_empty_column;
use crate::csc::valid_pattern;
use crate::perm::is_perm_vec;
use crate::perm::Permutation;
use crate::Error;

verus! {

/// The table that the approximate-minimum-degree heuristic computes for
/// a pattern under its default controls: a function of the pattern
/// alone.  What the table is on a given pattern is not stated — only the
/// trusted wrapper below speaks of it.
pub uninterp spec fn amd_ordering_of(ap: Seq<i32>, ai: Seq<i32>) -> Seq<i32>;

/// Relies on `amd::order` under `amd::Control::default` (dense-row
/// threshold of ten, aggressive absorption on).  Its own validity scan
/// can only find a structurally valid pattern `OK` or `OkButJumbled`
/// (unsorted columns are tolerated), never `Invalid`, which is its sole
/// error return, so the call succeeds.  The table it hands back has
/// length `n` (`n = 0` gives the empty table) and is a permutation of
/// `[0, n)`: every index is assigned a position exactly once.  The
/// heuristic consults no randomness, clock or environment, so the table
/// is a function of the pattern alone, named `amd_ordering_of`.  A
/// pattern with fewer nonzeros than columns is left out: a debug
/// assertion inside the crate subtracts the dimension from the nonzero
/// count and would overflow on it.
#[verifier::external_body]
fn amd_order(n: i32, col_ptr: &Vec<i32>, row_ind: &Vec<i32>) -> (r: Result<Vec<i32>, Error>)
    requires
        valid_pattern(n as int, col_ptr@, row_ind@),
        row_ind@.len() >= n as int,
    ensures
        r is Ok,
        r matches Ok(p) ==> p@.len() == n as int && is_perm_vec(p@) && p@ == amd_ordering_of(
            col_ptr@,
            row_ind@,
        ),
{
    let control = amd::Control::default();
    match amd::order::<i32>(n, col_ptr.as_slice(), row_ind.as_slice(), &control) {
        Ok((p, _p_inv, _info)) => Ok(p),
        Err(_) => Err(Error::InvalidInput),
    }
}

/// Ordering entry point: validates the pattern of an `n`-by-`n` matrix,
/// computes a fill-reducing column permutation with the
/// approximate-minimum-degree heuristic, and returns it together with its
/// inverse, checked to be a bijection of `[0, n)`, and a structural
/// status: the first column without nonzeros, if any.  A structurally
/// singular pattern is degenerate but not fatal here — the permutation is
/// still produced and the condition is reported upward, so that the
/// factorization stage can refuse it as `Singular`.
///
/// Success is owed on every well-formed pattern; a malformed one is
/// reported as `InvalidInput`, the only error of this stage.  The
/// permutation is a function of the pattern alone: the heuristic's table
/// where the heuristic runs, the natural order for the degenerate
/// patterns it cannot take.
pub fn order(n: i32, col_ptr: &Vec<i32>, row_ind: &Vec<i32>) -> (r: Result<
    (Permutation, Option<usize>),
    Error,
>)
    ensures
        r is Ok <==> valid_pattern(n as int, col_ptr@, row_ind@),
        r is Err ==> r == Err::<(Permutation, Option<usize>), Error>(Error::InvalidInput),
        r matches Ok(qs) ==> {
            &&& qs.0.wf()
            &&& qs.0.n() == n as int
            &&& match qs.1 {
                Some(j) => first_empty_column_is(n as int, col_ptr@, j as int),
                None => !has_empty_column(n as int, col_ptr@),
            }
            &&& row_ind@.len() >= n as int ==> (forall|i: int|
                0 <= i < n as int ==> #[trigger] qs.0.fwd()[i] as int == amd_ordering_of(
                    col_ptr@,
                    row_ind@,
                )[i] as int)
            &&& row_ind@.len() < n as int ==> (qs.1 is Some && (forall|i: int|
                0 <= i < n as int ==> #[trigger] qs.0.fwd()[i] as int == i))
        },
{
    match check_pattern(n, col_ptr, row_ind) {
        Err(e) => Err(e),
        Ok(()) => {
            let status = find_empty_column(n, col_ptr);
            if row_ind.len() < n as usize {
                // Fewer nonzeros than columns leaves some column empty, so
                // the matrix is degenerate whatever the ordering; the
                // natural order serves, and the status reports the defect.
                proof {
                    if !crate::csc::has_empty_column(n as int, col_ptr@) {
                        crate::csc::lemma_full_columns_need_n_nonzeros(
                            n as int,
                            col_ptr@,
                            n as int,
                        );
                    }
                }
                return Ok((Permutation::identity(n as usize), status));
            }
            match amd_order(n, col_ptr, row_ind) {
                Err(_) => Err(Error::InvalidInput),
                Ok(p) => match Permutation::try_new(&p) {
                    Some(q) => Ok((q, status)),
                    None => Err(Error::InvalidInput),
                },
            }
        },
    }
}

} // verus!
