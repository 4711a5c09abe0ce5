//! Structural core of a sparse direct linear solver pipeline.
//!
//! The pipeline has three stages: a fill-reducing ordering of the matrix
//! columns, a sparse LU factorization with partial pivoting, and a
//! triangular solve.  This crate holds the verified structural side of
//! that pipeline: validation of compressed-column patterns, permutation
//! bookkeeping with proved bijection invariants, structural singularity
//! detection, and the ordering stage itself, which calls into the `amd`
//! crate for the approximate-minimum-degree heuristic.  The numeric
//! factorization and substitution work on floating-point values and is
//! left to the `rlu` crate, driven by unverified glue around this
//! library.

use vstd::prelude::*;

pub mod csc;
pub mod ordering;
pub mod perm;

verus! {

/// The error taxonomy of the whole pipeline.
#[derive(Clone, Copy, Debug, PartialEq, Eq, Structural)]
pub enum Error {
    /// Malformed structural arrays: out-of-range indices, non-monotonic
    /// column pointers, or dimension mismatches.  Always fatal to the call.
    InvalidInput,
    /// The matrix is structurally or numerically singular; carries the
    /// index of the offending column.
    Singular(usize),
    /// Storage for the factors or the ordering workspace could not be grown.
    OutOfMemory,
}

} // verus!

