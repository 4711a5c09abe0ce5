//! Permutations of `[0, n)` with their inverses.
//!
//! Two permutations run through the pipeline: the fill-reducing column
//! permutation produced by the ordering stage and the pivot-driven row
//! permutation produced by the factorization stage.  Both are kept as a
//! forward table together with its inverse, under an invariant that makes
//! them bijections by construction.

use vstd::prelude::*;

verus! {

/// Every entry of `s` lies in `[0, s.len())`.
pub open spec fn perm_in_range(s: Seq<i32>) -> bool {
    forall|i: int| 0 <= i < s.len() ==> 0 <= #[trigger] s[i] && (s[i] as int) < s.len() as int
}

/// No two entries of `s` coincide.
pub open spec fn perm_injective(s: Seq<i32>) -> bool {
    forall|i1: int, i2: int| 0 <= i1 < i2 < s.len() ==> s[i1] != s[i2]
}

/// The value `v` occurs somewhere in `s`.
pub open spec fn appears(s: Seq<i32>, v: int) -> bool {
    exists|i: int| 0 <= i < s.len() && #[trigger] s[i] as int == v
}

/// Every value of `[0, s.len())` occurs in `s`.
pub open spec fn perm_surjective(s: Seq<i32>) -> bool {
    forall|v: int| 0 <= v < s.len() ==> #[trigger] appears(s, v)
}

/// `s` is a bijection of `[0, s.len())`.
pub open spec fn is_perm_vec(s: Seq<i32>) -> bool {
    perm_in_range(s) && perm_injective(s) && perm_surjective(s)
}

/// A permutation of `[0, n)` together with its inverse.
pub struct Permutation {
    fwd_tbl: Vec<usize>,
    inv_tbl: Vec<usize>,
}

impl Permutation {
    /// The forward mapping as a sequence: index `i` is sent to `fwd()[i]`.
    pub closed spec fn fwd(self) -> Seq<usize> {
        self.fwd_tbl@
    }

    /// The inverse mapping as a sequence.
    pub closed spec fn bwd(self) -> Seq<usize> {
        self.inv_tbl@
    }

    /// The size of the index set the permutation acts on.
    pub open spec fn n(self) -> nat {
        self.fwd().len()
    }

    /// Well-formedness: the two tables have length `n`, stay inside
    /// `[0, n)`, and are inverse to one another in both directions —
    /// which makes each of them a bijection of `[0, n)`.
    pub open spec fn wf(self) -> bool {
        &&& self.bwd().len() == self.n()
        &&& (forall|i: int| 0 <= i < self.n() ==> (#[trigger] self.fwd()[i] as int) < self.n())
        &&& (forall|i: int| 0 <= i < self.n() ==> (#[trigger] self.bwd()[i] as int) < self.n())
        &&& (forall|i: int| 0 <= i < self.n()
            ==> self.bwd()[#[trigger] self.fwd()[i] as int] as int == i)
        &&& (forall|i: int| 0 <= i < self.n()
            ==> self.fwd()[#[trigger] self.bwd()[i] as int] as int == i)
    }

    /// Builds a permutation from a forward table of 32-bit indices,
    /// computing the inverse, or reports that the table is no bijection.
    pub fn try_new(p: &Vec<i32>) -> (r: Option<Permutation>)
        ensures
            match r {
                Some(q) => q.wf() && q.n() == p@.len()
                    && forall|i: int| 0 <= i < p@.len() ==> #[trigger] q.fwd()[i] as int == p@[i] as int,
                None => !is_perm_vec(p@),
            },
    {
        let n: usize = p.len();
        let mut fwd_tbl: Vec<usize> = Vec::new();
        let mut inv_tbl: Vec<usize> = Vec::new();
        let mut i: usize = 0;
        while i < n
            invariant
                i <= n,
                inv_tbl@.len() == i,
                forall|v: int| 0 <= v < i ==> #[trigger] inv_tbl@[v] == n,
            decreases n - i,
        {
            inv_tbl.push(n);
            i += 1;
        }
        let mut i: usize = 0;
        while i < n
            invariant
                n == p@.len(),
                i <= n,
                fwd_tbl@.len() == i,
                inv_tbl@.len() == n,
                forall|ii: int| 0 <= ii < i
                    ==> 0 <= #[trigger] p@[ii] && (p@[ii] as int) < n as int,
                forall|ii: int| 0 <= ii < i ==> #[trigger] fwd_tbl@[ii] as int == p@[ii] as int,
                forall|v: int| 0 <= v < n
                    ==> #[trigger] inv_tbl@[v] as int == n as int
                        || (inv_tbl@[v] < i && p@[inv_tbl@[v] as int] as int == v),
                forall|ii: int| 0 <= ii < i ==> #[trigger] inv_tbl@[p@[ii] as int] == ii,
            decreases n - i,
        {
            let v: i32 = p[i];
            if v < 0 || v as usize >= n {
                assert(!perm_in_range(p@));
                return None;
            }
            let vu: usize = v as usize;
            if inv_tbl[vu] != n {
                proof {
                    let iprev = inv_tbl@[vu as int] as int;
                    assert(p@[iprev] == p@[i as int]);
                    assert(!perm_injective(p@));
                }
                return None;
            }
            inv_tbl.set(vu, i);
            fwd_tbl.push(vu);
            i += 1;
        }
        let mut v: usize = 0;
        while v < n
            invariant
                n == p@.len(),
                v <= n,
                inv_tbl@.len() == n,
                forall|ii: int| 0 <= ii < n
                    ==> 0 <= #[trigger] p@[ii] && (p@[ii] as int) < n as int,
                forall|vv: int| 0 <= vv < n
                    ==> #[trigger] inv_tbl@[vv] as int == n as int
                        || (inv_tbl@[vv] < n && p@[inv_tbl@[vv] as int] as int == vv),
                forall|ii: int| 0 <= ii < n ==> #[trigger] inv_tbl@[p@[ii] as int] == ii,
                forall|vv: int| 0 <= vv < v ==> (#[trigger] inv_tbl@[vv] as int) < n as int,
            decreases n - v,
        {
            if inv_tbl[v] == n {
                proof {
                    assert(!appears(p@, v as int)) by {
                        if appears(p@, v as int) {
                            let ii = choose|ii: int|
                                0 <= ii < p@.len() && #[trigger] p@[ii] as int == v as int;
                            assert(inv_tbl@[p@[ii] as int] == ii);
                            assert(false);
                        }
                    }
                    assert(!perm_surjective(p@));
                }
                return None;
            }
            v += 1;
        }
        let q = Permutation { fwd_tbl, inv_tbl };
        Some(q)
    }

    /// The identity permutation of `[0, n)`, the default when the
    /// ordering stage is skipped.
    pub fn identity(n: usize) -> (r: Permutation)
        ensures
            r.wf(),
            r.n() == n,
            forall|i: int| 0 <= i < n ==> #[trigger] r.fwd()[i] as int == i,
    {
        let mut fwd_tbl: Vec<usize> = Vec::new();
        let mut inv_tbl: Vec<usize> = Vec::new();
        let mut i: usize = 0;
        while i < n
            invariant
                i <= n,
                fwd_tbl@.len() == i,
                inv_tbl@.len() == i,
                forall|ii: int| 0 <= ii < i ==> #[trigger] fwd_tbl@[ii] == ii,
                forall|ii: int| 0 <= ii < i ==> #[trigger] inv_tbl@[ii] == ii,
            decreases n - i,
        {
            fwd_tbl.push(i);
            inv_tbl.push(i);
            i += 1;
        }
        Permutation { fwd_tbl, inv_tbl }
    }

    /// The size of the index set, as a machine integer.
    pub fn size(&self) -> (r: usize)
        ensures
            r == self.n(),
    {
        self.fwd_tbl.len()
    }

    /// Where index `i` is sent.
    pub fn index(&self, i: usize) -> (r: usize)
        requires
            self.wf(),
            i < self.n(),
        ensures
            r == self.fwd()[i as int],
            r < self.n(),
    {
        self.fwd_tbl[i]
    }

    /// Which index is sent to `i`.
    pub fn inv_index(&self, i: usize) -> (r: usize)
        requires
            self.wf(),
            i < self.n(),
        ensures
            r == self.bwd()[i as int],
            r < self.n(),
    {
        self.inv_tbl[i]
    }

    /// The forward table as 32-bit indices, the wire format the numeric
    /// factorization consumes.
    pub fn to_vec_i32(&self) -> (r: Vec<i32>)
        requires
            self.wf(),
            self.n() < 0x8000_0000,
        ensures
            r@.len() == self.n(),
            forall|i: int| 0 <= i < self.n() ==> #[trigger] r@[i] as int == self.fwd()[i] as int,
    {
        let n: usize = self.fwd_tbl.len();
        let mut out: Vec<i32> = Vec::new();
        let mut i: usize = 0;
        while i < n
            invariant
                self.wf(),
                n == self.n(),
                n < 0x8000_0000,
                i <= n,
                out@.len() == i,
                forall|ii: int| 0 <= ii < i ==> #[trigger] out@[ii] as int == self.fwd()[ii] as int,
            decreases n - i,
        {
            out.push(self.fwd_tbl[i] as i32);
            i += 1;
        }
        out
    }
}

/// Law: applying a well-formed permutation and then its inverse — or the
/// inverse and then the permutation — returns every index of `[0, n)` to
/// itself.
pub proof fn lemma_roundtrip(q: Permutation)
    requires
        q.wf(),
    ensures
        forall|i: int| 0 <= i < q.n() ==> q.bwd()[#[trigger] q.fwd()[i] as int] as int == i,
        forall|i: int| 0 <= i < q.n() ==> q.fwd()[#[trigger] q.bwd()[i] as int] as int == i,
{
}

/// The value `v` occurs somewhere in `s`.
pub open spec fn appears_usize(s: Seq<usize>, v: int) -> bool {
    exists|i: int| 0 <= i < s.len() && #[trigger] s[i] as int == v
}

/// Law: the forward table of a well-formed permutation is a bijection of
/// `[0, n)` — in range, injective, and surjective.
pub proof fn lemma_wf_bijective(q: Permutation)
    requires
        q.wf(),
    ensures
        forall|i: int| 0 <= i < q.n() ==> (#[trigger] q.fwd()[i] as int) < q.n(),
        forall|i1: int, i2: int| 0 <= i1 < i2 < q.n() ==> q.fwd()[i1] != q.fwd()[i2],
        forall|v: int| 0 <= v < q.n() ==> #[trigger] appears_usize(q.fwd(), v),
{
    assert forall|i1: int, i2: int| 0 <= i1 < i2 < q.n() implies q.fwd()[i1] != q.fwd()[i2] by {
        if q.fwd()[i1] == q.fwd()[i2] {
            assert(q.bwd()[q.fwd()[i1] as int] as int == i1);
            assert(q.bwd()[q.fwd()[i2] as int] as int == i2);
        }
    }
    assert forall|v: int| 0 <= v < q.n() implies #[trigger] appears_usize(q.fwd(), v) by {
        assert(q.fwd()[q.bwd()[v] as int] as int == v);
    }
}

} // verus!
