//! Matrix extraction: the sealed system as three sparse coefficient
//! matrices, one row per constraint in declaration order, each row holding
//! only the nonzero `(column, coefficient)` pairs.
//!
//! Columns are canonical: column 0 is the constant one wire, columns
//! `1 ..= W` the witnesses in allocation order, columns `W+1 ..= W+I` the
//! instance values in allocation order.

use vstd::prelude::*;

use crate::field::{u64_bytes, Fe};
use crate::r1cs::{
    lc_has_var, lc_in_range, ConstraintModel, ConstraintSystem, LinearCombination, Variable,
};

verus! {

/// The column a handle occupies, among `1 + w + instance-count` columns.
pub open spec fn col_of(v: Variable, w: nat) -> nat {
    match v {
        Variable::One => 0,
        Variable::Witness(k) => (1 + k) as nat,
        Variable::Instance(k) => (1 + w + k) as nat,
    }
}

/// The sparse row a combination extracts to: its terms in insertion order,
/// zero coefficients dropped, handles mapped to columns.
pub open spec fn sparse_row(l: Seq<(Variable, Seq<u8>)>, w: nat) -> Seq<(nat, Seq<u8>)>
    decreases l.len(),
{
    if l.len() == 0 {
        Seq::empty()
    } else {
        let rest = sparse_row(l.drop_last(), w);
        if l.last().1 == u64_bytes(0) {
            rest
        } else {
            rest.push((col_of(l.last().0, w), l.last().1))
        }
    }
}

/// The nonzero count over a sequence of rows.
pub open spec fn total_nnz(rows: Seq<Seq<(Variable, Seq<u8>)>>, w: nat) -> nat
    decreases rows.len(),
{
    if rows.len() == 0 {
        0
    } else {
        total_nnz(rows.drop_last(), w) + sparse_row(rows.last(), w).len()
    }
}

/// The `A` combinations of a constraint list, and likewise `B` and `C`.
pub open spec fn a_rows(cs: Seq<ConstraintModel>) -> Seq<Seq<(Variable, Seq<u8>)>> {
    cs.map_values(|c: ConstraintModel| c.a)
}

pub open spec fn b_rows(cs: Seq<ConstraintModel>) -> Seq<Seq<(Variable, Seq<u8>)>> {
    cs.map_values(|c: ConstraintModel| c.b)
}

pub open spec fn c_rows(cs: Seq<ConstraintModel>) -> Seq<Seq<(Variable, Seq<u8>)>> {
    cs.map_values(|c: ConstraintModel| c.c)
}

/// The mathematical content of one extracted row.
pub open spec fn row_model(r: Seq<(usize, Fe)>) -> Seq<(nat, Seq<u8>)> {
    r.map_values(|p: (usize, Fe)| (p.0 as nat, p.1@))
}

/// The three sparse matrices of a sealed system, plus the per-matrix
/// nonzero totals an external proving backend sizes its setup with.
pub struct Matrices {
    pub a: Vec<Vec<(usize, Fe)>>,
    pub b: Vec<Vec<(usize, Fe)>>,
    pub c: Vec<Vec<(usize, Fe)>>,
    pub a_num_non_zero: usize,
    pub b_num_non_zero: usize,
    pub c_num_non_zero: usize,
}

/// Law: every stored pair of an extracted row has a nonzero coefficient, its
/// column stays under `1 + w + inst`, every pair comes from a term of the
/// combination, and the constant-wire column 0 appears only when the
/// combination explicitly references the constant handle.
pub proof fn lemma_sparse_row_entries(l: Seq<(Variable, Seq<u8>)>, w: nat, inst: nat)
    requires
        lc_in_range(l, w, inst),
    ensures
        forall|i: int| 0 <= i < sparse_row(l, w).len() ==> (#[trigger] sparse_row(l, w)[i]).1
            != u64_bytes(0),
        forall|i: int| 0 <= i < sparse_row(l, w).len() ==> (#[trigger] sparse_row(l, w)[i]).0 < 1
            + w + inst,
        forall|i: int|
            0 <= i < sparse_row(l, w).len() ==> exists|j: int|
                0 <= j < l.len() && (#[trigger] sparse_row(l, w)[i]) == (
                col_of(l[j].0, w),
                l[j].1,
                ),
        forall|i: int| 0 <= i < sparse_row(l, w).len() && (#[trigger] sparse_row(l, w)[i]).0 == 0
            ==> lc_has_var(l, Variable::One),
    decreases l.len(),
{
    if l.len() == 0 {
    } else {
        let rest = l.drop_last();
        assert(lc_in_range(rest, w, inst)) by {
            assert(forall|i: int| 0 <= i < rest.len() ==> rest[i] == l[i]);
        }
        lemma_sparse_row_entries(rest, w, inst);
        let s = sparse_row(l, w);
        let sr = sparse_row(rest, w);
        assert forall|i: int|
            0 <= i < s.len() implies exists|j: int|
            0 <= j < l.len() && (#[trigger] s[i]) == (col_of(l[j].0, w), l[j].1) by {
            if i < sr.len() {
                let j = choose|j: int| 0 <= j < rest.len() && sr[i] == (col_of(rest[j].0, w), rest[j].1);
                assert(l[j] == rest[j]);
                assert(s[i] == (col_of(l[j].0, w), l[j].1));
            } else {
                let j = l.len() - 1;
                assert(s[i] == (col_of(l[j].0, w), l[j].1));
            }
        }
        assert forall|i: int| 0 <= i < s.len() implies (#[trigger] s[i]).0 < 1 + w + inst by {
            let j = choose|j: int| 0 <= j < l.len() && s[i] == (col_of(l[j].0, w), l[j].1);
            assert(crate::r1cs::var_in_range(l[j].0, w, inst));
        }
        assert forall|i: int|
            0 <= i < s.len() && (#[trigger] s[i]).0 == 0 implies lc_has_var(l, Variable::One) by {
            let j = choose|j: int| 0 <= j < l.len() && s[i] == (col_of(l[j].0, w), l[j].1);
            assert(l[j].0 == Variable::One);
        }
    }
}

/// A row stores no more pairs than its combination has terms.
pub proof fn lemma_sparse_row_len(l: Seq<(Variable, Seq<u8>)>, w: nat)
    ensures
        sparse_row(l, w).len() <= l.len(),
    decreases l.len(),
{
    if l.len() > 0 {
        lemma_sparse_row_len(l.drop_last(), w);
    }
}

/// A prefix of the rows never counts more nonzeros than the whole.
pub proof fn lemma_total_nnz_take(rows: Seq<Seq<(Variable, Seq<u8>)>>, w: nat, k: int)
    requires
        0 <= k <= rows.len(),
    ensures
        total_nnz(rows.take(k), w) <= total_nnz(rows, w),
    decreases rows.len() - k,
{
    if k == rows.len() {
        assert(rows.take(k) =~= rows);
    } else {
        lemma_total_nnz_take(rows, w, k + 1);
        assert(rows.take(k + 1).drop_last() =~= rows.take(k));
        assert(rows.take(k + 1).last() == rows[k]);
    }
}

/// Extracts one row: the nonzero terms, in order, mapped to columns.
fn extract_row(l: &LinearCombination, w: usize, inst: usize) -> (r: Vec<(usize, Fe)>)
    requires
        lc_in_range(l@, w as nat, inst as nat),
        1 + w + inst <= usize::MAX,
    ensures
        row_model(r@) == sparse_row(l@, w as nat),
{
    let zero = Fe::from_u64(0);
    let mut row: Vec<(usize, Fe)> = Vec::new();
    proof {
        assert(row_model(row@) =~= sparse_row(l@.take(0), w as nat));
    }
    let n = l.len();
    let mut i: usize = 0;
    while i < n
        invariant
            0 <= i <= n,
            n == l@.len(),
            zero@ == u64_bytes(0),
            lc_in_range(l@, w as nat, inst as nat),
            1 + w + inst <= usize::MAX,
            row_model(row@) == sparse_row(l@.take(i as int), w as nat),
        decreases n - i,
    {
        let t = l.term_at(i);
        if !(t.1 == zero) {
            let col: usize = match t.0 {
                Variable::One => 0,
                Variable::Witness(k) => 1 + k,
                Variable::Instance(k) => 1 + w + k,
            };
            row.push((col, t.1));
        }
        proof {
            assert(l@.take(i + 1).drop_last() =~= l@.take(i as int));
            assert(l@.take(i + 1).last() == l@[i as int]);
            assert(row_model(row@) =~= sparse_row(l@.take(i + 1), w as nat));
        }
        i += 1;
    }
    proof {
        assert(l@.take(n as int) =~= l@);
    }
    row
}

impl ConstraintSystem {
    /// Extracts the three sparse matrices of a sealed system: one row per
    /// constraint in declaration order, only nonzero pairs stored, columns
    /// canonical, and the per-matrix nonzero totals.
    pub fn to_matrices(&self) -> (r: Matrices)
        requires
            self@.wf(),
            self@.sealed,
            1 + self@.witness.len() + self@.instance.len() <= usize::MAX,
            total_nnz(a_rows(self@.constraints), self@.witness.len()) <= usize::MAX,
            total_nnz(b_rows(self@.constraints), self@.witness.len()) <= usize::MAX,
            total_nnz(c_rows(self@.constraints), self@.witness.len()) <= usize::MAX,
        ensures
            r.a@.len() == self@.constraints.len(),
            r.b@.len() == self@.constraints.len(),
            r.c@.len() == self@.constraints.len(),
            forall|i: int| 0 <= i < self@.constraints.len() ==> row_model(#[trigger] r.a@[i]@)
                == sparse_row(self@.constraints[i].a, self@.witness.len()),
            forall|i: int| 0 <= i < self@.constraints.len() ==> row_model(#[trigger] r.b@[i]@)
                == sparse_row(self@.constraints[i].b, self@.witness.len()),
            forall|i: int| 0 <= i < self@.constraints.len() ==> row_model(#[trigger] r.c@[i]@)
                == sparse_row(self@.constraints[i].c, self@.witness.len()),
            r.a_num_non_zero == total_nnz(a_rows(self@.constraints), self@.witness.len()),
            r.b_num_non_zero == total_nnz(b_rows(self@.constraints), self@.witness.len()),
            r.c_num_non_zero == total_nnz(c_rows(self@.constraints), self@.witness.len()),
    {
        let counts = self.counts();
        let w = counts.witness;
        let inst = counts.instance;
        let n = counts.constraints;
        let mut ma: Vec<Vec<(usize, Fe)>> = Vec::new();
        let mut mb: Vec<Vec<(usize, Fe)>> = Vec::new();
        let mut mc: Vec<Vec<(usize, Fe)>> = Vec::new();
        let mut na: usize = 0;
        let mut nb: usize = 0;
        let mut nc: usize = 0;
        let ghost cms = self@.constraints;
        let ghost wn = self@.witness.len();
        proof {
            assert(a_rows(cms).take(0) =~= a_rows(cms.take(0)));
        }
        let mut k: usize = 0;
        while k < n
            invariant
                0 <= k <= n,
                n == cms.len(),
                w == wn,
                inst == self@.instance.len(),
                cms == self@.constraints,
                wn == self@.witness.len(),
                self@.wf(),
                1 + w + inst <= usize::MAX,
                total_nnz(a_rows(cms), wn) <= usize::MAX,
                total_nnz(b_rows(cms), wn) <= usize::MAX,
                total_nnz(c_rows(cms), wn) <= usize::MAX,
                ma@.len() == k,
                mb@.len() == k,
                mc@.len() == k,
                forall|i: int| 0 <= i < k ==> row_model(#[trigger] ma@[i]@) == sparse_row(
                    cms[i].a,
                    wn,
                ),
                forall|i: int| 0 <= i < k ==> row_model(#[trigger] mb@[i]@) == sparse_row(
                    cms[i].b,
                    wn,
                ),
                forall|i: int| 0 <= i < k ==> row_model(#[trigger] mc@[i]@) == sparse_row(
                    cms[i].c,
                    wn,
                ),
                na == total_nnz(a_rows(cms).take(k as int), wn),
                nb == total_nnz(b_rows(cms).take(k as int), wn),
                nc == total_nnz(c_rows(cms).take(k as int), wn),
            decreases n - k,
        {
            let c = self.constraint_at(k);
            proof {
                assert(c@ == cms[k as int]);
                assert(crate::r1cs::constraint_wf(c@, wn, self@.instance.len()));
                crate::r1cs::lemma_constraint_view(c);
            }
            let ra = extract_row(&c.a, w, inst);
            let rb = extract_row(&c.b, w, inst);
            let rc = extract_row(&c.c, w, inst);
            proof {
                assert(ra@.len() == sparse_row(cms[k as int].a, wn).len());
                assert(rb@.len() == sparse_row(cms[k as int].b, wn).len());
                assert(rc@.len() == sparse_row(cms[k as int].c, wn).len());
                assert(a_rows(cms).take(k + 1).drop_last() =~= a_rows(cms).take(k as int));
                assert(a_rows(cms).take(k + 1).last() == cms[k as int].a);
                assert(b_rows(cms).take(k + 1).drop_last() =~= b_rows(cms).take(k as int));
                assert(b_rows(cms).take(k + 1).last() == cms[k as int].b);
                assert(c_rows(cms).take(k + 1).drop_last() =~= c_rows(cms).take(k as int));
                assert(c_rows(cms).take(k + 1).last() == cms[k as int].c);
                lemma_total_nnz_take(a_rows(cms), wn, k + 1);
                lemma_total_nnz_take(b_rows(cms), wn, k + 1);
                lemma_total_nnz_take(c_rows(cms), wn, k + 1);
            }
            na = na + ra.len();
            nb = nb + rb.len();
            nc = nc + rc.len();
            ma.push(ra);
            mb.push(rb);
            mc.push(rc);
            k += 1;
        }
        proof {
            assert(a_rows(cms).take(n as int) =~= a_rows(cms));
            assert(b_rows(cms).take(n as int) =~= b_rows(cms));
            assert(c_rows(cms).take(n as int) =~= c_rows(cms));
        }
        Matrices {
            a: ma,
            b: mb,
            c: mc,
            a_num_non_zero: na,
            b_num_non_zero: nb,
            c_num_non_zero: nc,
        }
    }
}

} // verus!
