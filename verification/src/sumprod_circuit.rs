//! Sum-then-square chain: a list seeded with `x` where every new entry is
//! the square of the sum of all entries so far, recomputed from scratch at
//! each step (the quadratic shape is deliberate).  Each step is tied down by
//! a constraint `(sum of the list so far) * (the same sum) = new entry`; the
//! public output is the final square.

use vstd::prelude::*;

use crate::circuit_traits::BenchCircuit;
use crate::field::{add_bytes, prod_bytes, u64_bytes, Fe};
use crate::r1cs::{
    constraint_wf, lc1, lc_of_var, ConstraintModel, ConstraintSystem, LinearCombination,
    SynthesisError, SystemModel, Variable,
};

verus! {

/// The total of the first `n` list entries (`n >= 1`): every entry past the
/// seed is the square of the total before it.
pub open spec fn sp_total(x: Seq<u8>, n: nat) -> Seq<u8>
    decreases n,
{
    if n <= 1 {
        x
    } else {
        add_bytes(
            sp_total(x, (n - 1) as nat),
            prod_bytes(sp_total(x, (n - 1) as nat), sp_total(x, (n - 1) as nat)),
        )
    }
}

/// The `k`-th list entry: the seed, then each squared running total.
pub open spec fn sp_entry(x: Seq<u8>, k: nat) -> Seq<u8> {
    if k == 0 {
        x
    } else {
        prod_bytes(sp_total(x, k), sp_total(x, k))
    }
}

/// The combination summing the first `n` list entries, coefficient one
/// each; here the `j`-th entry sits in the `j`-th witness slot.
pub open spec fn sp_lc(n: int) -> Seq<(Variable, Seq<u8>)> {
    Seq::new(n as nat, |j: int| (Variable::Witness(j as usize), u64_bytes(1)))
}

#[derive(Clone, Copy)]
pub struct SumProdCircuit {
    pub x: Fe,
    pub t: usize,
}

impl SumProdCircuit {
    /// The expected public output: the square of the total of all `t - 1`
    /// list entries.
    pub open spec fn oracle(self) -> Seq<u8> {
        sp_entry(self.x@, (self.t - 1) as nat)
    }

    /// The `i`-th constraint: the sum of the list so far, times itself,
    /// gives the next entry; the last one lands in the public output slot.
    pub open spec fn constraint_model(self, i: int) -> ConstraintModel {
        ConstraintModel {
            a: sp_lc(i + 1),
            b: sp_lc(i + 1),
            c: if i < self.t - 2 {
                lc1(Variable::Witness((i + 1) as usize))
            } else {
                lc1(Variable::Instance(0))
            },
        }
    }

    /// The list entries, in allocation order.
    pub open spec fn witness_model(self) -> Seq<Option<Seq<u8>>> {
        Seq::new((self.t - 1) as nat, |k: int| Some(sp_entry(self.x@, k as nat)))
    }

    pub open spec fn model(self) -> SystemModel {
        SystemModel {
            witness: self.witness_model(),
            instance: seq![Some(self.oracle())],
            constraints: Seq::new((self.t - 1) as nat, |i: int| self.constraint_model(i)),
            sealed: false,
        }
    }

    /// Adds up a prefix of the list: from a freshly produced zero, one
    /// entry at a time, in list order.
    fn sum_of(values: &Vec<Fe>, x: &Fe) -> (r: Fe)
        requires
            values@.len() >= 1,
            forall|j: int| 0 <= j < values@.len() ==> (#[trigger] values@[j])@ == sp_entry(
                x@,
                j as nat,
            ),
        ensures
            r@ == sp_total(x@, values@.len() as nat),
    {
        let mut r = x.sub(x);
        let mut j: usize = 0;
        while j < values.len()
            invariant
                0 <= j <= values@.len(),
                1 <= values@.len(),
                forall|p: int| 0 <= p < values@.len() ==> (#[trigger] values@[p])@ == sp_entry(
                    x@,
                    p as nat,
                ),
                j == 0 ==> r@ == u64_bytes(0),
                j >= 1 ==> r@ == sp_total(x@, j as nat),
            decreases values@.len() - j,
        {
            r = r.add(&values[j]);
            j += 1;
        }
        r
    }

    /// Builds the combination over the list handles gathered so far.
    fn lc_of_list(vars: &Vec<Variable>) -> (r: LinearCombination)
        requires
            forall|j: int| 0 <= j < vars@.len() ==> #[trigger] vars@[j] == Variable::Witness(
                j as usize,
            ),
        ensures
            r@ == sp_lc(vars@.len() as int),
            r.wf(),
    {
        let mut lc = LinearCombination::new();
        let mut j: usize = 0;
        while j < vars.len()
            invariant
                0 <= j <= vars@.len(),
                forall|p: int| 0 <= p < vars@.len() ==> #[trigger] vars@[p] == Variable::Witness(
                    p as usize,
                ),
                lc@ == sp_lc(j as int),
                lc.wf(),
            decreases vars@.len() - j,
        {
            let v = vars[j];
            proof {
                assert forall|p: int| 0 <= p < lc@.len() implies (#[trigger] lc@[p]).0 != v by {
                    assert(lc@[p].0 == Variable::Witness(p as usize));
                }
                assert(!crate::r1cs::lc_has_var(lc@, v));
            }
            lc.add_term(v, Fe::from_u64(1));
            proof {
                assert(lc@ =~= sp_lc((j + 1) as int));
            }
            j += 1;
        }
        proof {
            assert(lc@ =~= sp_lc(vars@.len() as int));
        }
        lc
    }

    /// Declares the variables and emits the constraints into a fresh
    /// builder.  The public output slot receives exactly the oracle value.
    pub fn generate_constraints(&self, cs: &mut ConstraintSystem) -> (r: Result<
        (),
        SynthesisError,
    >)
        requires
            old(cs)@ == SystemModel::empty(),
            self.t >= 2,
        ensures
            r == Ok::<(), SynthesisError>(()),
            final(cs)@ == self.model(),
    {
        let x = match cs.allocate_witness(Some(self.x)) {
            Ok(v) => v,
            Err(_) => vstd::pervasive::unreached(),
        };
        let mut v_val: Vec<Fe> = Vec::new();
        let mut v: Vec<Variable> = Vec::new();
        v_val.push(self.x);
        v.push(x);
        proof {
            assert(cs@.witness =~= self.witness_model().take(1));
            assert(cs@.constraints =~= Seq::new(0, |i: int| self.constraint_model(i)));
        }
        let mut i: usize = 0;
        while i < self.t - 2
            invariant
                self.t >= 2,
                0 <= i <= self.t - 2,
                v_val@.len() == i + 1,
                v@.len() == i + 1,
                forall|j: int| 0 <= j <= i ==> #[trigger] v@[j] == Variable::Witness(j as usize),
                forall|j: int| 0 <= j <= i ==> (#[trigger] v_val@[j])@ == sp_entry(
                    self.x@,
                    j as nat,
                ),
                cs@.witness == self.witness_model().take(i + 1),
                cs@.instance == Seq::<Option<Seq<u8>>>::empty(),
                cs@.sealed == false,
                cs@.constraints == Seq::new(i as nat, |j: int| self.constraint_model(j)),
            decreases self.t - 2 - i,
        {
            let s_val = Self::sum_of(&v_val, &self.x);
            let r_val = s_val.mul(&s_val);
            let r_var = match cs.allocate_witness(Some(r_val)) {
                Ok(w) => w,
                Err(_) => vstd::pervasive::unreached(),
            };
            let la = Self::lc_of_list(&v);
            let lb = Self::lc_of_list(&v);
            v_val.push(r_val);
            v.push(r_var);
            let lcc = lc_of_var(r_var);
            let _ = cs.enforce(la, lb, lcc);
            proof {
                assert(cs@.witness =~= self.witness_model().take(i + 2));
                assert(cs@.constraints =~= Seq::new(
                    (i + 1) as nat,
                    |j: int| self.constraint_model(j),
                ));
            }
            i += 1;
        }
        let s_val = Self::sum_of(&v_val, &self.x);
        let out_val = s_val.mul(&s_val);
        let out = match cs.allocate_instance(Some(out_val)) {
            Ok(w) => w,
            Err(_) => vstd::pervasive::unreached(),
        };
        let la = Self::lc_of_list(&v);
        let lb = Self::lc_of_list(&v);
        let lcc = lc_of_var(out);
        let _ = cs.enforce(la, lb, lcc);
        proof {
            assert(cs@.witness =~= self.witness_model());
            assert(cs@.instance =~= seq![Some(self.oracle())]);
            assert(cs@.constraints =~= Seq::new(
                (self.t - 1) as nat,
                |j: int| self.constraint_model(j),
            ));
            assert(final(cs)@ =~~= self.model());
        }
        Ok(())
    }

    /// The combination over the first `n` list entries evaluates, under this
    /// circuit's assignment, to the running total.
    proof fn lemma_sp_lc_value(self, n: int)
        requires
            self.t >= 2,
            1 <= n <= self.t - 1,
        ensures
            self.model().lc_value(sp_lc(n)) == sp_total(self.x@, n as nat),
        decreases n,
    {
        let m = self.model();
        let l = sp_lc(n);
        if n == 1 {
            assert(l.len() == 1);
            assert(l[0] == (Variable::Witness(0usize), u64_bytes(1)));
        } else {
            assert(l.drop_last() =~= sp_lc(n - 1));
            self.lemma_sp_lc_value(n - 1);
            assert(l.last() == (Variable::Witness((n - 1) as usize), u64_bytes(1)));
            assert(m.var_value(Variable::Witness((n - 1) as usize)) == sp_entry(
                self.x@,
                (n - 1) as nat,
            ));
        }
    }

    /// Law: for any seed and any round count in range, the synthesized
    /// system is fully assigned and every constraint holds.
    pub proof fn lemma_model_satisfied(self)
        requires
            self.t >= 2,
        ensures
            self.model().wf(),
            self.model().complete(),
            self.model().all_hold(),
    {
        let m = self.model();
        assert forall|i: int| 0 <= i < m.constraints.len() implies constraint_wf(
            #[trigger] m.constraints[i],
            m.witness.len(),
            m.instance.len(),
        ) by {
            assert(m.constraints[i] == self.constraint_model(i));
            let a = sp_lc(i + 1);
            assert forall|p: int, q: int| 0 <= p < q < a.len() implies (#[trigger] a[p]).0 != (
            #[trigger] a[q]).0 by {
                assert(a[p].0 == Variable::Witness(p as usize));
                assert(a[q].0 == Variable::Witness(q as usize));
            }
            assert forall|p: int| 0 <= p < a.len() implies crate::r1cs::var_in_range(
                (#[trigger] a[p]).0,
                m.witness.len(),
                m.instance.len(),
            ) by {
                assert(a[p].0 == Variable::Witness(p as usize));
            }
        }
        assert forall|i: int| 0 <= i < m.constraints.len() implies m.constraint_holds(
            #[trigger] m.constraints[i],
        ) by {
            assert(m.constraints[i] == self.constraint_model(i));
            self.lemma_sp_lc_value(i + 1);
            if i < self.t - 2 {
                crate::r1cs::lemma_lc1_value(m, Variable::Witness((i + 1) as usize));
                assert(m.var_value(Variable::Witness((i + 1) as usize)) == sp_entry(
                    self.x@,
                    (i + 1) as nat,
                ));
            } else {
                crate::r1cs::lemma_lc1_value(m, Variable::Instance(0));
            }
        }
    }

    /// Law: for every seed and every round count in range, the sealed
    /// synthesized system passes the satisfiability check.
    pub proof fn lemma_satisfied(self)
        requires
            self.t >= 2,
        ensures
            crate::r1cs::check_outcome(self.model().seal()) == Ok::<bool, SynthesisError>(true),
    {
        self.lemma_model_satisfied();
        crate::r1cs::lemma_seal_preserves(self.model());
    }

    /// Law: the public input the prover must hand to a verifier is exactly
    /// the oracle value.
    pub proof fn lemma_instance_is_oracle(self)
        ensures
            self.model().instance == seq![Some(self.oracle())],
    {
    }
}

impl BenchCircuit for SumProdCircuit {
    /// The chain needs at least one entry before the output.
    open spec fn valid(&self) -> bool {
        self.t >= 2
    }

    /// One random seed; the chain length bakes in the backend's
    /// minimum-size floor: three more than the round count.
    fn new_random(seed: u64, rounds: usize) -> (r: Self)
        ensures
            r.t == rounds + 3,
    {
        SumProdCircuit { x: Fe::random(seed), t: rounds + 3 }
    }

    fn get_result(&self) -> (r: Fe)
        ensures
            r@ == self.oracle(),
    {
        let mut v_val: Vec<Fe> = Vec::new();
        v_val.push(self.x);
        let mut k: usize = 0;
        while k < self.t - 1
            invariant
                self.t >= 2,
                0 <= k <= self.t - 1,
                v_val@.len() == k + 1,
                forall|j: int| 0 <= j <= k ==> (#[trigger] v_val@[j])@ == sp_entry(
                    self.x@,
                    j as nat,
                ),
            decreases self.t - 1 - k,
        {
            let s = Self::sum_of(&v_val, &self.x);
            let r = s.mul(&s);
            v_val.push(r);
            k += 1;
        }
        let last = v_val.len() - 1;
        v_val[last]
    }
}

} // verus!
