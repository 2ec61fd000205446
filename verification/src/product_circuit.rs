//! Product chain: one private seed `x` and the chain of its powers
//! `x, x^2, ..., x^t`, tied together by `t - 1` constraints of the shape
//! `old * x = new`; the public output is `x^t`.

use vstd::prelude::*;

use crate::circuit_traits::BenchCircuit;
use crate::field::{prod_bytes, Fe};
use crate::r1cs::{
    constraint_wf, lc1, lc_of_var, ConstraintModel, ConstraintSystem, SynthesisError, SystemModel,
    Variable,
};

verus! {

/// The `k`-th element of the power chain seeded with `x`: the encoding of
/// `x^(k+1)`.
pub open spec fn pow_chain(x: Seq<u8>, k: nat) -> Seq<u8>
    decreases k,
{
    if k == 0 {
        x
    } else {
        prod_bytes(pow_chain(x, (k - 1) as nat), x)
    }
}

#[derive(Clone, Copy)]
pub struct ProductCircuit {
    pub x: Fe,
    pub t: usize,
}

impl ProductCircuit {
    /// The expected public output: `x^t`.
    pub open spec fn oracle(self) -> Seq<u8> {
        pow_chain(self.x@, (self.t - 1) as nat)
    }

    /// The `i`-th constraint: the `i`-th power times `x` is the next power;
    /// the last one lands in the public output slot.
    pub open spec fn constraint_model(self, i: int) -> ConstraintModel {
        ConstraintModel {
            a: lc1(Variable::Witness(i as usize)),
            b: lc1(Variable::Witness(0)),
            c: if i < self.t - 2 {
                lc1(Variable::Witness((i + 1) as usize))
            } else {
                lc1(Variable::Instance(0))
            },
        }
    }

    /// The whole system this circuit synthesizes: the powers
    /// `x^1 .. x^(t-1)` as witnesses, `x^t` as the public output.
    pub open spec fn model(self) -> SystemModel {
        SystemModel {
            witness: Seq::new((self.t - 1) as nat, |j: int| Some(pow_chain(self.x@, j as nat))),
            instance: seq![Some(self.oracle())],
            constraints: Seq::new((self.t - 1) as nat, |i: int| self.constraint_model(i)),
            sealed: false,
        }
    }

    /// Declares the variables and emits the constraints into a fresh
    /// builder.  The public output slot receives exactly the oracle value.
    pub fn generate_constraints(&self, cs: &mut ConstraintSystem) -> (r: Result<
        (),
        SynthesisError,
    >)
        requires
            old(cs)@ == SystemModel::empty(),
            self.t >= 2,
        ensures
            r == Ok::<(), SynthesisError>(()),
            final(cs)@ == self.model(),
    {
        let x = match cs.allocate_witness(Some(self.x)) {
            Ok(v) => v,
            Err(_) => vstd::pervasive::unreached(),
        };
        proof {
            assert(cs@.witness =~= Seq::new(1, |j: int| Some(pow_chain(self.x@, j as nat))));
            assert(cs@.constraints =~= Seq::new(0, |i: int| self.constraint_model(i)));
        }
        let mut prev_val = self.x;
        let mut prev = x;
        let mut i: usize = 0;
        while i < self.t - 2
            invariant
                self.t >= 2,
                0 <= i <= self.t - 2,
                x == Variable::Witness(0usize),
                prev == Variable::Witness(i),
                prev_val@ == pow_chain(self.x@, i as nat),
                cs@.witness == Seq::new((i + 1) as nat, |j: int| Some(pow_chain(self.x@, j as nat))),
                cs@.instance == Seq::<Option<Seq<u8>>>::empty(),
                cs@.sealed == false,
                cs@.constraints == Seq::new(i as nat, |j: int| self.constraint_model(j)),
            decreases self.t - 2 - i,
        {
            let new_val = prev_val.mul(&self.x);
            let new_var = match cs.allocate_witness(Some(new_val)) {
                Ok(v) => v,
                Err(_) => vstd::pervasive::unreached(),
            };
            let la = lc_of_var(prev);
            let lb = lc_of_var(x);
            let lcc = lc_of_var(new_var);
            let _ = cs.enforce(la, lb, lcc);
            proof {
                assert(cs@.witness =~= Seq::new(
                    (i + 2) as nat,
                    |j: int| Some(pow_chain(self.x@, j as nat)),
                ));
                assert(cs@.constraints =~= Seq::new(
                    (i + 1) as nat,
                    |j: int| self.constraint_model(j),
                ));
            }
            prev_val = new_val;
            prev = new_var;
            i += 1;
        }
        let out_val = prev_val.mul(&self.x);
        let out = match cs.allocate_instance(Some(out_val)) {
            Ok(v) => v,
            Err(_) => vstd::pervasive::unreached(),
        };
        let la = lc_of_var(prev);
        let lb = lc_of_var(x);
        let lcc = lc_of_var(out);
        let _ = cs.enforce(la, lb, lcc);
        proof {
            assert(cs@.instance =~= seq![Some(self.oracle())]);
            assert(cs@.constraints =~= Seq::new(
                (self.t - 1) as nat,
                |j: int| self.constraint_model(j),
            ));
            assert(final(cs)@ =~~= self.model());
        }
        Ok(())
    }

    /// Law: for any seed and any round count in range, the synthesized
    /// system is fully assigned and every constraint holds.
    pub proof fn lemma_model_satisfied(self)
        requires
            self.t >= 2,
        ensures
            self.model().wf(),
            self.model().complete(),
            self.model().all_hold(),
    {
        let m = self.model();
        assert forall|i: int| 0 <= i < m.constraints.len() implies constraint_wf(
            #[trigger] m.constraints[i],
            m.witness.len(),
            m.instance.len(),
        ) by {
            assert(m.constraints[i] == self.constraint_model(i));
        }
        assert forall|i: int| 0 <= i < m.constraints.len() implies m.constraint_holds(
            #[trigger] m.constraints[i],
        ) by {
            assert(m.constraints[i] == self.constraint_model(i));
            crate::r1cs::lemma_lc1_value(m, Variable::Witness(i as usize));
            crate::r1cs::lemma_lc1_value(m, Variable::Witness(0));
            if i < self.t - 2 {
                crate::r1cs::lemma_lc1_value(m, Variable::Witness((i + 1) as usize));
            } else {
                crate::r1cs::lemma_lc1_value(m, Variable::Instance(0));
            }
        }
    }

    /// Law: for every seed and every round count in range, the sealed
    /// synthesized system passes the satisfiability check.
    pub proof fn lemma_satisfied(self)
        requires
            self.t >= 2,
        ensures
            crate::r1cs::check_outcome(self.model().seal()) == Ok::<bool, SynthesisError>(true),
    {
        self.lemma_model_satisfied();
        crate::r1cs::lemma_seal_preserves(self.model());
    }

    /// Law: the public input the prover must hand to a verifier is exactly
    /// the oracle value.
    pub proof fn lemma_instance_is_oracle(self)
        ensures
            self.model().instance == seq![Some(self.oracle())],
    {
    }
}

impl BenchCircuit for ProductCircuit {
    /// The chain needs at least one witness power before the output.
    open spec fn valid(&self) -> bool {
        self.t >= 2
    }

    /// One random seed; the chain length bakes in the backend's
    /// minimum-size floor: three more than the round count.
    fn new_random(seed: u64, rounds: usize) -> (r: Self)
        ensures
            r.t == rounds + 3,
    {
        ProductCircuit { x: Fe::random(seed), t: rounds + 3 }
    }

    fn get_result(&self) -> (r: Fe)
        ensures
            r@ == self.oracle(),
    {
        let mut r = self.x;
        let mut k: usize = 0;
        while k < self.t - 1
            invariant
                self.t >= 2,
                0 <= k <= self.t - 1,
                r@ == pow_chain(self.x@, k as nat),
            decreases self.t - 1 - k,
        {
            r = r.mul(&self.x);
            k += 1;
        }
        r
    }
}

} // verus!
