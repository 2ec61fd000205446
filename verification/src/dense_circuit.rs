//! Two-term squared sum: two private seeds `a` and `b`, one public output
//! `c`, and repeated copies of the one constraint `(a + b) * (a + b) = c`.

use vstd::prelude::*;

use crate::circuit_traits::BenchCircuit;
use crate::field::{add_bytes, prod_bytes, Fe};
use crate::r1cs::{
    constraint_wf, lc1, lc2, lc_of_pair, lc_of_var, ConstraintModel, ConstraintSystem,
    SynthesisError, SystemModel, Variable,
};

verus! {

#[derive(Clone, Copy)]
pub struct DenseCircuit {
    pub a: Fe,
    pub b: Fe,
    pub num_constraints: usize,
}

impl DenseCircuit {
    /// The expected public output: `(a + b) * (a + b)`.
    pub open spec fn oracle(self) -> Seq<u8> {
        prod_bytes(add_bytes(self.a@, self.b@), add_bytes(self.a@, self.b@))
    }

    /// The one constraint shape: `(a + b) * (a + b) = c`.
    pub open spec fn constraint_model(self) -> ConstraintModel {
        ConstraintModel {
            a: lc2(Variable::Witness(0), Variable::Witness(1)),
            b: lc2(Variable::Witness(0), Variable::Witness(1)),
            c: lc1(Variable::Instance(0)),
        }
    }

    /// The whole system this circuit synthesizes.
    pub open spec fn model(self) -> SystemModel {
        SystemModel {
            witness: seq![Some(self.a@), Some(self.b@)],
            instance: seq![Some(self.oracle())],
            constraints: Seq::new(self.num_constraints as nat, |i: int| self.constraint_model()),
            sealed: false,
        }
    }

    /// Declares the variables and emits the constraints into a fresh
    /// builder.  The public output slot receives exactly the oracle value.
    pub fn generate_constraints(&self, cs: &mut ConstraintSystem) -> (r: Result<
        (),
        SynthesisError,
    >)
        requires
            old(cs)@ == SystemModel::empty(),
        ensures
            r == Ok::<(), SynthesisError>(()),
            final(cs)@ == self.model(),
    {
        let a = match cs.allocate_witness(Some(self.a)) {
            Ok(v) => v,
            Err(_) => vstd::pervasive::unreached(),
        };
        let b = match cs.allocate_witness(Some(self.b)) {
            Ok(v) => v,
            Err(_) => vstd::pervasive::unreached(),
        };
        let s_val = self.a.add(&self.b);
        let c_val = s_val.mul(&s_val);
        let c = match cs.allocate_instance(Some(c_val)) {
            Ok(v) => v,
            Err(_) => vstd::pervasive::unreached(),
        };
        proof {
            assert(cs@.witness =~= seq![Some(self.a@), Some(self.b@)]);
            assert(cs@.instance =~= seq![Some(self.oracle())]);
            assert(cs@.constraints =~= Seq::new(0, |j: int| self.constraint_model()));
        }
        let mut i: usize = 0;
        while i < self.num_constraints
            invariant
                0 <= i <= self.num_constraints,
                a == Variable::Witness(0usize),
                b == Variable::Witness(1usize),
                c == Variable::Instance(0usize),
                cs@.witness == seq![Some(self.a@), Some(self.b@)],
                cs@.instance == seq![Some(self.oracle())],
                cs@.sealed == false,
                cs@.constraints == Seq::new(i as nat, |j: int| self.constraint_model()),
            decreases self.num_constraints - i,
        {
            let la = lc_of_pair(a, b);
            let lb = lc_of_pair(a, b);
            let lcc = lc_of_var(c);
            let _ = cs.enforce(la, lb, lcc);
            proof {
                assert(cs@.constraints =~= Seq::new((i + 1) as nat, |j: int| self.constraint_model()));
            }
            i += 1;
        }
        proof {
            assert(final(cs)@ =~~= self.model());
        }
        Ok(())
    }

    /// Law: for any seeds and any constraint count, the synthesized system
    /// is fully assigned and every constraint holds.
    pub proof fn lemma_model_satisfied(self)
        ensures
            self.model().wf(),
            self.model().complete(),
            self.model().all_hold(),
    {
        let m = self.model();
        assert forall|i: int| 0 <= i < m.constraints.len() implies constraint_wf(
            #[trigger] m.constraints[i],
            m.witness.len(),
            m.instance.len(),
        ) by {
            assert(m.constraints[i] == self.constraint_model());
        }
        assert forall|i: int| 0 <= i < m.constraints.len() implies m.constraint_holds(
            #[trigger] m.constraints[i],
        ) by {
            assert(m.constraints[i] == self.constraint_model());
            crate::r1cs::lemma_lc2_value(m, Variable::Witness(0), Variable::Witness(1));
            crate::r1cs::lemma_lc1_value(m, Variable::Instance(0));
        }
    }

    /// Law: for every seed and every constraint count, the sealed
    /// synthesized system passes the satisfiability check.
    pub proof fn lemma_satisfied(self)
        ensures
            crate::r1cs::check_outcome(self.model().seal()) == Ok::<bool, SynthesisError>(true),
    {
        self.lemma_model_satisfied();
        crate::r1cs::lemma_seal_preserves(self.model());
    }

    /// Law: the public input the prover must hand to a verifier is exactly
    /// the oracle value.
    pub proof fn lemma_instance_is_oracle(self)
        ensures
            self.model().instance == seq![Some(self.oracle())],
    {
    }
}

impl BenchCircuit for DenseCircuit {
    /// Any seeds and any constraint count are acceptable here.
    open spec fn valid(&self) -> bool {
        true
    }

    /// Two random seeds; the constraint count bakes in the backend's
    /// minimum-size floor: two more than the round count.
    fn new_random(seed: u64, rounds: usize) -> (r: Self)
        ensures
            r.num_constraints == rounds + 2,
    {
        DenseCircuit {
            a: Fe::random(seed),
            b: Fe::random(seed.wrapping_add(1)),
            num_constraints: rounds + 2,
        }
    }

    fn get_result(&self) -> (r: Fe)
        ensures
            r@ == self.oracle(),
    {
        let s = self.a.add(&self.b);
        s.mul(&s)
    }
}

} // verus!
