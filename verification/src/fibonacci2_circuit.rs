//! Additive recurrence: the witnesses are the terms of the sequence
//! `v(0) = 0, v(1) = 1, v(n) = v(n-1) + v(n-2)`, each tied to the previous
//! two by a constraint `one * (sum of the previous two) = new`; the public
//! output is the `t`-th term.

use vstd::prelude::*;

use crate::circuit_traits::BenchCircuit;
use crate::field::{add_bytes, u64_bytes, Fe};
use crate::r1cs::{
    constraint_wf, lc1, lc2, lc_of_pair, lc_of_var, ConstraintModel, ConstraintSystem,
    SynthesisError, SystemModel, Variable,
};

verus! {

/// The `k`-th term of the additive recurrence seeded with the field's zero
/// and one.
pub open spec fn fib_bytes(k: nat) -> Seq<u8>
    decreases k,
{
    if k == 0 {
        u64_bytes(0)
    } else if k == 1 {
        u64_bytes(1)
    } else {
        add_bytes(fib_bytes((k - 1) as nat), fib_bytes((k - 2) as nat))
    }
}

#[derive(Clone, Copy)]
pub struct Fibonacci2Circuit {
    pub x: Fe,
    pub t: usize,
}

impl Fibonacci2Circuit {
    /// The expected public output: the `t`-th term of the recurrence.
    pub open spec fn oracle(self) -> Seq<u8> {
        fib_bytes(self.t as nat)
    }

    /// The `i`-th constraint: the witness holding one, times the sum of the
    /// two newest terms, gives the next term; the last one lands in the
    /// public output slot.
    pub open spec fn constraint_model(self, i: int) -> ConstraintModel {
        ConstraintModel {
            a: lc1(Variable::Witness(1)),
            b: lc2(Variable::Witness((i + 1) as usize), Variable::Witness(i as usize)),
            c: if i < self.t - 2 {
                lc1(Variable::Witness((i + 2) as usize))
            } else {
                lc1(Variable::Instance(0))
            },
        }
    }

    /// The whole system this circuit synthesizes: the terms `v(0) .. v(t-1)`
    /// as witnesses, `v(t)` as the public output.
    pub open spec fn model(self) -> SystemModel {
        SystemModel {
            witness: Seq::new(self.t as nat, |k: int| Some(fib_bytes(k as nat))),
            instance: seq![Some(self.oracle())],
            constraints: Seq::new((self.t - 1) as nat, |i: int| self.constraint_model(i)),
            sealed: false,
        }
    }

    /// Declares the variables and emits the constraints into a fresh
    /// builder.  The public output slot receives exactly the oracle value.
    pub fn generate_constraints(&self, cs: &mut ConstraintSystem) -> (r: Result<
        (),
        SynthesisError,
    >)
        requires
            old(cs)@ == SystemModel::empty(),
            self.t >= 2,
        ensures
            r == Ok::<(), SynthesisError>(()),
            final(cs)@ == self.model(),
    {
        let zero = Fe::from_u64(0);
        let zero_var = match cs.allocate_witness(Some(zero)) {
            Ok(v) => v,
            Err(_) => vstd::pervasive::unreached(),
        };
        let one_val = Fe::from_u64(1);
        let one_var = match cs.allocate_witness(Some(one_val)) {
            Ok(v) => v,
            Err(_) => vstd::pervasive::unreached(),
        };
        proof {
            assert(cs@.witness =~= Seq::new(2, |k: int| Some(fib_bytes(k as nat))));
            assert(cs@.constraints =~= Seq::new(0, |i: int| self.constraint_model(i)));
        }
        let mut f_prev = zero;
        let mut f_last = one_val;
        let mut prev_var = zero_var;
        let mut last_var = one_var;
        let mut i: usize = 0;
        while i < self.t - 2
            invariant
                self.t >= 2,
                0 <= i <= self.t - 2,
                one_var == Variable::Witness(1usize),
                prev_var == Variable::Witness(i),
                last_var == Variable::Witness((i + 1) as usize),
                f_prev@ == fib_bytes(i as nat),
                f_last@ == fib_bytes((i + 1) as nat),
                cs@.witness == Seq::new((i + 2) as nat, |k: int| Some(fib_bytes(k as nat))),
                cs@.instance == Seq::<Option<Seq<u8>>>::empty(),
                cs@.sealed == false,
                cs@.constraints == Seq::new(i as nat, |j: int| self.constraint_model(j)),
            decreases self.t - 2 - i,
        {
            let new_val = f_last.add(&f_prev);
            let new_var = match cs.allocate_witness(Some(new_val)) {
                Ok(v) => v,
                Err(_) => vstd::pervasive::unreached(),
            };
            let la = lc_of_var(one_var);
            let lb = lc_of_pair(last_var, prev_var);
            let lcc = lc_of_var(new_var);
            let _ = cs.enforce(la, lb, lcc);
            proof {
                assert(cs@.witness =~= Seq::new(
                    (i + 3) as nat,
                    |k: int| Some(fib_bytes(k as nat)),
                ));
                assert(cs@.constraints =~= Seq::new(
                    (i + 1) as nat,
                    |j: int| self.constraint_model(j),
                ));
            }
            f_prev = f_last;
            f_last = new_val;
            prev_var = last_var;
            last_var = new_var;
            i += 1;
        }
        let out_val = f_last.add(&f_prev);
        let out = match cs.allocate_instance(Some(out_val)) {
            Ok(v) => v,
            Err(_) => vstd::pervasive::unreached(),
        };
        let la = lc_of_var(one_var);
        let lb = lc_of_pair(last_var, prev_var);
        let lcc = lc_of_var(out);
        let _ = cs.enforce(la, lb, lcc);
        proof {
            assert(cs@.instance =~= seq![Some(self.oracle())]);
            assert(cs@.constraints =~= Seq::new(
                (self.t - 1) as nat,
                |j: int| self.constraint_model(j),
            ));
            assert(final(cs)@ =~~= self.model());
        }
        Ok(())
    }

    /// Law: for any round count in range, the synthesized system is fully
    /// assigned and every constraint holds.
    pub proof fn lemma_model_satisfied(self)
        requires
            self.t >= 2,
        ensures
            self.model().wf(),
            self.model().complete(),
            self.model().all_hold(),
    {
        let m = self.model();
        assert forall|i: int| 0 <= i < m.constraints.len() implies constraint_wf(
            #[trigger] m.constraints[i],
            m.witness.len(),
            m.instance.len(),
        ) by {
            assert(m.constraints[i] == self.constraint_model(i));
        }
        assert forall|i: int| 0 <= i < m.constraints.len() implies m.constraint_holds(
            #[trigger] m.constraints[i],
        ) by {
            assert(m.constraints[i] == self.constraint_model(i));
            crate::r1cs::lemma_lc1_value(m, Variable::Witness(1));
            crate::r1cs::lemma_lc2_value(
                m,
                Variable::Witness((i + 1) as usize),
                Variable::Witness(i as usize),
            );
            assert(m.var_value(Variable::Witness(1)) == u64_bytes(1));
            if i < self.t - 2 {
                crate::r1cs::lemma_lc1_value(m, Variable::Witness((i + 2) as usize));
            } else {
                crate::r1cs::lemma_lc1_value(m, Variable::Instance(0));
            }
        }
    }

    /// Law: for every seed and every round count in range, the sealed
    /// synthesized system passes the satisfiability check.
    pub proof fn lemma_satisfied(self)
        requires
            self.t >= 2,
        ensures
            crate::r1cs::check_outcome(self.model().seal()) == Ok::<bool, SynthesisError>(true),
    {
        self.lemma_model_satisfied();
        crate::r1cs::lemma_seal_preserves(self.model());
    }

    /// Law: the public input the prover must hand to a verifier is exactly
    /// the oracle value.
    pub proof fn lemma_instance_is_oracle(self)
        ensures
            self.model().instance == seq![Some(self.oracle())],
    {
    }
}

impl BenchCircuit for Fibonacci2Circuit {
    /// The chain needs its two seed terms before the output.
    open spec fn valid(&self) -> bool {
        self.t >= 2
    }

    /// The recurrence has fixed seeds, so the stored element is just the
    /// field's zero; the chain length bakes in the backend's minimum-size
    /// floor: three more than the round count.
    fn new_random(seed: u64, rounds: usize) -> (r: Self)
        ensures
            r.t == rounds + 3,
            r.x@ == u64_bytes(0),
    {
        let _ = seed;
        Fibonacci2Circuit { x: Fe::from_u64(0), t: rounds + 3 }
    }

    fn get_result(&self) -> (r: Fe)
        ensures
            r@ == self.oracle(),
    {
        let mut a = Fe::from_u64(0);
        let mut b = Fe::from_u64(1);
        let mut k: usize = 0;
        while k < self.t - 1
            invariant
                self.t >= 2,
                0 <= k <= self.t - 1,
                a@ == fib_bytes(k as nat),
                b@ == fib_bytes((k + 1) as nat),
            decreases self.t - 1 - k,
        {
            let c = b;
            b = a.add(&b);
            a = c;
            k += 1;
        }
        b
    }
}

} // verus!
