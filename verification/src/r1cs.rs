//! The constraint-system builder.
//!
//! A builder owns two arenas of variables (private witnesses and public
//! instance values) plus an ordered list of rank-1 constraints.  Each
//! constraint is a triple of linear combinations `(A, B, C)` and is satisfied
//! under an assignment exactly when `eval(A) * eval(B) = eval(C)`.  The
//! builder is mutated only by allocation and enforcement, is sealed by
//! `finalize`, and is then read by the satisfiability check and the matrix
//! extraction.

use vstd::prelude::*;

use crate::field::{add_bytes, prod_bytes, scale_bytes, u64_bytes, Fe};

verus! {

/// A handle into the builder's arenas.  The reserved constant wire `One`
/// always evaluates to the field's one and is never allocated.
#[derive(Clone, Copy, PartialEq, Eq, Structural, Debug)]
pub enum Variable {
    One,
    Witness(usize),
    Instance(usize),
}

/// The failures of the builder.  `AssignmentMissing` signals a value that is
/// not known in a structure-only pass; `UseAfterFinalize` is mutation of a
/// sealed system; `IncompleteAssignment` is the satisfiability check's
/// "cannot judge" outcome, distinct from "judged false".
#[derive(Clone, Copy, PartialEq, Eq, Structural, Debug)]
pub enum SynthesisError {
    AssignmentMissing,
    UseAfterFinalize,
    IncompleteAssignment,
}

/// The encoding of an optional field element.
pub open spec fn opt_bytes(o: Option<Fe>) -> Option<Seq<u8>> {
    match o {
        Some(f) => Some(f@),
        None => None,
    }
}

/// Whether a handle points into arenas of `w` witnesses and `inst` instance
/// values.
pub open spec fn var_in_range(v: Variable, w: nat, inst: nat) -> bool {
    match v {
        Variable::One => true,
        Variable::Witness(k) => k < w,
        Variable::Instance(k) => k < inst,
    }
}

/// Whether every handle of a linear combination is in range.
pub open spec fn lc_in_range(l: Seq<(Variable, Seq<u8>)>, w: nat, inst: nat) -> bool {
    forall|i: int| 0 <= i < l.len() ==> var_in_range(#[trigger] l[i].0, w, inst)
}

/// Whether no handle occurs twice: distinct contributions to one handle are
/// summed into a single term, never stored separately.
pub open spec fn lc_distinct(l: Seq<(Variable, Seq<u8>)>) -> bool {
    forall|i: int, j: int| 0 <= i < j < l.len() ==> (#[trigger] l[i]).0 != (#[trigger] l[j]).0
}

/// Whether some term of the combination uses the given handle.
pub open spec fn lc_has_var(l: Seq<(Variable, Seq<u8>)>, var: Variable) -> bool {
    exists|i: int| 0 <= i < l.len() && (#[trigger] l[i]).0 == var
}

/// The index of the term using the given handle (unique when the
/// combination is distinct).
pub open spec fn lc_var_index(l: Seq<(Variable, Seq<u8>)>, var: Variable) -> int {
    choose|i: int| 0 <= i < l.len() && (#[trigger] l[i]).0 == var
}

/// The one-term combination `1 * v`.
pub open spec fn lc1(v: Variable) -> Seq<(Variable, Seq<u8>)> {
    seq![(v, u64_bytes(1))]
}

/// The two-term combination `1 * v1 + 1 * v2`.
pub open spec fn lc2(v1: Variable, v2: Variable) -> Seq<(Variable, Seq<u8>)> {
    seq![(v1, u64_bytes(1)), (v2, u64_bytes(1))]
}

/// A weighted sum of variables: the terms, in insertion order.  Evaluation
/// does not depend on the order, but matrix extraction serializes the terms
/// in this order.
pub struct LinearCombination {
    terms: Vec<(Variable, Fe)>,
}

impl View for LinearCombination {
    type V = Seq<(Variable, Seq<u8>)>;

    closed spec fn view(&self) -> Seq<(Variable, Seq<u8>)> {
        self.terms@.map_values(|t: (Variable, Fe)| (t.0, t.1@))
    }
}

impl LinearCombination {
    /// No handle is stored twice.
    pub open spec fn wf(&self) -> bool {
        lc_distinct(self@)
    }

    pub fn new() -> (r: LinearCombination)
        ensures
            r@ == Seq::<(Variable, Seq<u8>)>::empty(),
            r.wf(),
    {
        let r = LinearCombination { terms: Vec::new() };
        proof {
            assert(r@ =~= Seq::<(Variable, Seq<u8>)>::empty());
        }
        r
    }

    pub fn len(&self) -> (r: usize)
        ensures
            r == self@.len(),
    {
        self.terms.len()
    }

    pub fn term_at(&self, i: usize) -> (r: (Variable, Fe))
        requires
            i < self@.len(),
        ensures
            r.0 == self@[i as int].0,
            r.1@ == self@[i as int].1,
    {
        self.terms[i]
    }

    fn find_var(&self, var: Variable) -> (r: Option<usize>)
        ensures
            match r {
                Some(i) => i < self@.len() && self@[i as int].0 == var,
                None => !lc_has_var(self@, var),
            },
    {
        let mut i: usize = 0;
        while i < self.terms.len()
            invariant
                0 <= i <= self.terms.len(),
                forall|j: int| 0 <= j < i ==> (#[trigger] self@[j]).0 != var,
            decreases self.terms.len() - i,
        {
            if self.terms[i].0 == var {
                return Some(i);
            }
            i += 1;
        }
        None
    }

    /// Adds `coeff * var`.  A contribution to a handle that already has a
    /// term is summed into that term; a new handle is appended.
    pub fn add_term(&mut self, var: Variable, coeff: Fe)
        requires
            old(self).wf(),
        ensures
            final(self).wf(),
            lc_has_var(old(self)@, var) ==> final(self)@ == old(self)@.update(
                lc_var_index(old(self)@, var),
                (var, add_bytes(old(self)@[lc_var_index(old(self)@, var)].1, coeff@)),
            ),
            !lc_has_var(old(self)@, var) ==> final(self)@ == old(self)@.push((var, coeff@)),
    {
        match self.find_var(var) {
            Some(i) => {
                let summed = self.terms[i].1.add(&coeff);
                self.terms[i] = (var, summed);
                proof {
                    let l = old(self)@;
                    let k = lc_var_index(l, var);
                    assert(lc_has_var(l, var));
                    assert(0 <= k < l.len() && l[k].0 == var);
                    assert(k == i);
                    assert(final(self)@ =~= l.update(
                        k,
                        (var, add_bytes(l[k].1, coeff@)),
                    ));
                }
            },
            None => {
                self.terms.push((var, coeff));
                proof {
                    assert(final(self)@ =~= old(self)@.push((var, coeff@)));
                }
            },
        }
    }
}

/// The one-term combination `1 * v`, built directly.
pub fn lc_of_var(v: Variable) -> (r: LinearCombination)
    ensures
        r@ == lc1(v),
        r.wf(),
{
    let mut r = LinearCombination::new();
    r.add_term(v, Fe::from_u64(1));
    proof {
        assert(r@ =~= lc1(v));
    }
    r
}

/// The two-term combination `1 * v1 + 1 * v2`, built directly.
pub fn lc_of_pair(v1: Variable, v2: Variable) -> (r: LinearCombination)
    requires
        v1 != v2,
    ensures
        r@ == lc2(v1, v2),
        r.wf(),
{
    let mut r = LinearCombination::new();
    r.add_term(v1, Fe::from_u64(1));
    r.add_term(v2, Fe::from_u64(1));
    proof {
        assert(r@ =~= lc2(v1, v2));
    }
    r
}

/// One rank-1 constraint `A * B = C`.
pub struct Constraint {
    pub a: LinearCombination,
    pub b: LinearCombination,
    pub c: LinearCombination,
}

/// The mathematical content of one constraint.
#[verifier::ext_equal]
pub ghost struct ConstraintModel {
    pub a: Seq<(Variable, Seq<u8>)>,
    pub b: Seq<(Variable, Seq<u8>)>,
    pub c: Seq<(Variable, Seq<u8>)>,
}

impl View for Constraint {
    type V = ConstraintModel;

    closed spec fn view(&self) -> ConstraintModel {
        ConstraintModel { a: self.a@, b: self.b@, c: self.c@ }
    }
}

/// The view of a stored constraint is the triple of its combinations' views.
pub proof fn lemma_constraint_view(c: &Constraint)
    ensures
        c@.a == c.a@,
        c@.b == c.b@,
        c@.c == c.c@,
{
}

/// Whether every handle of a constraint is in range and every combination is
/// free of repeated handles.
pub open spec fn constraint_wf(c: ConstraintModel, w: nat, inst: nat) -> bool {
    &&& lc_in_range(c.a, w, inst)
    &&& lc_in_range(c.b, w, inst)
    &&& lc_in_range(c.c, w, inst)
    &&& lc_distinct(c.a)
    &&& lc_distinct(c.b)
    &&& lc_distinct(c.c)
}

/// The mathematical content of a whole constraint system: the two arenas
/// (an unassigned slot is `None`), the constraints, and the seal flag.
#[verifier::ext_equal]
pub ghost struct SystemModel {
    pub witness: Seq<Option<Seq<u8>>>,
    pub instance: Seq<Option<Seq<u8>>>,
    pub constraints: Seq<ConstraintModel>,
    pub sealed: bool,
}

impl SystemModel {
    /// A freshly created system: no variables, no constraints, not sealed.
    pub open spec fn empty() -> SystemModel {
        SystemModel {
            witness: Seq::empty(),
            instance: Seq::empty(),
            constraints: Seq::empty(),
            sealed: false,
        }
    }

    /// Every constraint speaks only of allocated handles.
    pub open spec fn wf(self) -> bool {
        forall|i: int| 0 <= i < self.constraints.len() ==> constraint_wf(
            #[trigger] self.constraints[i],
            self.witness.len(),
            self.instance.len(),
        )
    }

    /// Every slot of both arenas carries a value.
    pub open spec fn complete(self) -> bool {
        &&& forall|i: int| 0 <= i < self.witness.len() ==> (#[trigger] self.witness[i]) is Some
        &&& forall|i: int| 0 <= i < self.instance.len() ==> (#[trigger] self.instance[i]) is Some
    }

    /// The value a handle evaluates to under the current assignment.  Only
    /// meaningful for in-range handles of a complete assignment.
    pub open spec fn var_value(self, v: Variable) -> Seq<u8> {
        match v {
            Variable::One => u64_bytes(1),
            Variable::Witness(k) => match self.witness[k as int] {
                Some(s) => s,
                None => Seq::empty(),
            },
            Variable::Instance(k) => match self.instance[k as int] {
                Some(s) => s,
                None => Seq::empty(),
            },
        }
    }

    /// The evaluation of a linear combination: each term adds its
    /// coefficient times its handle's value, and these summands are
    /// summed left to right.  The empty combination evaluates to zero.
    pub open spec fn lc_value(self, l: Seq<(Variable, Seq<u8>)>) -> Seq<u8>
        decreases l.len(),
    {
        if l.len() == 0 {
            u64_bytes(0)
        } else if l.len() == 1 {
            scale_bytes(l[0].1, self.var_value(l[0].0))
        } else {
            add_bytes(
                self.lc_value(l.drop_last()),
                scale_bytes(l.last().1, self.var_value(l.last().0)),
            )
        }
    }

    /// `A * B = C` under the current assignment.
    pub open spec fn constraint_holds(self, c: ConstraintModel) -> bool {
        prod_bytes(self.lc_value(c.a), self.lc_value(c.b)) == self.lc_value(c.c)
    }

    /// All constraints hold under the current assignment.
    pub open spec fn all_hold(self) -> bool {
        forall|i: int| 0 <= i < self.constraints.len() ==> self.constraint_holds(
            #[trigger] self.constraints[i],
        )
    }

    /// The system after `finalize`: the same arenas and constraints, sealed.
    pub open spec fn seal(self) -> SystemModel {
        SystemModel { sealed: true, ..self }
    }

    /// The slot a handle points at: the constant wire always carries one;
    /// an allocated slot may still be unassigned.
    pub open spec fn slot_of(self, v: Variable) -> Option<Seq<u8>> {
        match v {
            Variable::One => Some(u64_bytes(1)),
            Variable::Witness(k) => self.witness[k as int],
            Variable::Instance(k) => self.instance[k as int],
        }
    }
}

/// Sealing is idempotent: a second `finalize` leaves the system exactly as
/// the first left it — same variables, same constraints, still sealed.
pub proof fn lemma_seal_idempotent(m: SystemModel)
    ensures
        m.seal().seal() == m.seal(),
{
}

/// What the satisfiability check reports of a system: the distinguished
/// "cannot judge" outcome where a slot is unassigned, else whether all
/// constraints hold.
pub open spec fn check_outcome(m: SystemModel) -> Result<bool, SynthesisError> {
    if m.complete() {
        Ok(m.all_hold())
    } else {
        Err(SynthesisError::IncompleteAssignment)
    }
}

/// Sealing touches neither arena, so a combination evaluates the same
/// before and after.
pub proof fn lemma_seal_lc_value(m: SystemModel, l: Seq<(Variable, Seq<u8>)>)
    ensures
        m.seal().lc_value(l) == m.lc_value(l),
    decreases l.len(),
{
    if l.len() > 1 {
        lemma_seal_lc_value(m, l.drop_last());
    }
}

/// Sealing touches neither the arenas nor the constraints, so it preserves
/// well-formedness, completeness, and satisfaction.
pub proof fn lemma_seal_preserves(m: SystemModel)
    ensures
        m.seal().wf() == m.wf(),
        m.seal().complete() == m.complete(),
        m.seal().all_hold() == m.all_hold(),
{
    let s = m.seal();
    assert(s.constraints == m.constraints);
    if m.wf() {
        assert forall|i: int| 0 <= i < s.constraints.len() implies constraint_wf(
            #[trigger] s.constraints[i],
            s.witness.len(),
            s.instance.len(),
        ) by {
            assert(constraint_wf(m.constraints[i], m.witness.len(), m.instance.len()));
        }
        assert(s.wf());
    }
    if s.wf() {
        assert forall|i: int| 0 <= i < m.constraints.len() implies constraint_wf(
            #[trigger] m.constraints[i],
            m.witness.len(),
            m.instance.len(),
        ) by {
            assert(constraint_wf(s.constraints[i], s.witness.len(), s.instance.len()));
        }
        assert(m.wf());
    }
    assert forall|i: int| 0 <= i < m.constraints.len() implies (s.constraint_holds(
        #[trigger] s.constraints[i],
    ) == m.constraint_holds(#[trigger] m.constraints[i])) by {
        lemma_seal_lc_value(m, m.constraints[i].a);
        lemma_seal_lc_value(m, m.constraints[i].b);
        lemma_seal_lc_value(m, m.constraints[i].c);
    }
    if m.all_hold() {
        assert forall|i: int| 0 <= i < s.constraints.len() implies s.constraint_holds(
            #[trigger] s.constraints[i],
        ) by {
            assert(m.constraint_holds(m.constraints[i]));
        }
        assert(s.all_hold());
    }
    if s.all_hold() {
        assert forall|i: int| 0 <= i < m.constraints.len() implies m.constraint_holds(
            #[trigger] m.constraints[i],
        ) by {
            assert(s.constraint_holds(s.constraints[i]));
        }
        assert(m.all_hold());
    }
}

/// A one-term combination evaluates to its handle's value.
pub proof fn lemma_lc1_value(m: SystemModel, v: Variable)
    ensures
        m.lc_value(lc1(v)) == m.var_value(v),
{
}

/// A two-term combination evaluates to the sum of its handles' values.
pub proof fn lemma_lc2_value(m: SystemModel, v1: Variable, v2: Variable)
    ensures
        m.lc_value(lc2(v1, v2)) == add_bytes(m.var_value(v1), m.var_value(v2)),
{
    let l = lc2(v1, v2);
    assert(l.drop_last() =~= lc1(v1));
    lemma_lc1_value(m, v1);
}

/// The variable counts of a system, the constant wire excluded.
pub struct Counts {
    pub constraints: usize,
    pub witness: usize,
    pub instance: usize,
}

/// The builder itself.  Created empty, mutated by allocation and
/// enforcement, sealed by `finalize`, then read by the satisfiability check
/// and the matrix extraction.
pub struct ConstraintSystem {
    witness: Vec<Option<Fe>>,
    instance: Vec<Option<Fe>>,
    constraints: Vec<Constraint>,
    sealed: bool,
}

impl View for ConstraintSystem {
    type V = SystemModel;

    closed spec fn view(&self) -> SystemModel {
        SystemModel {
            witness: self.witness@.map_values(|o: Option<Fe>| opt_bytes(o)),
            instance: self.instance@.map_values(|o: Option<Fe>| opt_bytes(o)),
            constraints: self.constraints@.map_values(|c: Constraint| c@),
            sealed: self.sealed,
        }
    }
}

impl ConstraintSystem {
    pub fn new() -> (r: ConstraintSystem)
        ensures
            r@ == SystemModel::empty(),
    {
        let r = ConstraintSystem {
            witness: Vec::new(),
            instance: Vec::new(),
            constraints: Vec::new(),
            sealed: false,
        };
        proof {
            assert(r@ =~~= SystemModel::empty());
        }
        r
    }

    /// Allocates a private witness slot.  `None` records a slot whose value
    /// is not yet known (a structure-only pass); the handle is created all
    /// the same and the slot stays unassigned.
    pub fn allocate_witness(&mut self, value: Option<Fe>) -> (r: Result<Variable, SynthesisError>)
        ensures
            old(self)@.sealed ==> r == Err::<Variable, SynthesisError>(
                SynthesisError::UseAfterFinalize,
            ) && final(self)@ == old(self)@,
            !old(self)@.sealed ==> r == Ok::<Variable, SynthesisError>(
                Variable::Witness(old(self)@.witness.len() as usize),
            ) && final(self)@ == (SystemModel {
                witness: old(self)@.witness.push(opt_bytes(value)),
                ..old(self)@
            }),
    {
        if self.sealed {
            return Err(SynthesisError::UseAfterFinalize);
        }
        let idx = self.witness.len();
        self.witness.push(value);
        proof {
            assert(final(self)@ =~~= (SystemModel {
                witness: old(self)@.witness.push(opt_bytes(value)),
                ..old(self)@
            }));
        }
        Ok(Variable::Witness(idx))
    }

    /// Allocates a public instance slot; the same contract as witness
    /// allocation, in the other namespace.
    pub fn allocate_instance(&mut self, value: Option<Fe>) -> (r: Result<Variable, SynthesisError>)
        ensures
            old(self)@.sealed ==> r == Err::<Variable, SynthesisError>(
                SynthesisError::UseAfterFinalize,
            ) && final(self)@ == old(self)@,
            !old(self)@.sealed ==> r == Ok::<Variable, SynthesisError>(
                Variable::Instance(old(self)@.instance.len() as usize),
            ) && final(self)@ == (SystemModel {
                instance: old(self)@.instance.push(opt_bytes(value)),
                ..old(self)@
            }),
    {
        if self.sealed {
            return Err(SynthesisError::UseAfterFinalize);
        }
        let idx = self.instance.len();
        self.instance.push(value);
        proof {
            assert(final(self)@ =~~= (SystemModel {
                instance: old(self)@.instance.push(opt_bytes(value)),
                ..old(self)@
            }));
        }
        Ok(Variable::Instance(idx))
    }

    /// Appends the constraint `a * b = c`.  Nothing is evaluated here; the
    /// handles must already be allocated in this system.
    pub fn enforce(
        &mut self,
        a: LinearCombination,
        b: LinearCombination,
        c: LinearCombination,
    ) -> (r: Result<(), SynthesisError>)
        requires
            a.wf(),
            b.wf(),
            c.wf(),
            lc_in_range(a@, old(self)@.witness.len(), old(self)@.instance.len()),
            lc_in_range(b@, old(self)@.witness.len(), old(self)@.instance.len()),
            lc_in_range(c@, old(self)@.witness.len(), old(self)@.instance.len()),
        ensures
            old(self)@.sealed ==> r == Err::<(), SynthesisError>(SynthesisError::UseAfterFinalize)
                && final(self)@ == old(self)@,
            !old(self)@.sealed ==> r == Ok::<(), SynthesisError>(()) && final(self)@
                == (SystemModel {
                constraints: old(self)@.constraints.push(
                    (ConstraintModel { a: a@, b: b@, c: c@ }),
                ),
                ..old(self)@
            }),
    {
        if self.sealed {
            return Err(SynthesisError::UseAfterFinalize);
        }
        self.constraints.push(Constraint { a, b, c });
        proof {
            assert(final(self)@ =~~= (SystemModel {
                constraints: old(self)@.constraints.push(
                    (ConstraintModel { a: a@, b: b@, c: c@ }),
                ),
                ..old(self)@
            }));
        }
        Ok(())
    }

    /// Seals the system against any further allocation or enforcement.
    /// Idempotent: a second call changes nothing.
    pub fn finalize(&mut self)
        ensures
            final(self)@ == old(self)@.seal(),
    {
        self.sealed = true;
        proof {
            assert(final(self)@ =~~= old(self)@.seal());
        }
    }

    /// Whether `finalize` has been called.
    pub fn is_finalized(&self) -> (r: bool)
        ensures
            r == self@.sealed,
    {
        self.sealed
    }

    /// The sizes of the system: constraints, witness slots, instance slots
    /// (the constant wire is not counted).
    pub fn counts(&self) -> (r: Counts)
        ensures
            r.constraints == self@.constraints.len(),
            r.witness == self@.witness.len(),
            r.instance == self@.instance.len(),
    {
        Counts {
            constraints: self.constraints.len(),
            witness: self.witness.len(),
            instance: self.instance.len(),
        }
    }

    /// The value of one witness slot.
    pub fn witness_at(&self, i: usize) -> (r: Option<Fe>)
        requires
            i < self@.witness.len(),
        ensures
            opt_bytes(r) == self@.witness[i as int],
    {
        self.witness[i]
    }

    /// The value of one instance slot.
    pub fn instance_at(&self, i: usize) -> (r: Option<Fe>)
        requires
            i < self@.instance.len(),
        ensures
            opt_bytes(r) == self@.instance[i as int],
    {
        self.instance[i]
    }

    /// One stored constraint.
    pub fn constraint_at(&self, i: usize) -> (r: &Constraint)
        requires
            i < self@.constraints.len(),
        ensures
            r@ == self@.constraints[i as int],
    {
        &self.constraints[i]
    }

    /// The value a handle carries, or `AssignmentMissing` where the slot was
    /// allocated in a structure-only pass and never assigned.
    pub fn assigned_value(&self, v: Variable) -> (r: Result<Fe, SynthesisError>)
        requires
            var_in_range(v, self@.witness.len(), self@.instance.len()),
        ensures
            r is Ok <==> self@.slot_of(v) is Some,
            r matches Ok(f) ==> Some(f@) == self@.slot_of(v),
            r matches Err(e) ==> e == SynthesisError::AssignmentMissing,
    {
        let slot = match v {
            Variable::One => Some(Fe::from_u64(1)),
            Variable::Witness(k) => self.witness[k],
            Variable::Instance(k) => self.instance[k],
        };
        match slot {
            Some(f) => Ok(f),
            None => Err(SynthesisError::AssignmentMissing),
        }
    }

    /// The value an in-range handle carries under a complete assignment.
    fn lookup(&self, v: Variable) -> (r: Fe)
        requires
            var_in_range(v, self@.witness.len(), self@.instance.len()),
            self@.complete(),
        ensures
            r@ == self@.var_value(v),
    {
        match v {
            Variable::One => Fe::from_u64(1),
            Variable::Witness(k) => {
                let ov = self.witness[k];
                proof {
                    assert((self@.witness[k as int]) is Some);
                    assert(opt_bytes(ov) == self@.witness[k as int]);
                }
                match ov {
                    Some(f) => f,
                    None => vstd::pervasive::unreached(),
                }
            },
            Variable::Instance(k) => {
                let ov = self.instance[k];
                proof {
                    assert((self@.instance[k as int]) is Some);
                    assert(opt_bytes(ov) == self@.instance[k as int]);
                }
                match ov {
                    Some(f) => f,
                    None => vstd::pervasive::unreached(),
                }
            },
        }
    }

    /// Evaluates a linear combination under the current (complete)
    /// assignment.
    fn eval_lc(&self, l: &LinearCombination) -> (r: Fe)
        requires
            lc_in_range(l@, self@.witness.len(), self@.instance.len()),
            self@.complete(),
        ensures
            r@ == self@.lc_value(l@),
    {
        let n = l.len();
        if n == 0 {
            return Fe::from_u64(0);
        }
        let t0 = l.term_at(0);
        let v0 = self.lookup(t0.0);
        let mut acc = t0.1.mul(&v0);
        proof {
            assert(l@.take(1) =~= seq![l@[0]]);
        }
        let mut i: usize = 1;
        while i < n
            invariant
                1 <= i <= n,
                n == l@.len(),
                lc_in_range(l@, self@.witness.len(), self@.instance.len()),
                self@.complete(),
                acc@ == self@.lc_value(l@.take(i as int)),
            decreases n - i,
        {
            let t = l.term_at(i);
            let v = self.lookup(t.0);
            let summand = t.1.mul(&v);
            acc = acc.add(&summand);
            proof {
                let pre = l@.take(i as int);
                let post = l@.take(i + 1 as int);
                assert(post.drop_last() =~= pre);
                assert(post.last() == l@[i as int]);
            }
            i += 1;
        }
        proof {
            assert(l@.take(n as int) =~= l@);
        }
        acc
    }

    /// Evaluates every constraint against the full assignment.  If any slot
    /// is unassigned the outcome is the distinguished
    /// `IncompleteAssignment`, never a silent zero; otherwise the answer
    /// says whether all constraints hold.
    pub fn is_satisfied(&self) -> (r: Result<bool, SynthesisError>)
        requires
            self@.wf(),
            self@.sealed,
        ensures
            r == check_outcome(self@),
    {
        let mut i: usize = 0;
        while i < self.witness.len()
            invariant
                0 <= i <= self@.witness.len(),
                self@.witness.len() == self.witness.len(),
                forall|j: int| 0 <= j < i ==> (#[trigger] self@.witness[j]) is Some,
            decreases self.witness.len() - i,
        {
            if self.witness[i].is_none() {
                proof {
                    assert(!((self@.witness[i as int]) is Some));
                }
                return Err(SynthesisError::IncompleteAssignment);
            }
            i += 1;
        }
        let mut i: usize = 0;
        while i < self.instance.len()
            invariant
                0 <= i <= self@.instance.len(),
                self@.instance.len() == self.instance.len(),
                forall|j: int| 0 <= j < i ==> (#[trigger] self@.instance[j]) is Some,
            decreases self.instance.len() - i,
        {
            if self.instance[i].is_none() {
                proof {
                    assert(!((self@.instance[i as int]) is Some));
                }
                return Err(SynthesisError::IncompleteAssignment);
            }
            i += 1;
        }
        let mut k: usize = 0;
        while k < self.constraints.len()
            invariant
                0 <= k <= self@.constraints.len(),
                self@.constraints.len() == self.constraints.len(),
                self@.wf(),
                self@.complete(),
                forall|j: int| 0 <= j < k ==> self@.constraint_holds(#[trigger] self@.constraints[j]),
            decreases self.constraints.len() - k,
        {
            let c = &self.constraints[k];
            proof {
                assert(self@.constraints[k as int] == c@);
                assert(constraint_wf(c@, self@.witness.len(), self@.instance.len()));
            }
            let va = self.eval_lc(&c.a);
            let vb = self.eval_lc(&c.b);
            let vc = self.eval_lc(&c.c);
            let lhs = va.mul(&vb);
            if !(lhs == vc) {
                return Ok(false);
            }
            k += 1;
        }
        Ok(true)
    }
}

} // verus!
