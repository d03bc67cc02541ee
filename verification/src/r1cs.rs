//! A rank-1 constraint system: variables, linear combinations, quadratic
//! constraints, and the witness assignment collected while proving.

use vstd::prelude::*;

use crate::field::{fadd, fe_small, fmul, FieldElement};

verus! {

/// A handle to an allocated slot of the constraint system.
#[derive(Clone, Copy, PartialEq, Eq, Structural, Debug)]
pub enum Variable {
    /// A public instance variable, disclosed to the verifier.
    /// Index 0 is the implicit constant-one variable.
    Input(usize),
    /// A private auxiliary variable, known to the prover only.
    Aux(usize),
}

/// One weighted summand of a linear combination: `coeff * var`.
#[derive(Clone, Copy, PartialEq, Eq, Structural, Debug)]
pub struct Term {
    pub var: Variable,
    pub coeff: FieldElement,
}

/// A quadratic constraint `A * B = C`, each side a linear combination
/// given as a sequence of weighted terms.
#[derive(Debug)]
pub struct Constraint {
    pub a: Vec<Term>,
    pub b: Vec<Term>,
    pub c: Vec<Term>,
}

/// The mathematical shape of a constraint: the three term sequences.
#[verifier::ext_equal]
pub struct ConstraintShape {
    pub a: Seq<Term>,
    pub b: Seq<Term>,
    pub c: Seq<Term>,
}

impl View for Constraint {
    type V = ConstraintShape;

    open spec fn view(&self) -> ConstraintShape {
        ConstraintShape { a: self.a@, b: self.b@, c: self.c@ }
    }
}

/// The value a variable takes under the given instance and auxiliary
/// assignments; unassigned variables count as zero.
pub open spec fn var_value(v: Variable, inputs: Seq<FieldElement>, auxs: Seq<FieldElement>) -> int {
    match v {
        Variable::Input(i) => if i < inputs.len() { inputs[i as int].value() } else { 0 },
        Variable::Aux(i) => if i < auxs.len() { auxs[i as int].value() } else { 0 },
    }
}

/// The field value of a linear combination under the given assignments:
/// the sum, in the field, of `coeff * value(var)` over its terms.
pub open spec fn lc_value(terms: Seq<Term>, inputs: Seq<FieldElement>, auxs: Seq<FieldElement>) -> int
    decreases terms.len(),
{
    if terms.len() == 0 {
        0
    } else {
        fadd(
            lc_value(terms.drop_last(), inputs, auxs),
            fmul(terms.last().coeff.value(), var_value(terms.last().var, inputs, auxs)),
        )
    }
}

/// A constraint holds under the given assignments when the product of its
/// first two linear combinations equals the third, in the field.
pub open spec fn constraint_satisfied(
    c: ConstraintShape,
    inputs: Seq<FieldElement>,
    auxs: Seq<FieldElement>,
) -> bool {
    fmul(lc_value(c.a, inputs, auxs), lc_value(c.b, inputs, auxs)) == lc_value(c.c, inputs, auxs)
}

/// Whether a variable refers to an allocated slot.
pub open spec fn var_in_range(v: Variable, num_inputs: nat, num_aux: nat) -> bool {
    match v {
        Variable::Input(i) => i < num_inputs,
        Variable::Aux(i) => i < num_aux,
    }
}

/// Whether every term of a linear combination refers to an allocated slot.
pub open spec fn terms_in_range(terms: Seq<Term>, num_inputs: nat, num_aux: nat) -> bool {
    forall|i: int| 0 <= i < terms.len() ==> var_in_range(#[trigger] terms[i].var, num_inputs, num_aux)
}

/// Whether a constraint mentions allocated slots only.
pub open spec fn constraint_in_range(c: ConstraintShape, num_inputs: nat, num_aux: nat) -> bool {
    &&& terms_in_range(c.a, num_inputs, num_aux)
    &&& terms_in_range(c.b, num_inputs, num_aux)
    &&& terms_in_range(c.c, num_inputs, num_aux)
}

/// A constraint over allocated slots stays over allocated slots when more
/// slots are allocated.
proof fn lemma_constraint_in_range_monotone(
    c: ConstraintShape,
    ni1: nat,
    na1: nat,
    ni2: nat,
    na2: nat,
)
    requires
        constraint_in_range(c, ni1, na1),
        ni1 <= ni2,
        na1 <= na2,
    ensures
        constraint_in_range(c, ni2, na2),
{
    assert forall|i: int| 0 <= i < c.a.len() implies var_in_range(#[trigger] c.a[i].var, ni2, na2) by {
        assert(var_in_range(c.a[i].var, ni1, na1));
    }
    assert forall|i: int| 0 <= i < c.b.len() implies var_in_range(#[trigger] c.b[i].var, ni2, na2) by {
        assert(var_in_range(c.b[i].var, ni1, na1));
    }
    assert forall|i: int| 0 <= i < c.c.len() implies var_in_range(#[trigger] c.c[i].var, ni2, na2) by {
        assert(var_in_range(c.c[i].var, ni1, na1));
    }
}

/// The single way synthesis can fail: a witness value was required while
/// assembling a concrete assignment, but none was available.
#[derive(Clone, Copy, PartialEq, Eq, Structural, Debug)]
pub enum SynthesisError {
    AssignmentMissing,
}

/// A constraint system under construction. In witness mode every allocation
/// carries a concrete value and the assignments are collected; otherwise
/// only the counts and the constraint shapes are recorded.
#[derive(Debug)]
pub struct ConstraintSystem {
    pub witness_mode: bool,
    pub num_inputs: usize,
    pub num_aux: usize,
    pub input_values: Vec<FieldElement>,
    pub aux_values: Vec<FieldElement>,
    pub constraints: Vec<Constraint>,
}

impl ConstraintSystem {
    /// Well-formedness: in witness mode the assignments cover exactly the
    /// allocated slots, hold canonical field elements, and assign one to the
    /// constant-one variable; every constraint mentions allocated slots only.
    pub open spec fn wf(self) -> bool {
        &&& 1 <= self.num_inputs
        &&& if self.witness_mode {
            &&& self.input_values@.len() == self.num_inputs
            &&& self.aux_values@.len() == self.num_aux
            &&& forall|i: int|
                0 <= i < self.input_values@.len() ==> (#[trigger] self.input_values@[i]).inv()
            &&& forall|i: int|
                0 <= i < self.aux_values@.len() ==> (#[trigger] self.aux_values@[i]).inv()
            &&& self.input_values@[0].value() == 1
        } else {
            self.input_values@.len() == 0 && self.aux_values@.len() == 0
        }
        &&& forall|i: int|
            0 <= i < self.constraints@.len() ==> constraint_in_range(
                (#[trigger] self.constraints@[i])@,
                self.num_inputs as nat,
                self.num_aux as nat,
            )
    }

    /// A freshly created system: the constant-one input only, no auxiliary
    /// variables, no constraints.
    pub open spec fn is_fresh(self) -> bool {
        &&& self.num_inputs == 1
        &&& self.num_aux == 0
        &&& self.constraints@.len() == 0
    }

    /// Every recorded constraint holds under the collected assignments.
    pub open spec fn satisfied(self) -> bool {
        forall|i: int|
            0 <= i < self.constraints@.len() ==> constraint_satisfied(
                (#[trigger] self.constraints@[i])@,
                self.input_values@,
                self.aux_values@,
            )
    }

    /// Create a fresh system. In witness mode the constant-one variable is
    /// assigned the value one.
    pub fn new(witness_mode: bool) -> (r: ConstraintSystem)
        ensures
            r.wf(),
            r.is_fresh(),
            r.witness_mode == witness_mode,
            r.input_values@.len() == (if witness_mode { 1int } else { 0int }),
            witness_mode ==> r.input_values@[0] == fe_small(1),
            r.aux_values@.len() == 0,
    {
        let mut input_values: Vec<FieldElement> = Vec::new();
        if witness_mode {
            input_values.push(FieldElement::from_u64(1));
        }
        ConstraintSystem {
            witness_mode,
            num_inputs: 1,
            num_aux: 0,
            input_values,
            aux_values: Vec::new(),
            constraints: Vec::new(),
        }
    }

    /// Allocate a private auxiliary variable. In witness mode a value must be
    /// supplied; its absence is the one failure synthesis can meet.
    pub fn allocate(&mut self, value: Option<FieldElement>) -> (r: Result<Variable, SynthesisError>)
        requires
            old(self).wf(),
            old(self).num_aux < usize::MAX,
            value matches Some(v) ==> v.inv(),
        ensures
            final(self).wf(),
            r is Err <==> old(self).witness_mode && value is None,
            r matches Err(e) ==> e == SynthesisError::AssignmentMissing && *final(self) == *old(
                self,
            ),
            r matches Ok(v) ==> {
                &&& v == Variable::Aux(old(self).num_aux)
                &&& final(self).num_aux == old(self).num_aux + 1
                &&& final(self).num_inputs == old(self).num_inputs
                &&& final(self).witness_mode == old(self).witness_mode
                &&& final(self).input_values@ == old(self).input_values@
                &&& final(self).constraints@ == old(self).constraints@
                &&& (old(self).witness_mode ==> final(self).aux_values@ == old(
                    self,
                ).aux_values@.push(value->0))
                &&& (!old(self).witness_mode ==> final(self).aux_values@ == old(self).aux_values@)
            },
    {
        if self.witness_mode {
            match value {
                Option::Some(v) => self.aux_values.push(v),
                Option::None => {
                    return Err(SynthesisError::AssignmentMissing);
                },
            }
        }
        let idx = self.num_aux;
        self.num_aux = self.num_aux + 1;
        proof {
            assert forall|i: int| 0 <= i < self.constraints@.len() implies constraint_in_range(
                (#[trigger] self.constraints@[i])@,
                self.num_inputs as nat,
                self.num_aux as nat,
            ) by {
                lemma_constraint_in_range_monotone(
                    self.constraints@[i]@,
                    old(self).num_inputs as nat,
                    old(self).num_aux as nat,
                    self.num_inputs as nat,
                    self.num_aux as nat,
                );
            }
        }
        Ok(Variable::Aux(idx))
    }

    /// Allocate a public instance variable, disclosed to the verifier. In
    /// witness mode a value must be supplied.
    pub fn allocate_public(&mut self, value: Option<FieldElement>) -> (r: Result<
        Variable,
        SynthesisError,
    >)
        requires
            old(self).wf(),
            old(self).num_inputs < usize::MAX,
            value matches Some(v) ==> v.inv(),
        ensures
            final(self).wf(),
            r is Err <==> old(self).witness_mode && value is None,
            r matches Err(e) ==> e == SynthesisError::AssignmentMissing && *final(self) == *old(
                self,
            ),
            r matches Ok(v) ==> {
                &&& v == Variable::Input(old(self).num_inputs)
                &&& final(self).num_inputs == old(self).num_inputs + 1
                &&& final(self).num_aux == old(self).num_aux
                &&& final(self).witness_mode == old(self).witness_mode
                &&& final(self).aux_values@ == old(self).aux_values@
                &&& final(self).constraints@ == old(self).constraints@
                &&& (old(self).witness_mode ==> final(self).input_values@ == old(
                    self,
                ).input_values@.push(value->0))
                &&& (!old(self).witness_mode ==> final(self).input_values@ == old(
                    self,
                ).input_values@)
            },
    {
        if self.witness_mode {
            match value {
                Option::Some(v) => self.input_values.push(v),
                Option::None => {
                    return Err(SynthesisError::AssignmentMissing);
                },
            }
        }
        let idx = self.num_inputs;
        self.num_inputs = self.num_inputs + 1;
        proof {
            assert forall|i: int| 0 <= i < self.constraints@.len() implies constraint_in_range(
                (#[trigger] self.constraints@[i])@,
                self.num_inputs as nat,
                self.num_aux as nat,
            ) by {
                lemma_constraint_in_range_monotone(
                    self.constraints@[i]@,
                    old(self).num_inputs as nat,
                    old(self).num_aux as nat,
                    self.num_inputs as nat,
                    self.num_aux as nat,
                );
            }
        }
        Ok(Variable::Input(idx))
    }

    /// Record the quadratic constraint `A * B = C` over allocated slots.
    pub fn enforce(&mut self, a: Vec<Term>, b: Vec<Term>, c: Vec<Term>)
        requires
            old(self).wf(),
            terms_in_range(a@, old(self).num_inputs as nat, old(self).num_aux as nat),
            terms_in_range(b@, old(self).num_inputs as nat, old(self).num_aux as nat),
            terms_in_range(c@, old(self).num_inputs as nat, old(self).num_aux as nat),
        ensures
            final(self).wf(),
            final(self).witness_mode == old(self).witness_mode,
            final(self).num_inputs == old(self).num_inputs,
            final(self).num_aux == old(self).num_aux,
            final(self).input_values@ == old(self).input_values@,
            final(self).aux_values@ == old(self).aux_values@,
            final(self).constraints@.len() == old(self).constraints@.len() + 1,
            forall|i: int|
                0 <= i < old(self).constraints@.len() ==> final(self).constraints@[i] == old(
                    self,
                ).constraints@[i],
            final(self).constraints@.last()@ =~= (ConstraintShape { a: a@, b: b@, c: c@ }),
    {
        self.constraints.push(Constraint { a, b, c });
    }

    /// Record the affine constraint "this linear combination equals this
    /// variable", phrased as the quadratic constraint `LC * 1 = var` through
    /// the constant-one variable.
    pub fn enforce_affine(&mut self, lc: Vec<Term>, v: Variable)
        requires
            old(self).wf(),
            terms_in_range(lc@, old(self).num_inputs as nat, old(self).num_aux as nat),
            var_in_range(v, old(self).num_inputs as nat, old(self).num_aux as nat),
        ensures
            final(self).wf(),
            final(self).witness_mode == old(self).witness_mode,
            final(self).num_inputs == old(self).num_inputs,
            final(self).num_aux == old(self).num_aux,
            final(self).input_values@ == old(self).input_values@,
            final(self).aux_values@ == old(self).aux_values@,
            final(self).constraints@.len() == old(self).constraints@.len() + 1,
            forall|i: int|
                0 <= i < old(self).constraints@.len() ==> final(self).constraints@[i] == old(
                    self,
                ).constraints@[i],
            final(self).constraints@.last()@ =~= (ConstraintShape {
                a: lc@,
                b: seq![Term { var: Variable::Input(0), coeff: fe_small(1) }],
                c: seq![Term { var: v, coeff: fe_small(1) }],
            }),
    {
        let mut b: Vec<Term> = Vec::new();
        b.push(Term { var: Variable::Input(0), coeff: FieldElement::from_u64(1) });
        let mut c: Vec<Term> = Vec::new();
        c.push(Term { var: v, coeff: FieldElement::from_u64(1) });
        self.enforce(lc, b, c)
    }
}

} // verus!
