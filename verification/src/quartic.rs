//! The circuit synthesizer: translates the polynomial identity
//! `x^4 - 10*x^3 + 35*x^2 - 50*x + 24 == 0` into a rank-1 constraint
//! system, allocating every variable and emitting every constraint.

use vstd::prelude::*;

use crate::field::{
    fadd, fe_small, fmul, fneg, fr_add, fr_mul, fr_neg, fr_square, lemma_fadd_zero_left,
    lemma_fmul_one_left, lemma_fmul_one_right, lemma_fneg_is_neg_mod, p, FieldElement,
};
use crate::r1cs::{
    constraint_satisfied, lc_value, var_value, ConstraintShape, ConstraintSystem, SynthesisError,
    Term, Variable,
};

verus! {

/// The value the circuit assigns to its public output for a secret input
/// with canonical value `v`: the quartic polynomial evaluated in the field,
/// by the same chain of field operations that synthesis performs.
pub open spec fn quartic_value(v: int) -> int {
    let x2 = fmul(v, v);
    let x3 = fmul(x2, v);
    let x4 = fmul(x3, v);
    let t1 = fneg(fmul(10, x3));
    let t2 = fmul(35, x2);
    let t3 = fneg(fmul(50, v));
    fadd(fadd(fadd(fadd(x4, t1), t2), t3), 24)
}

/// A term with a small coefficient.
pub open spec fn small_term(v: Variable, n: u64) -> Term {
    Term { var: v, coeff: fe_small(n) }
}

/// The constraints every synthesis run emits, whatever the witness: three
/// chained multiplications binding `x2`, `x3` and `x4`, then one aggregate
/// affine constraint binding the public output. The auxiliary slots are, in
/// allocation order: `x`, `x2`, `x3`, `x4`, `-10*x3`, `35*x2`, `-50*x`; the
/// instance slots are the constant one and the output.
pub open spec fn quartic_constraints() -> Seq<ConstraintShape> {
    seq![
        ConstraintShape {
            a: seq![small_term(Variable::Aux(0), 1)],
            b: seq![small_term(Variable::Aux(0), 1)],
            c: seq![small_term(Variable::Aux(1), 1)],
        },
        ConstraintShape {
            a: seq![small_term(Variable::Aux(1), 1)],
            b: seq![small_term(Variable::Aux(0), 1)],
            c: seq![small_term(Variable::Aux(2), 1)],
        },
        ConstraintShape {
            a: seq![small_term(Variable::Aux(2), 1)],
            b: seq![small_term(Variable::Aux(0), 1)],
            c: seq![small_term(Variable::Aux(3), 1)],
        },
        ConstraintShape {
            a: seq![
                small_term(Variable::Aux(3), 1),
                small_term(Variable::Aux(4), 1),
                small_term(Variable::Aux(5), 1),
                small_term(Variable::Aux(6), 1),
                small_term(Variable::Input(0), 24),
            ],
            b: seq![small_term(Variable::Input(0), 1)],
            c: seq![small_term(Variable::Input(1), 1)],
        },
    ]
}

/// The value of a one-term linear combination with coefficient one is the
/// value of its variable, whenever that value is canonical.
proof fn lemma_lc_single_one(v: Variable, inputs: Seq<FieldElement>, auxs: Seq<FieldElement>)
    requires
        0 <= var_value(v, inputs, auxs) < p(),
    ensures
        lc_value(seq![small_term(v, 1)], inputs, auxs) == var_value(v, inputs, auxs),
{
    let s = seq![small_term(v, 1)];
    assert(s.drop_last() =~= Seq::<Term>::empty());
    assert(lc_value(s.drop_last(), inputs, auxs) == 0);
    assert(fe_small(1).value() == 1);
    lemma_fmul_one_left(var_value(v, inputs, auxs));
    lemma_fadd_zero_left(var_value(v, inputs, auxs));
}

/// The synthesized constraint topology does not depend on the witness:
/// every run emits exactly four constraints — the three chained
/// multiplications and the one aggregate output constraint — over seven
/// auxiliary and two instance variables.
pub proof fn lemma_constraint_count()
    ensures
        quartic_constraints().len() == 4,
{
}

/// The circuit computes the polynomial: for every canonical field value
/// `v`, the public output is the canonical residue of the integer
/// `v^4 - 10*v^3 + 35*v^2 - 50*v + 24` modulo the field order — no
/// clamping and no correction.
pub proof fn lemma_quartic_value_polynomial(v: int)
    requires
        0 <= v < p(),
    ensures
        quartic_value(v) == (v * v * v * v - 10 * (v * v * v) + 35 * (v * v) - 50 * v + 24) % p(),
{
    let m = p();
    vstd::arithmetic::mul::lemma_mul_nonnegative(v, v);
    vstd::arithmetic::mul::lemma_mul_nonnegative(v * v, v);
    vstd::arithmetic::mul::lemma_mul_nonnegative(10, v * v * v);
    vstd::arithmetic::mul::lemma_mul_nonnegative(50, v);

    // The powers of v, reduced step by step.
    vstd::arithmetic::div_mod::lemma_mul_mod_noop_left(v * v, v, m);
    assert(fmul(fmul(v, v), v) == (v * v * v) % m);
    vstd::arithmetic::div_mod::lemma_mul_mod_noop_left(v * v * v, v, m);
    assert(fmul(fmul(fmul(v, v), v), v) == (v * v * v * v) % m);

    // The scaled terms and their negations.
    vstd::arithmetic::div_mod::lemma_mul_mod_noop_right(10, v * v * v, m);
    assert(fmul(10, fmul(fmul(v, v), v)) == (10 * (v * v * v)) % m);
    lemma_fneg_is_neg_mod(10 * (v * v * v));
    assert(fneg(fmul(10, fmul(fmul(v, v), v))) == (-(10 * (v * v * v))) % m);
    vstd::arithmetic::div_mod::lemma_mul_mod_noop_right(35, v * v, m);
    assert(fmul(35, fmul(v, v)) == (35 * (v * v)) % m);
    lemma_fneg_is_neg_mod(50 * v);
    assert(fmul(50, v) == (50 * v) % m);
    assert(fneg(fmul(50, v)) == (-(50 * v)) % m);

    // The aggregate sum, reduced step by step.
    vstd::arithmetic::div_mod::lemma_add_mod_noop(v * v * v * v, -(10 * (v * v * v)), m);
    assert(fadd((v * v * v * v) % m, (-(10 * (v * v * v))) % m) == (v * v * v * v - 10 * (v * v
        * v)) % m);
    vstd::arithmetic::div_mod::lemma_add_mod_noop(
        v * v * v * v - 10 * (v * v * v),
        35 * (v * v),
        m,
    );
    vstd::arithmetic::div_mod::lemma_add_mod_noop(
        v * v * v * v - 10 * (v * v * v) + 35 * (v * v),
        -(50 * v),
        m,
    );
    vstd::arithmetic::div_mod::lemma_add_mod_noop(
        v * v * v * v - 10 * (v * v * v) + 35 * (v * v) - 50 * v,
        24,
        m,
    );
    vstd::arithmetic::div_mod::lemma_small_mod(24nat, m as nat);
}

/// For every root of the polynomial — the field values 1, 2, 3 and 4 — the
/// public output of the circuit is exactly the additive identity.
pub proof fn lemma_root_output_zero(v: int)
    requires
        v == 1 || v == 2 || v == 3 || v == 4,
    ensures
        quartic_value(v) == 0,
{
    lemma_quartic_value_polynomial(v);
    assert(v * v * v * v - 10 * (v * v * v) + 35 * (v * v) - 50 * v + 24 == 0);
    vstd::arithmetic::div_mod::lemma_small_mod(0nat, p() as nat);
}

/// The circuit: proves knowledge of a root of the quartic polynomial. The
/// secret input is present while proving and absent while only the
/// constraint topology is derived (parameter generation).
pub struct QuarticDemo {
    pub x: Option<FieldElement>,
}

impl QuarticDemo {
    /// Allocate every variable of the circuit and emit every constraint
    /// into a fresh constraint system.
    ///
    /// Succeeds exactly when a witness value is available or none is being
    /// collected; the only failure is a missing assignment, which leaves the
    /// system untouched. On success the system holds exactly the constraints
    /// of `quartic_constraints` — a shape independent of the witness — and,
    /// in witness mode, the derived assignment chain together with the
    /// public output `quartic_value(x)`, and every constraint is satisfied.
    pub fn synthesize(self, cs: &mut ConstraintSystem) -> (r: Result<(), SynthesisError>)
        requires
            old(cs).wf(),
            old(cs).is_fresh(),
            self.x matches Some(v) ==> v.inv(),
        ensures
            final(cs).wf(),
            final(cs).witness_mode == old(cs).witness_mode,
            r is Ok <==> (self.x is Some || !old(cs).witness_mode),
            r matches Err(e) ==> e == SynthesisError::AssignmentMissing && *final(cs) == *old(cs),
            r is Ok ==> {
                &&& final(cs).num_aux == 7
                &&& final(cs).num_inputs == 2
                &&& final(cs).constraints@.len() == quartic_constraints().len()
                &&& forall|k: int|
                    0 <= k < quartic_constraints().len()
                        ==> (#[trigger] final(cs).constraints@[k])@ =~= quartic_constraints()[k]
            },
            (r is Ok && old(cs).witness_mode) ==> {
                let v = self.x->0.value();
                &&& self.x is Some
                &&& final(cs).aux_values@.len() == 7
                &&& final(cs).aux_values@[0].value() == v
                &&& final(cs).aux_values@[1].value() == fmul(v, v)
                &&& final(cs).aux_values@[2].value() == fmul(fmul(v, v), v)
                &&& final(cs).aux_values@[3].value() == fmul(fmul(fmul(v, v), v), v)
                &&& final(cs).aux_values@[4].value() == fneg(fmul(10, fmul(fmul(v, v), v)))
                &&& final(cs).aux_values@[5].value() == fmul(35, fmul(v, v))
                &&& final(cs).aux_values@[6].value() == fneg(fmul(50, v))
                &&& final(cs).input_values@.len() == 2
                &&& final(cs).input_values@[1].value() == quartic_value(v)
                &&& final(cs).satisfied()
            },
    {
        // Derive the chain of witness values, when a witness is present.
        let x_val = self.x;
        let x2_val = match &x_val {
            Option::Some(v) => Option::Some(fr_square(v)),
            Option::None => Option::None,
        };
        let x3_val = match (&x2_val, &x_val) {
            (Option::Some(a), Option::Some(b)) => Option::Some(fr_mul(a, b)),
            _ => Option::None,
        };
        let x4_val = match (&x3_val, &x_val) {
            (Option::Some(a), Option::Some(b)) => Option::Some(fr_mul(a, b)),
            _ => Option::None,
        };
        let ten = FieldElement::from_u64(10);
        let t1_val = match &x3_val {
            Option::Some(a) => {
                let m = fr_mul(&ten, a);
                Option::Some(fr_neg(&m))
            },
            Option::None => Option::None,
        };
        let thirty_five = FieldElement::from_u64(35);
        let t2_val = match &x2_val {
            Option::Some(a) => Option::Some(fr_mul(&thirty_five, a)),
            Option::None => Option::None,
        };
        let fifty = FieldElement::from_u64(50);
        let t3_val = match &x_val {
            Option::Some(a) => {
                let m = fr_mul(&fifty, a);
                Option::Some(fr_neg(&m))
            },
            Option::None => Option::None,
        };
        let twenty_four = FieldElement::from_u64(24);
        let out_val = match (&x4_val, &t1_val, &t2_val, &t3_val) {
            (Option::Some(a), Option::Some(b), Option::Some(c), Option::Some(d)) => {
                let s1 = fr_add(a, b);
                let s2 = fr_add(&s1, c);
                let s3 = fr_add(&s2, d);
                Option::Some(fr_add(&s3, &twenty_four))
            },
            _ => Option::None,
        };

        let one = FieldElement::from_u64(1);

        // x
        let x_var = match cs.allocate(x_val) {
            Result::Ok(v) => v,
            Result::Err(e) => {
                return Result::Err(e);
            },
        };

        // x2, bound by x * x = x2
        let x2_var = match cs.allocate(x2_val) {
            Result::Ok(v) => v,
            Result::Err(e) => {
                return Result::Err(e);
            },
        };
        let mut a1: Vec<Term> = Vec::new();
        a1.push(Term { var: x_var, coeff: one });
        let mut b1: Vec<Term> = Vec::new();
        b1.push(Term { var: x_var, coeff: one });
        let mut c1: Vec<Term> = Vec::new();
        c1.push(Term { var: x2_var, coeff: one });
        cs.enforce(a1, b1, c1);
        proof {
            assert(cs.constraints@[0]@ =~= quartic_constraints()[0]);
        }

        // x3, bound by x2 * x = x3
        let x3_var = match cs.allocate(x3_val) {
            Result::Ok(v) => v,
            Result::Err(e) => {
                return Result::Err(e);
            },
        };
        let mut a2: Vec<Term> = Vec::new();
        a2.push(Term { var: x2_var, coeff: one });
        let mut b2: Vec<Term> = Vec::new();
        b2.push(Term { var: x_var, coeff: one });
        let mut c2: Vec<Term> = Vec::new();
        c2.push(Term { var: x3_var, coeff: one });
        cs.enforce(a2, b2, c2);
        proof {
            assert(cs.constraints@[1]@ =~= quartic_constraints()[1]);
        }

        // x4, bound by x3 * x = x4
        let x4_var = match cs.allocate(x4_val) {
            Result::Ok(v) => v,
            Result::Err(e) => {
                return Result::Err(e);
            },
        };
        let mut a3: Vec<Term> = Vec::new();
        a3.push(Term { var: x3_var, coeff: one });
        let mut b3: Vec<Term> = Vec::new();
        b3.push(Term { var: x_var, coeff: one });
        let mut c3: Vec<Term> = Vec::new();
        c3.push(Term { var: x4_var, coeff: one });
        cs.enforce(a3, b3, c3);
        proof {
            assert(cs.constraints@[2]@ =~= quartic_constraints()[2]);
        }

        // -10*x3, 35*x2 and -50*x: derived values, bound only by their
        // appearance in the aggregate output constraint.
        let t1_var = match cs.allocate(t1_val) {
            Result::Ok(v) => v,
            Result::Err(e) => {
                return Result::Err(e);
            },
        };
        let t2_var = match cs.allocate(t2_val) {
            Result::Ok(v) => v,
            Result::Err(e) => {
                return Result::Err(e);
            },
        };
        let t3_var = match cs.allocate(t3_val) {
            Result::Ok(v) => v,
            Result::Err(e) => {
                return Result::Err(e);
            },
        };

        // The public output, bound by (x4 + t1 + t2 + t3 + 24) * 1 = out.
        let out_var = match cs.allocate_public(out_val) {
            Result::Ok(v) => v,
            Result::Err(e) => {
                return Result::Err(e);
            },
        };
        let mut lc: Vec<Term> = Vec::new();
        lc.push(Term { var: x4_var, coeff: one });
        lc.push(Term { var: t1_var, coeff: one });
        lc.push(Term { var: t2_var, coeff: one });
        lc.push(Term { var: t3_var, coeff: one });
        lc.push(Term { var: Variable::Input(0), coeff: twenty_four });
        cs.enforce_affine(lc, out_var);
        proof {
            assert(cs.constraints@[0]@ =~= quartic_constraints()[0]);
            assert(cs.constraints@[1]@ =~= quartic_constraints()[1]);
            assert(cs.constraints@[2]@ =~= quartic_constraints()[2]);
            assert(cs.constraints@[3]@ =~= quartic_constraints()[3]);
            if cs.witness_mode {
                lemma_synthesis_satisfied(*cs, self.x->0.value());
            }
        }
        Result::Ok(())
    }
}

/// After a witness-mode synthesis run, every emitted constraint holds under
/// the collected assignments.
proof fn lemma_synthesis_satisfied(cs: ConstraintSystem, v: int)
    requires
        cs.wf(),
        cs.witness_mode,
        cs.num_aux == 7,
        cs.num_inputs == 2,
        cs.constraints@.len() == 4,
        forall|k: int|
            0 <= k < 4 ==> (#[trigger] cs.constraints@[k])@ =~= quartic_constraints()[k],
        cs.aux_values@[0].value() == v,
        cs.aux_values@[1].value() == fmul(v, v),
        cs.aux_values@[2].value() == fmul(fmul(v, v), v),
        cs.aux_values@[3].value() == fmul(fmul(fmul(v, v), v), v),
        cs.aux_values@[4].value() == fneg(fmul(10, fmul(fmul(v, v), v))),
        cs.aux_values@[5].value() == fmul(35, fmul(v, v)),
        cs.aux_values@[6].value() == fneg(fmul(50, v)),
        cs.input_values@[1].value() == quartic_value(v),
    ensures
        cs.satisfied(),
{
    let inputs = cs.input_values@;
    let auxs = cs.aux_values@;

    let w0 = var_value(Variable::Aux(0), inputs, auxs);
    let w1 = var_value(Variable::Aux(1), inputs, auxs);
    let w2 = var_value(Variable::Aux(2), inputs, auxs);
    let w3 = var_value(Variable::Aux(3), inputs, auxs);
    let w4 = var_value(Variable::Aux(4), inputs, auxs);
    let w5 = var_value(Variable::Aux(5), inputs, auxs);
    let w6 = var_value(Variable::Aux(6), inputs, auxs);
    let one_v = var_value(Variable::Input(0), inputs, auxs);
    let out_v = var_value(Variable::Input(1), inputs, auxs);
    assert(one_v == 1);

    lemma_lc_single_one(Variable::Aux(0), inputs, auxs);
    lemma_lc_single_one(Variable::Aux(1), inputs, auxs);
    lemma_lc_single_one(Variable::Aux(2), inputs, auxs);
    lemma_lc_single_one(Variable::Aux(3), inputs, auxs);
    lemma_lc_single_one(Variable::Input(0), inputs, auxs);
    lemma_lc_single_one(Variable::Input(1), inputs, auxs);

    // The three multiplication constraints.
    assert(constraint_satisfied(quartic_constraints()[0], inputs, auxs));
    assert(constraint_satisfied(quartic_constraints()[1], inputs, auxs));
    assert(constraint_satisfied(quartic_constraints()[2], inputs, auxs));

    // The aggregate output constraint: its left side sums the chain.
    let s5 = quartic_constraints()[3].a;
    let s4 = seq![
        small_term(Variable::Aux(3), 1),
        small_term(Variable::Aux(4), 1),
        small_term(Variable::Aux(5), 1),
        small_term(Variable::Aux(6), 1),
    ];
    let s3 = seq![
        small_term(Variable::Aux(3), 1),
        small_term(Variable::Aux(4), 1),
        small_term(Variable::Aux(5), 1),
    ];
    let s2 = seq![small_term(Variable::Aux(3), 1), small_term(Variable::Aux(4), 1)];
    let s1 = seq![small_term(Variable::Aux(3), 1)];
    assert(s5.drop_last() =~= s4);
    assert(s4.drop_last() =~= s3);
    assert(s3.drop_last() =~= s2);
    assert(s2.drop_last() =~= s1);

    lemma_fmul_one_left(w3);
    lemma_fmul_one_left(w4);
    lemma_fmul_one_left(w5);
    lemma_fmul_one_left(w6);
    lemma_fadd_zero_left(w3);
    lemma_fmul_one_right(24);

    assert(lc_value(s1, inputs, auxs) == w3) by {
        lemma_lc_single_one(Variable::Aux(3), inputs, auxs);
    }
    assert(lc_value(s2, inputs, auxs) == fadd(w3, w4));
    assert(lc_value(s3, inputs, auxs) == fadd(fadd(w3, w4), w5));
    assert(lc_value(s4, inputs, auxs) == fadd(fadd(fadd(w3, w4), w5), w6));
    assert(lc_value(s5, inputs, auxs) == fadd(fadd(fadd(fadd(w3, w4), w5), w6), 24));
    assert(lc_value(s5, inputs, auxs) == quartic_value(v));

    lemma_fmul_one_right(out_v);
    assert(constraint_satisfied(quartic_constraints()[3], inputs, auxs));

    assert forall|i: int| 0 <= i < cs.constraints@.len() implies constraint_satisfied(
        (#[trigger] cs.constraints@[i])@,
        inputs,
        auxs,
    ) by {
        assert(cs.constraints@[i]@ =~= quartic_constraints()[i]);
        assert(constraint_satisfied(quartic_constraints()[i], inputs, auxs));
    }
}

} // verus!

