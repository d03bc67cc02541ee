use quartic_r1cs::{ConstraintSystem, FieldElement, QuarticDemo, SynthesisError, Variable};

fn fe(n: u64) -> FieldElement {
    FieldElement::from_u64(n)
}

#[test]
fn paramgen_without_witness_succeeds() {
    let mut cs = ConstraintSystem::new(false);
    let c = QuarticDemo { x: None };
    assert_eq!(c.synthesize(&mut cs), Ok(()));
    assert_eq!(cs.num_aux, 7);
    assert_eq!(cs.num_inputs, 2);
    assert_eq!(cs.constraints.len(), 4);
    assert_eq!(cs.input_values.len(), 0);
    assert_eq!(cs.aux_values.len(), 0);
}

#[test]
fn witness_mode_missing_assignment_fails() {
    let mut cs = ConstraintSystem::new(true);
    let c = QuarticDemo { x: None };
    assert_eq!(c.synthesize(&mut cs), Err(SynthesisError::AssignmentMissing));
    assert_eq!(cs.num_aux, 0);
    assert_eq!(cs.num_inputs, 1);
    assert_eq!(cs.constraints.len(), 0);
}

#[test]
fn topology_is_witness_independent() {
    let mut cs1 = ConstraintSystem::new(false);
    QuarticDemo { x: None }.synthesize(&mut cs1).unwrap();
    let mut cs2 = ConstraintSystem::new(true);
    QuarticDemo { x: Some(fe(7)) }.synthesize(&mut cs2).unwrap();
    assert_eq!(cs1.num_aux, cs2.num_aux);
    assert_eq!(cs1.num_inputs, cs2.num_inputs);
    assert_eq!(cs1.constraints.len(), cs2.constraints.len());
    for (c1, c2) in cs1.constraints.iter().zip(cs2.constraints.iter()) {
        assert_eq!(c1.a, c2.a);
        assert_eq!(c1.b, c2.b);
        assert_eq!(c1.c, c2.c);
    }
}

#[test]
fn roots_give_zero_output() {
    for r in 1u64..=4 {
        let mut cs = ConstraintSystem::new(true);
        QuarticDemo { x: Some(fe(r)) }.synthesize(&mut cs).unwrap();
        assert_eq!(cs.input_values.len(), 2);
        assert_eq!(cs.input_values[1], fe(0));
    }
}

#[test]
fn nonroot_output_is_polynomial_value() {
    // 5^4 - 10*125 + 35*25 - 50*5 + 24 = 24
    let mut cs = ConstraintSystem::new(true);
    QuarticDemo { x: Some(fe(5)) }.synthesize(&mut cs).unwrap();
    assert_eq!(cs.input_values[1], fe(24));
    assert_ne!(cs.input_values[1], fe(0));

    // 6^4 - 10*216 + 35*36 - 50*6 + 24 = 120
    let mut cs6 = ConstraintSystem::new(true);
    QuarticDemo { x: Some(fe(6)) }.synthesize(&mut cs6).unwrap();
    assert_eq!(cs6.input_values[1], fe(120));
}

#[test]
fn witness_chain_for_x_equals_two() {
    let mut cs = ConstraintSystem::new(true);
    QuarticDemo { x: Some(fe(2)) }.synthesize(&mut cs).unwrap();
    assert_eq!(cs.aux_values.len(), 7);
    assert_eq!(cs.aux_values[0], fe(2));
    assert_eq!(cs.aux_values[1], fe(4));
    assert_eq!(cs.aux_values[2], fe(8));
    assert_eq!(cs.aux_values[3], fe(16));
    // -80 and -100 are the field modulus minus 80 and minus 100.
    let minus_80 = FieldElement {
        l0: 0xfffffffeffffffb1,
        l1: 0x53bda402fffe5bfe,
        l2: 0x3339d80809a1d805,
        l3: 0x73eda753299d7d48,
    };
    let minus_100 = FieldElement {
        l0: 0xfffffffeffffff9d,
        l1: 0x53bda402fffe5bfe,
        l2: 0x3339d80809a1d805,
        l3: 0x73eda753299d7d48,
    };
    assert_eq!(cs.aux_values[4], minus_80);
    assert_eq!(cs.aux_values[5], fe(140));
    assert_eq!(cs.aux_values[6], minus_100);
    // 16 - 80 + 140 - 100 + 24 = 0
    assert_eq!(cs.input_values[0], fe(1));
    assert_eq!(cs.input_values[1], fe(0));
}

#[test]
fn constraint_shapes() {
    let mut cs = ConstraintSystem::new(false);
    QuarticDemo { x: None }.synthesize(&mut cs).unwrap();
    let c0 = &cs.constraints[0];
    assert_eq!(c0.a.len(), 1);
    assert_eq!(c0.a[0].var, Variable::Aux(0));
    assert_eq!(c0.a[0].coeff, fe(1));
    assert_eq!(c0.b[0].var, Variable::Aux(0));
    assert_eq!(c0.c[0].var, Variable::Aux(1));
    let c1 = &cs.constraints[1];
    assert_eq!(c1.a[0].var, Variable::Aux(1));
    assert_eq!(c1.b[0].var, Variable::Aux(0));
    assert_eq!(c1.c[0].var, Variable::Aux(2));
    let c2 = &cs.constraints[2];
    assert_eq!(c2.a[0].var, Variable::Aux(2));
    assert_eq!(c2.b[0].var, Variable::Aux(0));
    assert_eq!(c2.c[0].var, Variable::Aux(3));
    let c3 = &cs.constraints[3];
    assert_eq!(c3.a.len(), 5);
    assert_eq!(c3.a[0].var, Variable::Aux(3));
    assert_eq!(c3.a[1].var, Variable::Aux(4));
    assert_eq!(c3.a[2].var, Variable::Aux(5));
    assert_eq!(c3.a[3].var, Variable::Aux(6));
    assert_eq!(c3.a[4].var, Variable::Input(0));
    assert_eq!(c3.a[4].coeff, fe(24));
    assert_eq!(c3.b.len(), 1);
    assert_eq!(c3.b[0].var, Variable::Input(0));
    assert_eq!(c3.b[0].coeff, fe(1));
    assert_eq!(c3.c.len(), 1);
    assert_eq!(c3.c[0].var, Variable::Input(1));
}

#[test]
fn allocation_indices() {
    let mut cs = ConstraintSystem::new(true);
    assert_eq!(cs.allocate(Some(fe(9))), Ok(Variable::Aux(0)));
    assert_eq!(cs.allocate(Some(fe(11))), Ok(Variable::Aux(1)));
    assert_eq!(cs.allocate_public(Some(fe(3))), Ok(Variable::Input(1)));
    assert_eq!(cs.allocate(None), Err(SynthesisError::AssignmentMissing));

    let mut pg = ConstraintSystem::new(false);
    assert_eq!(pg.allocate(None), Ok(Variable::Aux(0)));
    assert_eq!(pg.allocate_public(None), Ok(Variable::Input(1)));
}
