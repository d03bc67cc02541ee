//! End-to-end round trip through the Groth16 backend: the recorded
//! constraint system is replayed into bellman, parameters are generated from
//! the witness-free topology, and a proof for a root of the polynomial
//! verifies against public input zero while a non-root does not.

use bellman::groth16::{
    create_random_proof, generate_random_parameters, prepare_verifying_key, verify_proof,
};
use bellman::{Circuit, ConstraintSystem as BackendSystem, LinearCombination, SynthesisError};
use pairing::bls12_381::{Bls12, Fr, FrRepr};
use pairing::PrimeField;
use quartic_r1cs::{FieldElement, QuarticDemo, Term, Variable};
use rand::thread_rng;

fn to_fr(fe: &FieldElement) -> Fr {
    Fr::from_repr(FrRepr([fe.l0, fe.l1, fe.l2, fe.l3])).unwrap()
}

fn to_fe(fr: &Fr) -> FieldElement {
    let l = fr.into_repr().0;
    FieldElement { l0: l[0], l1: l[1], l2: l[2], l3: l[3] }
}

/// Runs the library's synthesizer, then replays the recorded variables and
/// constraints into the bellman backend.
struct ReplayCircuit {
    x: Option<Fr>,
}

impl Circuit<Bls12> for ReplayCircuit {
    fn synthesize<CS: BackendSystem<Bls12>>(self, cs: &mut CS) -> Result<(), SynthesisError> {
        let witness_mode = self.x.is_some();
        let mut model = quartic_r1cs::ConstraintSystem::new(witness_mode);
        let demo = QuarticDemo { x: self.x.as_ref().map(to_fe) };
        demo.synthesize(&mut model).map_err(|_| SynthesisError::AssignmentMissing)?;

        let mut aux_vars = Vec::new();
        for i in 0..model.num_aux {
            let value = model.aux_values.get(i).copied();
            aux_vars.push(cs.alloc(
                || format!("aux {}", i),
                || value.as_ref().map(to_fr).ok_or(SynthesisError::AssignmentMissing),
            )?);
        }
        let mut input_vars = Vec::new();
        input_vars.push(CS::one());
        for i in 1..model.num_inputs {
            let value = model.input_values.get(i).copied();
            input_vars.push(cs.alloc_input(
                || format!("input {}", i),
                || value.as_ref().map(to_fr).ok_or(SynthesisError::AssignmentMissing),
            )?);
        }

        let build = |terms: &[Term], mut lc: LinearCombination<Bls12>| {
            for t in terms {
                let var = match t.var {
                    Variable::Input(i) => input_vars[i],
                    Variable::Aux(i) => aux_vars[i],
                };
                lc = lc + (to_fr(&t.coeff), var);
            }
            lc
        };
        for (k, c) in model.constraints.iter().enumerate() {
            cs.enforce(
                || format!("constraint {}", k),
                |lc| build(&c.a, lc),
                |lc| build(&c.b, lc),
                |lc| build(&c.c, lc),
            );
        }
        Ok(())
    }
}

#[test]
fn groth16_root_proof_verifies_against_zero() {
    let rng = &mut thread_rng();
    let params = generate_random_parameters::<Bls12, _, _>(ReplayCircuit { x: None }, rng).unwrap();
    let pvk = prepare_verifying_key(&params.vk);
    let proof =
        create_random_proof(ReplayCircuit { x: Some(Fr::from_str("2").unwrap()) }, &params, rng)
            .unwrap();
    assert!(verify_proof(&pvk, &proof, &[Fr::from_str("0").unwrap()]).unwrap());
}

#[test]
fn groth16_every_root_verifies() {
    let rng = &mut thread_rng();
    let params = generate_random_parameters::<Bls12, _, _>(ReplayCircuit { x: None }, rng).unwrap();
    let pvk = prepare_verifying_key(&params.vk);
    for r in ["1", "2", "3", "4"] {
        let proof =
            create_random_proof(ReplayCircuit { x: Some(Fr::from_str(r).unwrap()) }, &params, rng)
                .unwrap();
        assert!(verify_proof(&pvk, &proof, &[Fr::from_str("0").unwrap()]).unwrap());
    }
}

#[test]
fn groth16_nonroot_proof_fails_against_zero() {
    let rng = &mut thread_rng();
    let params = generate_random_parameters::<Bls12, _, _>(ReplayCircuit { x: None }, rng).unwrap();
    let pvk = prepare_verifying_key(&params.vk);
    let proof =
        create_random_proof(ReplayCircuit { x: Some(Fr::from_str("5").unwrap()) }, &params, rng)
            .unwrap();
    assert!(!verify_proof(&pvk, &proof, &[Fr::from_str("0").unwrap()]).unwrap());
}
