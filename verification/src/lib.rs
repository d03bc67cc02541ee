//! A verified R1CS circuit builder for proving knowledge of a root of the
//! quartic polynomial `x^4 - 10*x^3 + 35*x^2 - 50*x + 24`, i.e. of some
//! `x` in `{1, 2, 3, 4}`, over the BLS12-381 scalar field.

pub mod field;
pub mod quartic;
pub mod r1cs;

pub use field::FieldElement;
pub use quartic::QuarticDemo;
pub use r1cs::{Constraint, ConstraintSystem, SynthesisError, Term, Variable};
