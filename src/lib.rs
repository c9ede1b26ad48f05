//! Poseidon sponge hashing over prime fields.
//!
//! The permutation and the absorb / squeeze sponge are generic over a
//! `FieldElement` and verified against mathematical models over integers
//! modulo the field's prime. `Scalar`, the BLS12-381 scalar field, is the
//! provided field; its arithmetic is performed by `ark_ff`.
pub mod field;
pub mod params;
pub mod permutation;
pub mod sponge;

pub use field::{FieldElement, Scalar};
pub use params::{Constants, HashError};
pub use permutation::{ark, linear_layer, poseidon_permutation, sbox};
pub use sponge::{absorb, hash, pad, squeeze};
