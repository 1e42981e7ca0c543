//! Arithmetic core of a folding-based incrementally verifiable computation
//! scheme: R1CS/CCS relation layer, Pedersen vector commitments, a
//! Fiat-Shamir transcript over a Poseidon sponge, and the NIFS folding
//! protocol that combines two committed relation instances into one.

pub mod field;
pub mod r1cs;
pub mod ccs;
pub mod point;
pub mod transcript;
pub mod pedersen;
pub mod nova;
pub mod nifs;