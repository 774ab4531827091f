//! A batched verifier for Sonic proofs over BLS12-381, with its contracts
//! stated and proved in Verus, and what a ceremony's tooling decides around
//! it.
//!
//! The verifier ([`multiverifier`]) turns each proof into claims about
//! polynomial commitments ([`batch`]), with challenges from a Fiat–Shamir
//! transcript ([`transcript`]); it reads a circuit as the events of its
//! synthesis ([`circuit`]) and evaluates the circuit's polynomial `s`
//! ([`poly`], [`poly_y`]). Field and curve arithmetic ([`field`], [`group`])
//! is that of the `pairing` crate. [`poly_laws`] and [`batch_laws`] hold what
//! is proved of the verifier beyond the contracts of its functions.
//!
//! [`coordinator`] and [`setup`] hold the decisions of a ceremony's
//! coordinator and of the command that starts its second phase.

pub mod batch;
pub mod batch_laws;
pub mod circuit;
pub mod coordinator;
pub mod field;
pub mod group;
pub mod multiverifier;
pub mod poly;
pub mod poly_laws;
pub mod poly_y;
pub mod protocol;
pub mod setup;
pub mod srs;
pub mod transcript;
