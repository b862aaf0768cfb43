//! A Fiat-Shamir transcript engine for public-coin protocols.
//!
//! A protocol declares the order of its absorb, squeeze and ratchet steps as
//! an [`IOPattern`](pattern::IOPattern). A [`Safe`](safe::Safe) wraps a duplex
//! sponge and refuses every call that departs from the declared pattern.
//! [`Arthur`](arthur::Arthur) is the prover's side of a transcript,
//! [`Merlin`](merlin::Merlin) the verifier's.

pub mod absorbs;
pub mod agreement;
pub mod arthur;
pub mod errors;
pub mod hash;
pub mod merlin;
pub mod pattern;
pub mod safe;
pub mod secret;
pub mod sponge;
pub mod traits;

pub use arthur::Arthur;
pub use errors::IOPatternError;
pub use hash::{DuplexHash, Unit};
pub use merlin::Merlin;
pub use pattern::{IOPattern, Op};
pub use safe::Safe;
