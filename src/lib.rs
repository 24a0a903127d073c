//! The Schnorr identification protocol over the multiplicative group of
//! integers modulo a prime, with every operation stated and proved against
//! a model over mathematical integers.

pub mod bignat;
pub mod group;
pub mod laws;
pub mod protocol;

pub use bignat::BigNat;
pub use protocol::{KeyPair, Parameters, SchnorrProtocol};
