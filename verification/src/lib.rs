//! Signature algorithms behind one interface, and the canonical form of a public key
//! from which its thumbprint is computed.

pub mod alg;
pub mod error;
pub mod hash;
pub mod jwk;
pub mod names;
pub mod text;
pub mod traits;

pub use crate::error::CodecError;
pub use crate::traits::{Algorithm, AlgorithmSignature, Renamed};
