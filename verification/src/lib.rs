//! Addition, scalar multiplication and the pairing check on the BN254 curve,
//! over flat byte buffers.
//!
//! The byte layout, the validation of field elements and curve points and the
//! handling of the point at infinity are verified here. The field and curve
//! arithmetic itself is done by the `zeropool-bn` crate.

pub mod bn128;
pub mod bytes;
pub mod chain_ext;
pub mod curve;
pub mod field;
pub mod laws;
