//! Anonymous membership signalling over a Merkle-committed access set.
//!
//! A member of a known group proves, in zero knowledge, that they belong to
//! the group and are emitting a signal bound to a chosen context, without
//! revealing which member they are, while a deterministic nullifier makes a
//! second signal in the same context detectable. The commitment scheme, the
//! access set, the circuit layout, the witness preparation and the
//! public-input encoding are verified here; the proving machinery itself is
//! reached only through the backend contract in [`backend`], which a plonky2
//! implementation satisfies outside the verified core.

pub mod access_set;
pub mod backend;
pub mod circuit;
pub mod error;
pub mod field;
pub mod signal;
pub mod tornado;
