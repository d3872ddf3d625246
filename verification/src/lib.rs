//! Core consensus primitives of a beacon node: the deterministic validator
//! shuffling and committee assignment engine, the canonical state data model,
//! the canonical serializer, and the cached binary Merkle tree hasher.

pub mod bitfield;
pub mod block;
pub mod checks;
pub mod client_config;
pub mod config;
pub mod delegation;
pub mod deposit;
pub mod duties;
pub mod harness;
pub mod hash;
pub mod merkle;
pub mod overlay;
pub mod record;
pub mod rng;
pub mod state;
pub mod shuffle;
pub mod slashing;
pub mod store;
pub mod validator;
pub mod ssz;
pub mod types;

use vstd::prelude::*;

verus! {

} // verus!
