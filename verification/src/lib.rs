//! Packet layer of a coin-mixing network for a Mimblewimble-style chain.
//!
//! A client builds a layered-encrypted packet (an onion) over an ordered
//! route of mix servers; each server strips exactly one layer, recovers the
//! blinding excess addressed to it, and forwards the remainder.  The crate
//! provides the onion construction and peeling protocol, the homomorphic
//! commitment algebra that anchors each packet to an input commitment, and
//! the deterministic wire encoding of the payload hidden in each layer.

pub mod error;
pub mod onion;
pub mod secp;
pub mod ser;
pub mod server;
pub mod types;
