//! A keyspace scanner: candidate private keys are drawn at random, the
//! addresses reachable from each key are derived under a fixed list of
//! encoding schemes, and every derived address is tested against an index of
//! addresses of interest. Each hit becomes a record for an append-only log.
//!
//! The elliptic-curve and address-encoding primitives come from the `bitcoin`
//! crate and are trusted; everything built on top of them is verified.

pub mod address;
pub mod counter;
pub mod index;
pub mod keys;
pub mod record;
pub mod scalar;
pub mod scan;
pub mod scheduler;
