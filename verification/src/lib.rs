//! A local replica of a price catalog for card printings.
//!
//! The replica holds what is known of each printing, the price rows that
//! several vendor feeds fill channel by channel, and the bookkeeping of
//! what was synced. It is kept in step with a remote catalog by snapshots,
//! which replace the rows of a version, and by patches, which move it from
//! one version to the next; a hash over the rows of the current version
//! tells whether the replica still agrees with its source.
//!
//! Prices are counted in millionths of a currency unit. Every function of
//! the library carries a contract that the verifier has checked against its
//! body; what is believed without proof of the standard library and of the
//! `sha2`, `chrono`, `uuid` and `serde_json` crates is marked as trusted
//! where it is declared.

use vstd::prelude::*;

pub mod carry;
pub mod catalog;
pub mod changes;
pub mod ck;
mod clock;
pub mod count;
pub mod cycle;
pub mod digits;
pub mod error;
pub mod hash;
pub mod laws;
pub mod ledger;
pub mod model;
pub mod oracle;
pub mod order;
pub mod patch;
pub mod price;
pub mod printing;
pub mod query;
pub mod rank;
pub mod record;
pub mod replay;
pub mod snapshot;
pub mod store;
pub mod tags;
pub mod tcg;
pub mod text;
pub mod tokens;
pub mod trend;
pub mod vendor;
pub mod version;

verus! {

/// Identifier of the near-mint condition of a price row.
pub const CONDITION_NM_ID: i64 = 1;

/// Finish identifier of a regular (non-foil) printing.
pub const FINISH_NONFOIL_ID: i64 = 1;

/// Finish identifier of a foil printing.
pub const FINISH_FOIL_ID: i64 = 2;

} // verus!
