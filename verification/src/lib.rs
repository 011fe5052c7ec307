//! Subnetwork lifecycle, registration pricing, pruning selection, and
//! delegate snapshot aggregation over an explicit in-memory ledger state.
use vstd::prelude::*;

pub mod account;
pub mod fixed;
pub mod netmap;
pub mod pairtable;
pub mod accmap;
pub mod membertable;
pub mod staketable;
pub mod math;
pub mod state;
pub mod networks;
pub mod delegate_info;

verus! {

/// Blocks per day; a subnetwork's epoch repeats `DAYS / tempo` times a day.
pub const DAYS: u64 = 7200;

} // verus!
